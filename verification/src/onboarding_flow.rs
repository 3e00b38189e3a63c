//! The course of an onboarding. Each step names what is done outside before the next one. The
//! conversation is bound only when everything else is in place, and what was made for it is taken
//! back where a later step fails.

use crate::json::{objects, text_field, Json, JsonMap, JsonV, ObjV};
use crate::lists::{lemma_views, lemma_views_push};
use crate::model::{outcome, refusal, required_arg, required_text, DaemonRequest, ErrV, OpError};
use crate::onboarding::{
    admitted, applicant, callback_ready, check_admission, check_path, check_reuse, choose_title,
    cleaned_up, connect, connect_answer, connect_failure, connected, connection, create_args,
    group_create_args, onboard_failure, opt_map, path_check, read_applicant, read_chat_url,
    reuse_check, stable_url, title_of, undone, CardV, ConnectPlan, ConnectPlanV, GroupCard,
    Onboarding,
};
use crate::text::{opt_text, texts, Text};
use vstd::prelude::*;

verus! {

broadcast use {lemma_views, lemma_views_push};

/// The seconds for which a code lives that is issued and used within an onboarding.
pub const CODE_SECONDS: i64 = 600;

/// A conversation that asks for onboarding, with its stable address if it gave one.
pub struct Applicant {
    pub session: String,
    pub url: Option<String>,
}

/// The mathematical value of a conversation that asks for onboarding.
pub struct ApplicantV {
    pub session: Text,
    pub url: Option<Text>,
}

impl View for Applicant {
    type V = ApplicantV;

    open spec fn view(&self) -> ApplicantV {
        ApplicantV { session: self.session@, url: opt_text(self.url) }
    }
}

/// A project directory as the file system has it.
pub struct Directory {
    /// Its canonical path.
    pub path: String,
    /// The last part of the path.
    pub name: String,
    /// Whether it lies within the daemon's own data.
    pub internal: bool,
    /// Whether it is there.
    pub exists: bool,
}

/// The mathematical value of a project directory.
pub struct DirectoryV {
    pub path: Text,
    pub name: Text,
    pub internal: bool,
    pub exists: bool,
}

impl View for Directory {
    type V = DirectoryV;

    open spec fn view(&self) -> DirectoryV {
        DirectoryV {
            path: self.path@,
            name: self.name@,
            internal: self.internal,
            exists: self.exists,
        }
    }
}

/// What was made for an onboarding before the conversation is connected.
pub struct Founded {
    /// Whether the group was created.
    pub group: bool,
    /// The directory that was created with it.
    pub directory: Option<String>,
}

/// The mathematical value of what was made for an onboarding.
pub struct FoundedV {
    pub group: bool,
    pub directory: Option<Text>,
}

impl View for Founded {
    type V = FoundedV;

    open spec fn view(&self) -> FoundedV {
        FoundedV { group: self.group, directory: opt_text(self.directory) }
    }
}

/// A conversation on its way into a group.
pub struct Joining {
    pub session: String,
    pub group: GroupCard,
    pub plan: ConnectPlan,
    pub founded: Founded,
    /// The connector that the conversation gets.
    pub connector_id: String,
    /// The connector that was made for it.
    pub made: Option<String>,
}

/// The mathematical value of a conversation on its way into a group.
pub struct JoiningV {
    pub session: Text,
    pub group: CardV,
    pub plan: ConnectPlanV,
    pub founded: FoundedV,
    pub connector_id: Text,
    pub made: Option<Text>,
}

impl View for Joining {
    type V = JoiningV;

    open spec fn view(&self) -> JoiningV {
        JoiningV {
            session: self.session@,
            group: self.group@,
            plan: self.plan@,
            founded: self.founded@,
            connector_id: self.connector_id@,
            made: opt_text(self.made),
        }
    }
}

/// A step of an onboarding.
pub enum OnboardStep {
    /// The onboarding is refused; nothing more is done.
    Refused(OpError),
    /// Answer with this.
    Done(JsonMap),
    /// Bring the given address of this conversation to its stable form.
    Normalize(String, String),
    /// Look for the connector that the conversation is bound to.
    FindBound(Applicant),
    /// Look up the directory at this path.
    FindDirectory(Applicant, Option<JsonMap>, String),
    /// Read the group that the conversation is bound to; it must have this path and this title.
    LoadBound(Applicant, JsonMap, String, String),
    /// Create a group with these arguments; the directory comes along if it is new.
    CreateGroup(Applicant, JsonMap, Option<String>),
    /// Read the created group with this id.
    LoadCreated(Applicant, String, Option<String>),
    /// Find the group that this token names.
    FindGroup(Applicant, Option<JsonMap>, String),
    /// Read all connectors.
    Connect(Applicant, Option<JsonMap>, GroupCard, Founded),
    /// Add the actor of the plan.
    AddActor(Joining),
    /// Make a connector for the actor of the plan.
    MakeConnector(Joining),
    /// Start the actor of the plan.
    StartActor(Joining),
    /// Save the target of the plan.
    SaveTarget(Joining),
    /// Issue a code for the connector, and bind the conversation with it.
    Bind(Joining),
    /// Read the group and the target of the actor again.
    Report(Joining),
    /// Revoke this connector, which was made for the conversation.
    Revoke(Joining, OpError, String),
    /// Remove the actor, which was added for the conversation.
    RemoveActor(Joining, OpError, Vec<String>),
    /// Delete the group with this id, which was created for the conversation.
    DeleteGroup(OpError, String, Option<String>),
    /// Remove this directory, which was created with the group.
    RemoveDirectory(OpError, String),
}

/// The mathematical value of a step of an onboarding.
pub enum OnboardStepV {
    Refused(ErrV),
    Done(ObjV),
    Normalize(Text, Text),
    FindBound(ApplicantV),
    FindDirectory(ApplicantV, Option<ObjV>, Text),
    LoadBound(ApplicantV, ObjV, Text, Text),
    CreateGroup(ApplicantV, ObjV, Option<Text>),
    LoadCreated(ApplicantV, Text, Option<Text>),
    FindGroup(ApplicantV, Option<ObjV>, Text),
    Connect(ApplicantV, Option<ObjV>, CardV, FoundedV),
    AddActor(JoiningV),
    MakeConnector(JoiningV),
    StartActor(JoiningV),
    SaveTarget(JoiningV),
    Bind(JoiningV),
    Report(JoiningV),
    Revoke(JoiningV, ErrV, Text),
    RemoveActor(JoiningV, ErrV, Seq<Text>),
    DeleteGroup(ErrV, Text, Option<Text>),
    RemoveDirectory(ErrV, Text),
}

impl View for OnboardStep {
    type V = OnboardStepV;

    open spec fn view(&self) -> OnboardStepV {
        match self {
            OnboardStep::Refused(e) => OnboardStepV::Refused(e@),
            OnboardStep::Done(m) => OnboardStepV::Done(m@),
            OnboardStep::Normalize(s, u) => OnboardStepV::Normalize(s@, u@),
            OnboardStep::FindBound(a) => OnboardStepV::FindBound(a@),
            OnboardStep::FindDirectory(a, b, p) => OnboardStepV::FindDirectory(
                a@,
                opt_map(*b),
                p@,
            ),
            OnboardStep::LoadBound(a, b, p, t) => OnboardStepV::LoadBound(a@, b@, p@, t@),
            OnboardStep::CreateGroup(a, m, d) => OnboardStepV::CreateGroup(a@, m@, opt_text(*d)),
            OnboardStep::LoadCreated(a, g, d) => OnboardStepV::LoadCreated(a@, g@, opt_text(*d)),
            OnboardStep::FindGroup(a, b, t) => OnboardStepV::FindGroup(a@, opt_map(*b), t@),
            OnboardStep::Connect(a, b, g, f) => OnboardStepV::Connect(a@, opt_map(*b), g@, f@),
            OnboardStep::AddActor(j) => OnboardStepV::AddActor(j@),
            OnboardStep::MakeConnector(j) => OnboardStepV::MakeConnector(j@),
            OnboardStep::StartActor(j) => OnboardStepV::StartActor(j@),
            OnboardStep::SaveTarget(j) => OnboardStepV::SaveTarget(j@),
            OnboardStep::Bind(j) => OnboardStepV::Bind(j@),
            OnboardStep::Report(j) => OnboardStepV::Report(j@),
            OnboardStep::Revoke(j, e, id) => OnboardStepV::Revoke(j@, e@, id@),
            OnboardStep::RemoveActor(j, e, f) => OnboardStepV::RemoveActor(j@, e@, texts(f@)),
            OnboardStep::DeleteGroup(e, g, d) => OnboardStepV::DeleteGroup(e@, g@, opt_text(*d)),
            OnboardStep::RemoveDirectory(e, d) => OnboardStepV::RemoveDirectory(e@, d@),
        }
    }
}

/// The first step: the request is checked.
pub open spec fn first_step(kind: Onboarding, args: ObjV) -> OnboardStepV {
    match applicant(kind, args) {
        Err(e) => OnboardStepV::Refused(e),
        Ok((session, url)) => if url.len() == 0 {
            OnboardStepV::FindBound(ApplicantV { session, url: None })
        } else {
            OnboardStepV::Normalize(session, url)
        },
    }
}

/// The first step of an onboarding.
pub fn onboard(kind: Onboarding, request: &DaemonRequest) -> (r: OnboardStep)
    ensures
        r@ == first_step(kind, request@.args),
{
    match read_applicant(kind, request) {
        Err(e) => OnboardStep::Refused(e),
        Ok((session, url)) => if url.as_str().is_empty() {
            OnboardStep::FindBound(Applicant { session, url: None })
        } else {
            OnboardStep::Normalize(session, url)
        },
    }
}

/// The step over the stable form of the given address, if it has one.
pub open spec fn normalized_step(session: Text, given: Text, stable: Option<Text>) -> OnboardStepV {
    match stable_url(given, stable) {
        Err(e) => OnboardStepV::Refused(e),
        Ok(url) => OnboardStepV::FindBound(ApplicantV { session, url }),
    }
}

/// The step over the stable form of the given address, if it has one.
pub fn after_normalized(session: String, given: &str, stable: Option<String>) -> (r: OnboardStep)
    ensures
        r@ == normalized_step(session@, given@, opt_text(stable)),
{
    match read_chat_url(given, stable) {
        Err(e) => OnboardStep::Refused(e),
        Ok(url) => OnboardStep::FindBound(Applicant { session, url }),
    }
}

/// The step over the connector that the conversation is bound to: a directory for a new group, or
/// a group that is there.
pub open spec fn bound_step(
    kind: Onboarding,
    args: ObjV,
    a: ApplicantV,
    bound: Option<ObjV>,
    absolute: bool,
) -> OnboardStepV {
    match kind {
        Onboarding::Create => match required_text(args, "path"@) {
            Err(e) => OnboardStepV::Refused(e),
            Ok(raw) => match path_check(raw, absolute, false) {
                Err(e) => OnboardStepV::Refused(e),
                Ok(_) => OnboardStepV::FindDirectory(a, bound, raw),
            },
        },
        Onboarding::Bind => match required_text(args, "group"@) {
            Err(e) => OnboardStepV::Refused(e),
            Ok(token) => OnboardStepV::FindGroup(a, bound, token),
        },
    }
}

/// The step over the connector that the conversation is bound to. `absolute` says whether the path
/// of the request is absolute.
pub fn after_bound(
    kind: Onboarding,
    request: &DaemonRequest,
    a: Applicant,
    bound: Option<JsonMap>,
    absolute: bool,
) -> (r: OnboardStep)
    ensures
        r@ == bound_step(kind, request@.args, a@, opt_map(bound), absolute),
{
    match kind {
        Onboarding::Create => match required_arg(request, "path") {
            Err(e) => OnboardStep::Refused(e),
            Ok(raw) => match check_path(raw.as_str(), absolute, false) {
                Err(e) => OnboardStep::Refused(e),
                Ok(_) => OnboardStep::FindDirectory(a, bound, raw),
            },
        },
        Onboarding::Bind => match required_arg(request, "group") {
            Err(e) => OnboardStep::Refused(e),
            Ok(token) => OnboardStep::FindGroup(a, bound, token),
        },
    }
}

/// The step over the directory: the group that the conversation has, or a new one.
pub open spec fn directory_step(
    args: ObjV,
    a: ApplicantV,
    bound: Option<ObjV>,
    found: Result<DirectoryV, ErrV>,
) -> OnboardStepV {
    match found {
        Err(e) => OnboardStepV::Refused(e),
        Ok(d) => match path_check(d.path, true, d.internal) {
            Err(e) => OnboardStepV::Refused(e),
            Ok(_) => {
                let title = title_of(args, d.name);
                match bound {
                    Some(b) => OnboardStepV::LoadBound(a, b, d.path, title),
                    None => OnboardStepV::CreateGroup(
                        a,
                        create_args(d.path, title),
                        if d.exists {
                            None
                        } else {
                            Some(d.path)
                        },
                    ),
                }
            },
        },
    }
}

/// The step over the directory.
pub fn after_directory(
    request: &DaemonRequest,
    a: Applicant,
    bound: Option<JsonMap>,
    found: Result<Directory, OpError>,
) -> (r: OnboardStep)
    ensures
        r@ == directory_step(request@.args, a@, opt_map(bound), outcome(found)),
{
    match found {
        Err(e) => OnboardStep::Refused(e),
        Ok(d) => match check_path(d.path.as_str(), true, d.internal) {
            Err(e) => OnboardStep::Refused(e),
            Ok(_) => {
                let title = choose_title(request, d.name.as_str());
                match bound {
                    Some(b) => OnboardStep::LoadBound(a, b, d.path, title),
                    None => {
                        let args = group_create_args(d.path.as_str(), title.as_str());
                        OnboardStep::CreateGroup(
                            a,
                            args,
                            if d.exists {
                                None
                            } else {
                                Some(d.path)
                            },
                        )
                    },
                }
            },
        },
    }
}

/// What is founded where nothing was made.
pub open spec fn nothing_founded() -> FoundedV {
    FoundedV { group: false, directory: None }
}

/// The step over the group that the conversation is bound to.
pub open spec fn loaded_bound_step(
    a: ApplicantV,
    bound: ObjV,
    path: Text,
    title: Text,
    group: Result<CardV, ErrV>,
) -> OnboardStepV {
    match group {
        Err(e) => OnboardStepV::Refused(e),
        Ok(g) => match reuse_check(g, path, title) {
            Err(e) => OnboardStepV::Refused(e),
            Ok(_) => admission_step(a, Some(bound), g, nothing_founded()),
        },
    }
}

/// The step over the group that the conversation is bound to.
pub fn after_loaded_bound(
    a: Applicant,
    bound: JsonMap,
    path: &str,
    title: &str,
    group: Result<GroupCard, OpError>,
) -> (r: OnboardStep)
    ensures
        r@ == loaded_bound_step(a@, bound@, path@, title@, outcome(group)),
{
    match group {
        Err(e) => OnboardStep::Refused(e),
        Ok(g) => match check_reuse(&g, path, title) {
            Err(e) => OnboardStep::Refused(e),
            Ok(_) => let_in(a, Some(bound), g, Founded { group: false, directory: None }),
        },
    }
}

/// The step over the answer to the creation of a group.
pub open spec fn created_step(
    a: ApplicantV,
    directory: Option<Text>,
    reply: Result<ObjV, ErrV>,
) -> OnboardStepV {
    match reply {
        Err(e) => OnboardStepV::Refused(e),
        Ok(m) => match text_field(m, "group_id"@) {
            Some(id) => OnboardStepV::LoadCreated(a, id, directory),
            None => OnboardStepV::Refused(
                refusal("group_unavailable"@, "Creation returned no group ID"@),
            ),
        },
    }
}

/// The step over the answer to the creation of a group.
pub fn after_created(
    a: Applicant,
    directory: Option<String>,
    reply: Result<JsonMap, OpError>,
) -> (r: OnboardStep)
    ensures
        r@ == created_step(a@, opt_text(directory), outcome(reply)),
{
    match reply {
        Err(e) => OnboardStep::Refused(e),
        Ok(m) => match m.text("group_id") {
            Some(id) => OnboardStep::LoadCreated(a, id.to_owned(), directory),
            None => OnboardStep::Refused(
                OpError::new("group_unavailable", "Creation returned no group ID"),
            ),
        },
    }
}

/// The step over the group that was created.
pub open spec fn loaded_created_step(
    a: ApplicantV,
    directory: Option<Text>,
    group: Result<CardV, ErrV>,
) -> OnboardStepV {
    match group {
        Err(e) => OnboardStepV::Refused(e),
        Ok(g) => admission_step(a, None, g, FoundedV { group: true, directory }),
    }
}

/// The step over the group that was created.
pub fn after_loaded_created(
    a: Applicant,
    directory: Option<String>,
    group: Result<GroupCard, OpError>,
) -> (r: OnboardStep)
    ensures
        r@ == loaded_created_step(a@, opt_text(directory), outcome(group)),
{
    match group {
        Err(e) => OnboardStep::Refused(e),
        Ok(g) => let_in(a, None, g, Founded { group: true, directory }),
    }
}

/// The step over the group that the request names.
pub open spec fn found_group_step(
    a: ApplicantV,
    bound: Option<ObjV>,
    group: Result<CardV, ErrV>,
) -> OnboardStepV {
    match group {
        Err(e) => OnboardStepV::Refused(e),
        Ok(g) => admission_step(a, bound, g, nothing_founded()),
    }
}

/// The step over the group that the request names.
pub fn after_found_group(
    a: Applicant,
    bound: Option<JsonMap>,
    group: Result<GroupCard, OpError>,
) -> (r: OnboardStep)
    ensures
        r@ == found_group_step(a@, opt_map(bound), outcome(group)),
{
    match group {
        Err(e) => OnboardStep::Refused(e),
        Ok(g) => let_in(a, bound, g, Founded { group: false, directory: None }),
    }
}

/// The step after a conversation could not be connected and what was made in the group is taken
/// back: a group that was created for it is deleted.
pub open spec fn abandoned(founded: FoundedV, group_id: Text, error: ErrV) -> OnboardStepV {
    if founded.group {
        OnboardStepV::DeleteGroup(error, group_id, founded.directory)
    } else {
        OnboardStepV::Refused(error)
    }
}

fn abandon(founded: Founded, group_id: String, error: OpError) -> (r: OnboardStep)
    ensures
        r@ == abandoned(founded@, group_id@, error@),
{
    if founded.group {
        OnboardStep::DeleteGroup(error, group_id, founded.directory)
    } else {
        OnboardStep::Refused(error)
    }
}

/// The step over a group: the connectors are asked for only where the conversation is let in.
pub open spec fn admission_step(
    a: ApplicantV,
    bound: Option<ObjV>,
    group: CardV,
    founded: FoundedV,
) -> OnboardStepV {
    match admitted(group, bound) {
        Err(e) => abandoned(founded, group.group_id, e),
        Ok(_) => OnboardStepV::Connect(a, bound, group, founded),
    }
}

fn let_in(a: Applicant, bound: Option<JsonMap>, group: GroupCard, founded: Founded) -> (r:
    OnboardStep)
    ensures
        r@ == admission_step(a@, opt_map(bound), group@, founded@),
{
    let owner = match &bound {
        Some(b) => Some(b),
        None => None,
    };
    match check_admission(&group, owner) {
        Err(e) => abandon(founded, group.group_id, e),
        Ok(_) => OnboardStep::Connect(a, bound, group, founded),
    }
}

/// The step over all connectors: the plan of the connection is made, and its actor is added where
/// it is not there. A conversation that is not let in is refused for that reason, whether or not
/// the connectors could be read.
pub open spec fn connect_step(
    a: ApplicantV,
    bound: Option<ObjV>,
    group: CardV,
    founded: FoundedV,
    entries: Result<Seq<ObjV>, ErrV>,
    now: Text,
) -> OnboardStepV {
    match entries {
        Err(e) => match admitted(group, bound) {
            Err(refused) => abandoned(founded, group.group_id, refused),
            Ok(_) => abandoned(founded, group.group_id, e),
        },
        Ok(all) => match connection(group, all, a.url, bound, now) {
            Err(e) => abandoned(founded, group.group_id, e),
            Ok(plan) => {
                let j = JoiningV {
                    session: a.session,
                    group,
                    plan,
                    founded,
                    connector_id: Seq::empty(),
                    made: None,
                };
                if plan.add_actor is Some {
                    OnboardStepV::AddActor(j)
                } else {
                    with_actor(j)
                }
            },
        },
    }
}

/// What was read of the connectors.
pub open spec fn entries_outcome(r: Result<Vec<JsonMap>, OpError>) -> Result<Seq<ObjV>, ErrV> {
    match r {
        Ok(v) => Ok(objects(v@)),
        Err(e) => Err(e@),
    }
}

/// The step over all connectors.
pub fn after_entries(
    a: Applicant,
    bound: Option<JsonMap>,
    group: GroupCard,
    founded: Founded,
    entries: Result<Vec<JsonMap>, OpError>,
    now: &str,
) -> (r: OnboardStep)
    ensures
        r@ == connect_step(
            a@,
            opt_map(bound),
            group@,
            founded@,
            entries_outcome(entries),
            now@,
        ),
{
    let url = match &a.url {
        Some(u) => Some(u.as_str()),
        None => None,
    };
    let owner = match &bound {
        Some(b) => Some(b),
        None => None,
    };
    let all = match entries {
        Err(e) => {
            let error = match check_admission(&group, owner) {
                Err(refused) => refused,
                Ok(_) => e,
            };
            return abandon(founded, group.group_id, error);
        },
        Ok(v) => v,
    };
    match connect(&group, &all, url, owner, now) {
        Err(e) => abandon(founded, group.group_id, e),
        Ok(plan) => {
            let add = plan.add_actor.is_some();
            let j = Joining {
                session: a.session,
                group,
                plan,
                founded,
                connector_id: String::new(),
                made: None,
            };
            if add {
                OnboardStep::AddActor(j)
            } else {
                proceed(j)
            }
        },
    }
}

/// The step once the actor is there: its connector is taken, or one is made.
pub open spec fn with_actor(j: JoiningV) -> OnboardStepV {
    match j.plan.connector {
        Some(c) => identified(j, c),
        None => OnboardStepV::MakeConnector(j),
    }
}

fn proceed(j: Joining) -> (r: OnboardStep)
    ensures
        r@ == with_actor(j@),
{
    let known = match &j.plan.connector {
        Some(c) => Some(c.copy()),
        None => None,
    };
    match known {
        Some(c) => identify(j, &c),
        None => OnboardStep::MakeConnector(j),
    }
}

/// The step with a connector for the conversation: the actor is started.
pub open spec fn identified(j: JoiningV, connector: ObjV) -> OnboardStepV {
    match text_field(connector, "connector_id"@) {
        None => undo(j, refusal("connector_unavailable"@, "Missing connector identity"@)),
        Some(id) => OnboardStepV::StartActor(JoiningV { connector_id: id, ..j }),
    }
}

fn identify(j: Joining, connector: &JsonMap) -> (r: OnboardStep)
    ensures
        r@ == identified(j@, connector@),
{
    match connector.text("connector_id") {
        None => take_back(j, OpError::new("connector_unavailable", "Missing connector identity")),
        Some(id) => {
            let mut k = j;
            k.connector_id = id.to_owned();
            OnboardStep::StartActor(k)
        },
    }
}

/// The step after the actor was added.
pub open spec fn actor_step(j: JoiningV, error: Option<ErrV>) -> OnboardStepV {
    match error {
        Some(e) => abandoned(j.founded, j.group.group_id, e),
        None => with_actor(j),
    }
}

/// The refusal of something done outside, if it was refused.
pub open spec fn trouble<T>(r: Result<T, OpError>) -> Option<ErrV> {
    match r {
        Ok(_) => None,
        Err(e) => Some(e@),
    }
}

/// The step after the actor was added.
pub fn after_actor(j: Joining, added: Result<(), OpError>) -> (r: OnboardStep)
    ensures
        r@ == actor_step(j@, trouble(added)),
{
    match added {
        Err(e) => abandon(j.founded, j.group.group_id, e),
        Ok(_) => proceed(j),
    }
}

/// The step after a connector was made.
pub open spec fn made_step(j: JoiningV, made: Result<ObjV, ErrV>) -> OnboardStepV {
    match made {
        Err(e) => undo(j, e),
        Ok(c) => identified(JoiningV { made: text_field(c, "connector_id"@), ..j }, c),
    }
}

/// The step after a connector was made.
pub fn after_made(j: Joining, made: Result<JsonMap, OpError>) -> (r: OnboardStep)
    ensures
        r@ == made_step(j@, outcome(made)),
{
    match made {
        Err(e) => take_back(j, e),
        Ok(c) => {
            let mut k = j;
            k.made = match c.text("connector_id") {
                Some(id) => Some(id.to_owned()),
                None => None,
            };
            identify(k, &c)
        },
    }
}

/// The step after the actor was started.
pub open spec fn started_step(j: JoiningV, error: Option<ErrV>) -> OnboardStepV {
    match error {
        Some(e) => undo(j, e),
        None => if j.plan.save_target is Some {
            OnboardStepV::SaveTarget(j)
        } else {
            ready(j)
        },
    }
}

/// The step after the actor was started.
pub fn after_started(j: Joining, started: Result<(), OpError>) -> (r: OnboardStep)
    ensures
        r@ == started_step(j@, trouble(started)),
{
    match started {
        Err(e) => take_back(j, e),
        Ok(_) => if j.plan.save_target.is_some() {
            OnboardStep::SaveTarget(j)
        } else {
            settle(j)
        },
    }
}

/// The step with everything in place: the conversation is bound, if it is not.
pub open spec fn ready(j: JoiningV) -> OnboardStepV {
    if j.plan.bind {
        OnboardStepV::Bind(j)
    } else {
        OnboardStepV::Report(j)
    }
}

fn settle(j: Joining) -> (r: OnboardStep)
    ensures
        r@ == ready(j@),
{
    if j.plan.bind {
        OnboardStep::Bind(j)
    } else {
        OnboardStep::Report(j)
    }
}

/// The step after the target was saved.
pub open spec fn saved_step(j: JoiningV, error: Option<ErrV>) -> OnboardStepV {
    match error {
        Some(e) => undo(j, e),
        None => ready(j),
    }
}

/// The step after the target was saved.
pub fn after_saved(j: Joining, saved: Result<(), OpError>) -> (r: OnboardStep)
    ensures
        r@ == saved_step(j@, trouble(saved)),
{
    match saved {
        Err(e) => take_back(j, e),
        Ok(_) => settle(j),
    }
}

/// The step after the conversation was bound.
pub open spec fn joined_step(j: JoiningV, error: Option<ErrV>) -> OnboardStepV {
    match error {
        Some(e) => undo(j, e),
        None => OnboardStepV::Report(j),
    }
}

/// The step after the conversation was bound.
pub fn after_joined(j: Joining, joined: Result<(), OpError>) -> (r: OnboardStep)
    ensures
        r@ == joined_step(j@, trouble(joined)),
{
    match joined {
        Err(e) => take_back(j, e),
        Ok(_) => OnboardStep::Report(j),
    }
}

/// What the group and the target of the actor are once the conversation is connected.
pub struct Current {
    pub group: GroupCard,
    pub target: Json,
    /// Whether the address of the target has a stable form.
    pub stable: bool,
}

/// The mathematical value of what the group and the target of the actor are.
pub struct CurrentV {
    pub group: CardV,
    pub target: JsonV,
    pub stable: bool,
}

impl View for Current {
    type V = CurrentV;

    open spec fn view(&self) -> CurrentV {
        CurrentV { group: self.group@, target: self.target@, stable: self.stable }
    }
}

/// The last step: the answer.
pub open spec fn report_step(j: JoiningV, current: Result<CurrentV, ErrV>) -> OnboardStepV {
    match current {
        Err(e) => undo(j, e),
        Ok(c) => OnboardStepV::Done(
            connected(
                c.group,
                j.plan.actor_id,
                c.target.at("kind"@) == JsonV::Str("existing_chat"@) && c.stable,
                !j.founded.group,
            ),
        ),
    }
}

/// The last step.
pub fn after_report(j: Joining, current: Result<Current, OpError>) -> (r: OnboardStep)
    ensures
        r@ == report_step(j@, outcome(current)),
{
    match current {
        Err(e) => take_back(j, e),
        Ok(c) => {
            let ready = callback_ready(&c.target, c.stable);
            OnboardStep::Done(
                connect_answer(&c.group, j.plan.actor_id.as_str(), ready, !j.founded.group),
            )
        },
    }
}

/// The step after something failed: what was made is taken back, the connector first.
pub open spec fn undo(j: JoiningV, error: ErrV) -> OnboardStepV {
    match j.made {
        Some(id) => OnboardStepV::Revoke(j, error, id),
        None => unmade(j, error, Seq::empty()),
    }
}

fn take_back(j: Joining, error: OpError) -> (r: OnboardStep)
    ensures
        r@ == undo(j@, error@),
{
    let made = match &j.made {
        Some(id) => Some(id.clone()),
        None => None,
    };
    match made {
        Some(id) => OnboardStep::Revoke(j, error, id),
        None => {
            let none: Vec<String> = Vec::new();
            proof {
                assert(texts(none@) =~= Seq::<Text>::empty());
            }
            unmake(j, error, none)
        },
    }
}

/// The step after the connector was taken back: the actor follows, if it was added.
pub open spec fn unmade(j: JoiningV, error: ErrV, failures: Seq<Text>) -> OnboardStepV {
    if j.plan.add_actor is Some {
        OnboardStepV::RemoveActor(j, error, failures)
    } else {
        abandoned(j.founded, j.group.group_id, cleaned_up(error, failures))
    }
}

fn unmake(j: Joining, error: OpError, failures: Vec<String>) -> (r: OnboardStep)
    ensures
        r@ == unmade(j@, error@, texts(failures@)),
{
    if j.plan.add_actor.is_some() {
        OnboardStep::RemoveActor(j, error, failures)
    } else {
        let e = connect_failure(error, &failures);
        abandon(j.founded, j.group.group_id, e)
    }
}

/// The failures of taking things back, with one more where there is one.
pub open spec fn with_failure(failures: Seq<Text>, failure: Option<Text>) -> Seq<Text> {
    match failure {
        Some(t) => failures.push(t),
        None => failures,
    }
}

/// The step after the connector was revoked.
pub open spec fn revoked_step(j: JoiningV, error: ErrV, failure: Option<Text>) -> OnboardStepV {
    unmade(j, error, with_failure(Seq::empty(), failure))
}

/// The step after the connector was revoked. `failure` says why it could not be.
pub fn after_revoked(j: Joining, error: OpError, failure: Option<String>) -> (r: OnboardStep)
    ensures
        r@ == revoked_step(j@, error@, opt_text(failure)),
{
    let mut failures: Vec<String> = Vec::new();
    proof {
        assert(texts(failures@) =~= Seq::<Text>::empty());
    }
    match failure {
        Some(t) => {
            let ghost x = t@;
            failures.push(t);
            proof {
                assert(texts(failures@) =~= Seq::<Text>::empty().push(x));
            }
        },
        None => {},
    }
    unmake(j, error, failures)
}

/// The step after the actor was removed.
pub open spec fn removed_step(
    j: JoiningV,
    error: ErrV,
    failures: Seq<Text>,
    failure: Option<ErrV>,
) -> OnboardStepV {
    abandoned(
        j.founded,
        j.group.group_id,
        cleaned_up(
            error,
            with_failure(
                failures,
                match failure {
                    Some(e) => Some(e.message),
                    None => None,
                },
            ),
        ),
    )
}

/// The step after the actor was removed.
pub fn after_removed(
    j: Joining,
    error: OpError,
    failures: Vec<String>,
    removed: Result<(), OpError>,
) -> (r: OnboardStep)
    ensures
        r@ == removed_step(j@, error@, texts(failures@), trouble(removed)),
{
    let mut all = failures;
    let ghost before = texts(all@);
    match removed {
        Ok(_) => {},
        Err(e) => {
            let ghost x = e.message@;
            all.push(e.message);
            proof {
                assert(texts(all@) =~= before.push(x));
            }
        },
    }
    let e = connect_failure(error, &all);
    abandon(j.founded, j.group.group_id, e)
}

/// The step after the created group was deleted: the directory follows, if it is new.
pub open spec fn deleted_step(
    error: ErrV,
    directory: Option<Text>,
    failure: Option<ErrV>,
) -> OnboardStepV {
    match failure {
        Some(e) => OnboardStepV::Refused(undone(error, Some(e.message), None)),
        None => match directory {
            Some(d) => OnboardStepV::RemoveDirectory(error, d),
            None => OnboardStepV::Refused(error),
        },
    }
}

/// The step after the created group was deleted.
pub fn after_deleted(
    error: OpError,
    directory: Option<String>,
    deleted: Result<(), OpError>,
) -> (r: OnboardStep)
    ensures
        r@ == deleted_step(error@, opt_text(directory), trouble(deleted)),
{
    match deleted {
        Err(e) => OnboardStep::Refused(onboard_failure(error, Some(e.message), None)),
        Ok(_) => match directory {
            Some(d) => OnboardStep::RemoveDirectory(error, d),
            None => OnboardStep::Refused(error),
        },
    }
}

/// The step after the new directory was removed.
pub open spec fn directory_gone_step(error: ErrV, failure: Option<Text>) -> OnboardStepV {
    OnboardStepV::Refused(undone(error, None, failure))
}

/// The step after the new directory was removed. `failure` says why it could not be.
pub fn after_directory_gone(error: OpError, failure: Option<String>) -> (r: OnboardStep)
    ensures
        r@ == directory_gone_step(error@, opt_text(failure)),
{
    OnboardStep::Refused(onboard_failure(error, None, failure))
}

/// How far an onboarding has come with a step.
pub open spec fn stage(s: OnboardStepV) -> int {
    match s {
        OnboardStepV::Normalize(_, _) => 1,
        OnboardStepV::FindBound(_) => 2,
        OnboardStepV::FindDirectory(_, _, _) => 3,
        OnboardStepV::FindGroup(_, _, _) => 3,
        OnboardStepV::LoadBound(_, _, _, _) => 4,
        OnboardStepV::CreateGroup(_, _, _) => 4,
        OnboardStepV::LoadCreated(_, _, _) => 5,
        OnboardStepV::Connect(_, _, _, _) => 6,
        OnboardStepV::AddActor(_) => 7,
        OnboardStepV::MakeConnector(_) => 8,
        OnboardStepV::StartActor(_) => 9,
        OnboardStepV::SaveTarget(_) => 10,
        OnboardStepV::Bind(_) => 11,
        OnboardStepV::Report(_) => 12,
        OnboardStepV::Revoke(_, _, _) => 13,
        OnboardStepV::RemoveActor(_, _, _) => 14,
        OnboardStepV::DeleteGroup(_, _, _) => 15,
        OnboardStepV::RemoveDirectory(_, _) => 16,
        OnboardStepV::Done(_) => 17,
        OnboardStepV::Refused(_) => 17,
    }
}

/// Every step takes an onboarding further: each thing is made at most once, the conversation is
/// bound only after its actor is started and its target is saved, and nothing is made any more once
/// things are taken back.
pub proof fn an_onboarding_moves_on(
    kind: Onboarding,
    args: ObjV,
    a: ApplicantV,
    bound: Option<ObjV>,
    absolute: bool,
    given: Text,
    stable: Option<Text>,
    found: Result<DirectoryV, ErrV>,
    group: Result<CardV, ErrV>,
    reply: Result<ObjV, ErrV>,
    j: JoiningV,
    entries: Result<Seq<ObjV>, ErrV>,
    error: Option<ErrV>,
    current: Result<CurrentV, ErrV>,
    failures: Seq<Text>,
    failure: Option<Text>,
    e: ErrV,
    now: Text,
)
    ensures
        stage(first_step(kind, args)) >= 1,
        stage(normalized_step(a.session, given, stable)) > 1,
        stage(bound_step(kind, args, a, bound, absolute)) > 2,
        stage(directory_step(args, a, bound, found)) > 3,
        stage(found_group_step(a, bound, group)) > 3,
        stage(loaded_bound_step(a, j.plan.start_actor, given, given, group)) > 4,
        stage(created_step(a, stable, reply)) > 4,
        stage(loaded_created_step(a, stable, group)) > 5,
        stage(connect_step(a, bound, j.group, j.founded, entries, now)) > 6,
        stage(actor_step(j, error)) > 7,
        stage(made_step(j, reply)) > 8,
        stage(started_step(j, error)) > 9,
        stage(saved_step(j, error)) > 10,
        stage(joined_step(j, error)) > 11,
        stage(report_step(j, current)) > 12,
        stage(revoked_step(j, e, failure)) > 13,
        stage(removed_step(j, e, failures, error)) > 14,
        stage(deleted_step(e, stable, error)) > 15,
        stage(directory_gone_step(e, failure)) > 16,
{
}

/// What was made for a conversation that could not be connected is taken back, each thing if and
/// only if it was made; where that succeeds, the answer is the error itself.
pub proof fn a_failed_onboarding_is_undone(j: JoiningV, e: ErrV)
    ensures
        undo(j, e) == match j.made {
            Some(id) => OnboardStepV::Revoke(j, e, id),
            None => revoked_step(j, e, None),
        },
        revoked_step(j, e, None) == if j.plan.add_actor is Some {
            OnboardStepV::RemoveActor(j, e, Seq::empty())
        } else {
            removed_step(j, e, Seq::empty(), None)
        },
        removed_step(j, e, Seq::empty(), None) == if j.founded.group {
            OnboardStepV::DeleteGroup(e, j.group.group_id, j.founded.directory)
        } else {
            OnboardStepV::Refused(e)
        },
        deleted_step(e, j.founded.directory, None) == match j.founded.directory {
            Some(d) => OnboardStepV::RemoveDirectory(e, d),
            None => OnboardStepV::Refused(e),
        },
        directory_gone_step(e, None) == OnboardStepV::Refused(e),
{
}

/// A conversation that is bound stays with its group: it founds no group and gets no new one.
pub proof fn a_bound_conversation_founds_nothing(
    args: ObjV,
    a: ApplicantV,
    bound: ObjV,
    found: Result<DirectoryV, ErrV>,
    group: CardV,
    founded: FoundedV,
    entries: Result<Seq<ObjV>, ErrV>,
    now: Text,
)
    ensures
        !(directory_step(args, a, Some(bound), found) is CreateGroup),
        text_field(bound, "group_id"@) != Some(group.group_id) ==> connect_step(
            a,
            Some(bound),
            group,
            founded,
            entries,
            now,
        ) == abandoned(
            founded,
            group.group_id,
            refusal("session_already_bound"@, "This conversation is bound to another group"@),
        ),
{
}

} // verus!
