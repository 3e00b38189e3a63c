//! Connecting a conversation to a group: a new group for it, or one that is there.

use crate::json::{
    alike, field, lemma_entries_domain, lemma_values, lemma_values_push, or_null, text_field,
    text_or_empty, values, Json, JsonMap, JsonV, ObjV,
};
use crate::lists::{find_first, first_match, lemma_views, lemma_views_push, select, views};
use crate::model::{
    outcome, refusal, required_arg, required_text, ActorRuntime, DaemonRequest, ErrV, OpError,
};
use crate::paths::{is_same_path, same_path};
use crate::text::{
    blank, is_blank, join, joined, opt_str, opt_text, starts_with, str_eq, texts, trim, trimmed,
    has_prefix, Text,
};
use vstd::prelude::*;
use vstd::string::*;

verus! {

broadcast use {lemma_views, lemma_views_push};

/// Which onboarding a request asks for: a new group, or one that is there.
#[derive(PartialEq, Eq, Structural, Clone, Copy, Debug)]
pub enum Onboarding {
    Create,
    Bind,
}

/// Which onboarding a request asks for; none where it asks for something else.
pub fn handle(request: &DaemonRequest) -> (r: Option<Onboarding>)
    ensures
        r == if request@.op == "web_model_chat_create"@ {
            Some(Onboarding::Create)
        } else if request@.op == "web_model_chat_bind"@ {
            Some(Onboarding::Bind)
        } else {
            None
        },
{
    if str_eq(request.op.as_str(), "web_model_chat_create") {
        Some(Onboarding::Create)
    } else if str_eq(request.op.as_str(), "web_model_chat_bind") {
        Some(Onboarding::Bind)
    } else {
        None
    }
}

/// Whether an argument is documented for an onboarding.
pub open spec fn is_documented(kind: Onboarding, key: Text) -> bool {
    key == "by"@ || key == "session"@ || key == "chat_url"@ || (kind == Onboarding::Create && (key
        == "path"@ || key == "title"@)) || (kind == Onboarding::Bind && key == "group"@)
}

/// Whether all arguments are documented strings.
pub open spec fn only_documented(kind: Onboarding, args: ObjV) -> bool {
    forall|k: Text| #[trigger]
        args.contains_key(k) ==> is_documented(kind, k) && args[k].text() is Some
}

fn documented(kind: Onboarding, key: &str) -> (r: bool)
    ensures
        r == is_documented(kind, key@),
{
    str_eq(key, "by") || str_eq(key, "session") || str_eq(key, "chat_url") || (kind
        == Onboarding::Create && (str_eq(key, "path") || str_eq(key, "title"))) || (kind
        == Onboarding::Bind && str_eq(key, "group"))
}

fn all_documented(kind: Onboarding, args: &JsonMap) -> (r: bool)
    ensures
        r == only_documented(kind, args@),
{
    let mut i: usize = 0;
    while i < args.entries.len()
        invariant
            i <= args.entries@.len(),
            forall|j: int|
                0 <= j < i ==> is_documented(kind, (#[trigger] args.entries@[j]).0@)
                    && args@.contains_key(args.entries@[j].0@) && args@[args.entries@[j].0@].text() is Some,
        decreases args.entries@.len() - i,
    {
        let key = args.entries[i].0.as_str();
        proof {
            lemma_entries_domain(args.entries@, key@);
            assert(args.entries@[i as int].0@ == key@);
            assert(args@.contains_key(key@));
        }
        let fine = match args.get(key) {
            Some(v) => v.as_str().is_some(),
            None => false,
        };
        if !documented(kind, key) || !fine {
            return false;
        }
        i += 1;
    }
    proof {
        assert forall|k: Text| #[trigger] args@.contains_key(k) implies is_documented(kind, k)
            && args@[k].text() is Some by {
            lemma_entries_domain(args.entries@, k);
        }
    }
    true
}

/// The conversation that asks to be connected: its identity, and its address as given, trimmed;
/// empty where none is given. The request must come from the control plane and hold nothing but
/// documented strings.
pub open spec fn applicant(kind: Onboarding, args: ObjV) -> Result<(Text, Text), ErrV> {
    if text_field(args, "by"@) != Some("user"@) {
        Err(
            refusal(
                "permission_denied"@,
                "Chat onboarding requires the trusted gateway control plane"@,
            ),
        )
    } else {
        match required_text(args, "session"@) {
            Err(e) => Err(e),
            Ok(session) => if !only_documented(kind, args) {
                Err(
                    refusal(
                        "invalid_request"@,
                        "Only documented string arguments are accepted"@,
                    ),
                )
            } else {
                Ok((session, trimmed(text_or_empty(args, "chat_url"@))))
            },
        }
    }
}

/// The conversation that asks to be connected.
pub fn read_applicant(kind: Onboarding, request: &DaemonRequest) -> (r: Result<
    (String, String),
    OpError,
>)
    ensures
        match r {
            Ok((s, u)) => applicant(kind, request@.args) == Ok::<(Text, Text), ErrV>((s@, u@)),
            Err(e) => applicant(kind, request@.args) == Err::<(Text, Text), ErrV>(e@),
        },
{
    if !request.args.is("by", "user") {
        return Err(
            OpError::new(
                "permission_denied",
                "Chat onboarding requires the trusted gateway control plane",
            ),
        );
    }
    let session = required_arg(request, "session")?;
    if !all_documented(kind, &request.args) {
        return Err(
            OpError::new("invalid_request", "Only documented string arguments are accepted"),
        );
    }
    let url = request.args.text_or_empty("chat_url");
    Ok((session, trim(url.as_str())))
}

/// The stable address of a conversation: none where none is given; one that is given must be one.
pub open spec fn stable_url(given: Text, stable: Option<Text>) -> Result<Option<Text>, ErrV> {
    if given.len() == 0 {
        Ok(None)
    } else {
        match stable {
            Some(u) => Ok(Some(u)),
            None => Err(
                refusal(
                    "invalid_chat_url"@,
                    "Use this ChatGPT conversation's stable https://chatgpt.com/c/... URL"@,
                ),
            ),
        }
    }
}

/// The stable address of a conversation. `stable` is what the given address comes to, if it is a
/// conversation's.
pub fn read_chat_url(given: &str, stable: Option<String>) -> (r: Result<Option<String>, OpError>)
    ensures
        match r {
            Ok(u) => stable_url(given@, opt_text(stable)) == Ok::<Option<Text>, ErrV>(
                opt_text(u),
            ),
            Err(e) => stable_url(given@, opt_text(stable)) == Err::<Option<Text>, ErrV>(e@),
        },
{
    if given.is_empty() {
        return Ok(None);
    }
    match stable {
        Some(u) => Ok(Some(u)),
        None => Err(
            OpError::new(
                "invalid_chat_url",
                "Use this ChatGPT conversation's stable https://chatgpt.com/c/... URL",
            ),
        ),
    }
}

/// The check of the directory for a new group: it is given absolutely, or below the user's own,
/// and does not lie in the internal data.
pub open spec fn path_check(raw: Text, absolute: bool, internal: bool) -> Result<(), ErrV> {
    if !absolute && !has_prefix(raw, "~/"@) {
        Err(refusal("invalid_scope_path"@, "Use an absolute project directory"@))
    } else if internal {
        Err(
            refusal(
                "invalid_scope_path"@,
                "Choose a project directory outside CCCC's internal data directory"@,
            ),
        )
    } else {
        Ok(())
    }
}

/// Checks the directory for a new group. `absolute` says whether it is given absolutely,
/// `internal` whether it lies in the internal data once it is resolved.
pub fn check_path(raw: &str, absolute: bool, internal: bool) -> (r: Result<(), OpError>)
    ensures
        crate::model::check_outcome(r) == path_check(raw@, absolute, internal),
{
    if !(absolute || starts_with(raw, "~/")) {
        return Err(OpError::new("invalid_scope_path", "Use an absolute project directory"));
    }
    if internal {
        return Err(
            OpError::new(
                "invalid_scope_path",
                "Choose a project directory outside CCCC's internal data directory",
            ),
        );
    }
    Ok(())
}

/// The title of a new group: the one given, trimmed, else the name of its directory.
pub open spec fn title_of(args: ObjV, directory: Text) -> Text {
    match text_field(args, "title"@) {
        Some(t) => if is_blank(t) {
            directory
        } else {
            trimmed(t)
        },
        None => directory,
    }
}

/// The title of a new group.
pub fn choose_title(request: &DaemonRequest, directory: &str) -> (r: String)
    ensures
        r@ == title_of(request@.args, directory@),
{
    if let Some(t) = request.args.text("title") {
        if !blank(t) {
            return trim(t);
        }
    }
    directory.to_owned()
}

/// A project directory of a group.
pub struct ScopeEntry {
    pub key: String,
    pub url: String,
}

/// The mathematical value of a project directory.
pub struct ScopeEntryV {
    pub key: Text,
    pub url: Text,
}

impl View for ScopeEntry {
    type V = ScopeEntryV;

    open spec fn view(&self) -> ScopeEntryV {
        ScopeEntryV { key: self.key@, url: self.url@ }
    }
}

/// A member of a group as onboarding sees it. The runtime and the role are given as documents,
/// the way they are shown.
pub struct Member {
    pub id: String,
    pub title: String,
    pub runtime: ActorRuntime,
    pub shown_runtime: Json,
    pub shown_role: Json,
    pub visible: bool,
}

/// The mathematical value of a member.
pub struct MemberV {
    pub id: Text,
    pub title: Text,
    pub runtime: ActorRuntime,
    pub shown_runtime: JsonV,
    pub shown_role: JsonV,
    pub visible: bool,
}

impl View for Member {
    type V = MemberV;

    open spec fn view(&self) -> MemberV {
        MemberV {
            id: self.id@,
            title: self.title@,
            runtime: self.runtime,
            shown_runtime: self.shown_runtime@,
            shown_role: self.shown_role@,
            visible: self.visible,
        }
    }
}

impl Member {
    fn copy(&self) -> (r: Member)
        ensures
            r@ == self@,
    {
        Member {
            id: self.id.clone(),
            title: self.title.clone(),
            runtime: self.runtime,
            shown_runtime: self.shown_runtime.copy(),
            shown_role: self.shown_role.copy(),
            visible: self.visible,
        }
    }
}

/// A group as onboarding sees it.
pub struct GroupCard {
    pub group_id: String,
    pub title: String,
    pub scopes: Vec<ScopeEntry>,
    pub active_scope_key: String,
    pub members: Vec<Member>,
}

/// The mathematical value of a group as onboarding sees it.
pub struct CardV {
    pub group_id: Text,
    pub title: Text,
    pub scopes: Seq<ScopeEntryV>,
    pub active_scope_key: Text,
    pub members: Seq<MemberV>,
}

impl View for GroupCard {
    type V = CardV;

    open spec fn view(&self) -> CardV {
        CardV {
            group_id: self.group_id@,
            title: self.title@,
            scopes: views(self.scopes@),
            active_scope_key: self.active_scope_key@,
            members: views(self.members@),
        }
    }
}

/// The directory that a group works in.
pub open spec fn workspace_of(g: CardV) -> Option<Text> {
    match first_match(g.scopes, |s: ScopeEntryV| s.key == g.active_scope_key) {
        Some(s) => Some(s.url),
        None => None,
    }
}

/// The directory that a group works in.
pub fn workspace(group: &GroupCard) -> (r: Option<String>)
    ensures
        opt_text(r) == workspace_of(group@),
{
    let ghost sp = |s: ScopeEntryV| s.key == group@.active_scope_key;
    let found = find_first(
        &group.scopes,
        |s: &ScopeEntry| -> (b: bool)
            ensures (b == (s@.key == group@.active_scope_key))
        {
            str_eq(s.key.as_str(), group.active_scope_key.as_str())
        },
        Ghost(sp),
    );
    match found {
        Some(s) => Some(s.url.clone()),
        None => None,
    }
}

/// A group in the list of all groups.
pub struct GroupMeta {
    pub group_id: String,
    pub title: String,
}

/// The mathematical value of a group in the list of all groups.
pub struct MetaV {
    pub group_id: Text,
    pub title: Text,
}

impl View for GroupMeta {
    type V = MetaV;

    open spec fn view(&self) -> MetaV {
        MetaV { group_id: self.group_id@, title: self.title@ }
    }
}

/// Whether a group has this very name, spaces around it aside.
pub open spec fn is_named(m: MetaV, token: Text) -> bool {
    trimmed(m.title) == token
}

/// The one group with a name, where no group has it as its id.
pub open spec fn group_named(groups: Seq<MetaV>, token: Text) -> Result<Text, ErrV> {
    let all = groups.filter(|m: MetaV| is_named(m, token));
    if all.len() == 1 {
        Ok(all[0].group_id)
    } else if all.len() == 0 {
        Err(
            refusal(
                "group_not_found"@,
                "Use an exact group ID or a unique complete group name"@,
            ),
        )
    } else {
        Err(refusal("ambiguous_group"@, "Use the exact group ID"@))
    }
}

/// The group that a token names: the one with that id, where `known` says that there is one, else
/// the one group with that name.
pub fn exact_group(known: bool, groups: &Vec<GroupMeta>, token: &str) -> (r: Result<
    String,
    OpError,
>)
    ensures
        outcome(r) == if known {
            Ok::<Text, ErrV>(token@)
        } else {
            group_named(views(groups@), token@)
        },
{
    if known {
        return Ok(token.to_owned());
    }
    let ghost sp = |m: MetaV| is_named(m, token@);
    let all = select(
        groups,
        |m: &GroupMeta| -> (b: bool)
            ensures (b == is_named(m@, token@))
        {
            let t = trim(m.title.as_str());
            str_eq(t.as_str(), token)
        },
        |m: &GroupMeta| -> (c: GroupMeta)
            ensures (c@ == m@)
        {
            GroupMeta { group_id: m.group_id.clone(), title: m.title.clone() }
        },
        Ghost(sp),
    );
    if all.len() == 1 {
        return Ok(all[0].group_id.clone());
    }
    if all.len() == 0 {
        return Err(
            OpError::new(
                "group_not_found",
                "Use an exact group ID or a unique complete group name",
            ),
        );
    }
    Err(OpError::new("ambiguous_group", "Use the exact group ID"))
}

/// The check of a conversation that is bound and asks for a new group: the group that it is bound
/// to must be the one it asks for.
pub open spec fn reuse_check(g: CardV, path: Text, title: Text) -> Result<(), ErrV> {
    if workspace_of(g) matches Some(w) && is_same_path(w, path) && g.title == title {
        Ok(())
    } else {
        Err(
            refusal(
                "session_already_bound"@,
                "This Chat already belongs to another group; use its existing group"@,
            ),
        )
    }
}

/// Checks a conversation that is bound and asks for a new group.
pub fn check_reuse(group: &GroupCard, path: &str, title: &str) -> (r: Result<(), OpError>)
    ensures
        crate::model::check_outcome(r) == reuse_check(group@, path@, title@),
{
    let same = match workspace(group) {
        Some(w) => same_path(w.as_str(), path),
        None => false,
    };
    if same && str_eq(group.title.as_str(), title) {
        Ok(())
    } else {
        Err(
            OpError::new(
                "session_already_bound",
                "This Chat already belongs to another group; use its existing group",
            ),
        )
    }
}

/// The request that creates a group for a directory.
pub open spec fn create_args(path: Text, title: Text) -> ObjV {
    map![
        "path"@ => JsonV::Str(path),
        "title"@ => JsonV::Str(title),
        "by"@ => JsonV::Str("user"@),
        "set_active"@ => JsonV::Bool(false),
    ]
}

/// The request that creates a group for a directory.
pub fn group_create_args(path: &str, title: &str) -> (r: JsonMap)
    ensures
        r@ == create_args(path@, title@),
{
    let mut m = JsonMap::new();
    m.put("path", Json::str(path));
    m.put("title", Json::str(title));
    m.put("by", Json::str("user"));
    m.put("set_active", Json::Bool(false));
    m
}

/// How a conversation is connected to a group: its member, whether that member and a connector
/// are made first, the target that is saved, and whether the conversation is bound.
pub struct ConnectPlan {
    pub actor_id: String,
    pub add_actor: Option<JsonMap>,
    pub connector: Option<JsonMap>,
    pub label: String,
    pub start_actor: JsonMap,
    pub save_target: Option<JsonMap>,
    pub bind: bool,
}

/// The mathematical value of how a conversation is connected.
pub struct ConnectPlanV {
    pub actor_id: Text,
    pub add_actor: Option<ObjV>,
    pub connector: Option<ObjV>,
    pub label: Text,
    pub start_actor: ObjV,
    pub save_target: Option<ObjV>,
    pub bind: bool,
}

/// The value of an optional object.
pub open spec fn opt_map(o: Option<JsonMap>) -> Option<ObjV> {
    match o {
        Some(m) => Some(m@),
        None => None,
    }
}

impl View for ConnectPlan {
    type V = ConnectPlanV;

    open spec fn view(&self) -> ConnectPlanV {
        ConnectPlanV {
            actor_id: self.actor_id@,
            add_actor: opt_map(self.add_actor),
            connector: opt_map(self.connector),
            label: self.label@,
            start_actor: self.start_actor@,
            save_target: opt_map(self.save_target),
            bind: self.bind,
        }
    }
}

/// The member that a conversation speaks as: the one it is bound to, else the first visible one.
pub open spec fn member_for(g: CardV, bound: Option<ObjV>) -> Result<Option<MemberV>, ErrV> {
    match bound {
        Some(b) => match first_match(
            g.members,
            |m: MemberV| m.id == text_or_empty(b, "actor_id"@),
        ) {
            Some(m) => Ok(Some(m)),
            None => Err(
                refusal("connector_actor_unavailable"@, "The bound member no longer exists"@),
            ),
        },
        None => Ok(first_match(g.members, |m: MemberV| m.visible)),
    }
}

/// Whether a connector is in use for an actor.
pub open spec fn in_use(entry: ObjV, group_id: Text, actor_id: Text) -> bool {
    &&& text_field(entry, "group_id"@) == Some(group_id)
    &&& text_field(entry, "actor_id"@) == Some(actor_id)
    &&& field(entry, "revoked"@) != Some(JsonV::Bool(true))
}

/// The connector in use for an actor.
pub open spec fn connector_for(entries: Seq<ObjV>, group_id: Text, actor_id: Text) -> Option<ObjV> {
    first_match(entries, |e: ObjV| in_use(e, group_id, actor_id))
}

/// Whether the conversation is already bound to the connector.
pub open spec fn is_own(existing: Option<ObjV>, bound: Option<ObjV>) -> bool {
    match (existing, bound) {
        (Some(e), Some(b)) => alike(
            or_null(field(e, "connector_id"@)),
            or_null(field(b, "connector_id"@)),
        ),
        _ => false,
    }
}

/// The request that adds the web foreman of a group.
pub open spec fn add_args(group_id: Text, actor_id: Text) -> ObjV {
    map![
        "group_id"@ => JsonV::Str(group_id),
        "actor_id"@ => JsonV::Str(actor_id),
        "title"@ => JsonV::Str("ChatGPT Foreman"@),
        "runtime"@ => JsonV::Str("web_model"@),
        "by"@ => JsonV::Str("user"@),
        "env"@ => JsonV::Obj(
            map![
                "CCCC_WEB_MODEL_PROVIDER"@ => JsonV::Str("chatgpt"@),
                "CCCC_WEB_MODEL_DELIVERY_MODE"@ => JsonV::Str("browser"@),
            ],
        ),
    ]
}

/// The request that starts an actor, or removes one.
pub open spec fn actor_args(group_id: Text, actor_id: Text) -> ObjV {
    map![
        "group_id"@ => JsonV::Str(group_id),
        "actor_id"@ => JsonV::Str(actor_id),
        "by"@ => JsonV::Str("user"@),
    ]
}

/// The target of an actor whose conversation has an address.
pub open spec fn target_for(url: Text, now: Text) -> ObjV {
    map![
        "kind"@ => JsonV::Str("existing_chat"@),
        "state"@ => JsonV::Str("bound_existing_chat"@),
        "url"@ => JsonV::Str(url),
        "saved_at"@ => JsonV::Str(now),
        "next_delivery"@ => JsonV::Str("existing_chat"@),
    ]
}

/// The member that a conversation speaks for in a group, none where it is to be added, or why the
/// conversation is not let in: it belongs to another group, the group has no directory, its member
/// is gone, or the group has a local foreman.
pub open spec fn admitted(g: CardV, bound: Option<ObjV>) -> Result<Option<MemberV>, ErrV> {
    if bound matches Some(b) && text_field(b, "group_id"@) != Some(g.group_id) {
        Err(refusal("session_already_bound"@, "This conversation is bound to another group"@))
    } else if workspace_of(g) is None {
        Err(refusal("workspace_required"@, "Attach a project directory to this group first"@))
    } else {
        match member_for(g, bound) {
            Err(e) => Err(e),
            Ok(member) => if member matches Some(m) && m.runtime != ActorRuntime::WebModel {
                Err(
                    refusal(
                        "foreman_conflict"@,
                        "This group already has a local Foreman; change it explicitly in the group interface"@,
                    ),
                )
            } else {
                Ok(member)
            },
        }
    }
}

/// How a conversation is connected to a group, or why not: one that is not let in, and a group of
/// another conversation, are left alone.
pub open spec fn connection(
    g: CardV,
    entries: Seq<ObjV>,
    url: Option<Text>,
    bound: Option<ObjV>,
    now: Text,
) -> Result<ConnectPlanV, ErrV> {
    match admitted(g, bound) {
        Err(e) => Err(e),
        Ok(member) => {
            let actor_id = match member {
                Some(m) => m.id,
                None => "chat-foreman"@,
            };
            let existing = connector_for(entries, g.group_id, actor_id);
            let own = is_own(existing, bound);
            if !own && (existing matches Some(e) && text_or_empty(e, "session_hash"@).len() > 0) {
                Err(
                    refusal(
                        "group_already_bound"@,
                        "This group belongs to another Chat. Use a freshly issued connection code to replace that binding"@,
                    ),
                )
            } else {
                Ok(
                    ConnectPlanV {
                        actor_id,
                        add_actor: if member is None {
                            Some(add_args(g.group_id, actor_id))
                        } else {
                            None
                        },
                        connector: existing,
                        label: match member {
                            Some(m) => m.title,
                            None => "ChatGPT Foreman"@,
                        },
                        start_actor: actor_args(g.group_id, actor_id),
                        save_target: match url {
                            Some(u) => Some(target_for(u, now)),
                            None => None,
                        },
                        bind: !own,
                    },
                )
            }
        },
    }
}

/// What is known of the member.
pub open spec fn member_outcome(r: Result<Option<Member>, OpError>) -> Result<
    Option<MemberV>,
    ErrV,
> {
    match r {
        Ok(Some(m)) => Ok(Some(m@)),
        Ok(None) => Ok(None),
        Err(e) => Err(e@),
    }
}

fn find_member(group: &GroupCard, bound: Option<&JsonMap>) -> (r: Result<Option<Member>, OpError>)
    ensures
        member_outcome(r) == member_for(group@, crate::json::opt_obj(bound)),
{
    match bound {
        Some(b) => {
            let id = b.text_or_empty("actor_id");
            let ghost sp = |m: MemberV| m.id == text_or_empty(b@, "actor_id"@);
            let found = find_first(
                &group.members,
                |m: &Member| -> (x: bool)
                    ensures (x == (m@.id == text_or_empty(b@, "actor_id"@)))
                {
                    str_eq(m.id.as_str(), id.as_str())
                },
                Ghost(sp),
            );
            match found {
                Some(m) => Ok(Some(m.copy())),
                None => Err(
                    OpError::new(
                        "connector_actor_unavailable",
                        "The bound member no longer exists",
                    ),
                ),
            }
        },
        None => {
            let ghost sp = |m: MemberV| m.visible;
            let found = find_first(
                &group.members,
                |m: &Member| -> (x: bool)
                    ensures (x == m@.visible)
                {
                    m.visible
                },
                Ghost(sp),
            );
            match found {
                Some(m) => Ok(Some(m.copy())),
                None => Ok(None),
            }
        },
    }
}

fn is_true_flag(m: &JsonMap, key: &str) -> (r: bool)
    ensures
        r == (field(m@, key@) == Some(JsonV::Bool(true))),
{
    match m.get(key) {
        Some(v) => match v {
            Json::Bool(b) => *b,
            _ => false,
        },
        None => false,
    }
}

fn find_connector(entries: &Vec<JsonMap>, group_id: &str, actor_id: &str) -> (r: Option<JsonMap>)
    ensures
        opt_map(r) == connector_for(crate::json::objects(entries@), group_id@, actor_id@),
{
    let ghost sp = |e: ObjV| in_use(e, group_id@, actor_id@);
    let found = find_first(
        entries,
        |e: &JsonMap| -> (b: bool)
            ensures (b == in_use(e@, group_id@, actor_id@))
        {
            e.is("group_id", group_id) && e.is("actor_id", actor_id) && !is_true_flag(e, "revoked")
        },
        Ghost(sp),
    );
    match found {
        Some(e) => Some(e.copy()),
        None => None,
    }
}

fn add_args_of(group_id: &str, actor_id: &str) -> (r: JsonMap)
    ensures
        r@ == add_args(group_id@, actor_id@),
{
    let mut env = JsonMap::new();
    env.put("CCCC_WEB_MODEL_PROVIDER", Json::str("chatgpt"));
    env.put("CCCC_WEB_MODEL_DELIVERY_MODE", Json::str("browser"));
    let mut m = JsonMap::new();
    m.put("group_id", Json::str(group_id));
    m.put("actor_id", Json::str(actor_id));
    m.put("title", Json::str("ChatGPT Foreman"));
    m.put("runtime", Json::str("web_model"));
    m.put("by", Json::str("user"));
    m.put("env", Json::Obj(env));
    m
}

/// The request that starts an actor, or removes one.
pub fn actor_request(group_id: &str, actor_id: &str) -> (r: JsonMap)
    ensures
        r@ == actor_args(group_id@, actor_id@),
{
    let mut m = JsonMap::new();
    m.put("group_id", Json::str(group_id));
    m.put("actor_id", Json::str(actor_id));
    m.put("by", Json::str("user"));
    m
}

fn target_of(url: &str, now: &str) -> (r: JsonMap)
    ensures
        r@ == target_for(url@, now@),
{
    let mut m = JsonMap::new();
    m.put("kind", Json::str("existing_chat"));
    m.put("state", Json::str("bound_existing_chat"));
    m.put("url", Json::str(url));
    m.put("saved_at", Json::str(now));
    m.put("next_delivery", Json::str("existing_chat"));
    m
}

/// The member that a conversation speaks for in a group, none where it is to be added, or why the
/// conversation is not let in.
pub fn check_admission(group: &GroupCard, bound: Option<&JsonMap>) -> (r: Result<
    Option<Member>,
    OpError,
>)
    ensures
        member_outcome(r) == admitted(group@, crate::json::opt_obj(bound)),
{
    if let Some(b) = bound {
        if !b.is("group_id", group.group_id.as_str()) {
            return Err(
                OpError::new(
                    "session_already_bound",
                    "This conversation is bound to another group",
                ),
            );
        }
    }
    if workspace(group).is_none() {
        return Err(
            OpError::new("workspace_required", "Attach a project directory to this group first"),
        );
    }
    let member = find_member(group, bound)?;
    if let Some(m) = &member {
        if m.runtime != ActorRuntime::WebModel {
            return Err(
                OpError::new(
                    "foreman_conflict",
                    "This group already has a local Foreman; change it explicitly in the group interface",
                ),
            );
        }
    }
    Ok(member)
}

/// How a conversation is connected to a group, or why not. `entries` are the connectors; `bound`
/// is the one that the conversation is bound to, if any.
pub fn connect(
    group: &GroupCard,
    entries: &Vec<JsonMap>,
    url: Option<&str>,
    bound: Option<&JsonMap>,
    now: &str,
) -> (r: Result<ConnectPlan, OpError>)
    ensures
        outcome(r) == connection(
            group@,
            crate::json::objects(entries@),
            opt_str(url),
            crate::json::opt_obj(bound),
            now@,
        ),
{
    let member = check_admission(group, bound)?;
    let (actor_id, label, fresh) = match &member {
        Some(m) => (m.id.clone(), m.title.clone(), false),
        None => ("chat-foreman".to_owned(), "ChatGPT Foreman".to_owned(), true),
    };
    let existing = find_connector(entries, group.group_id.as_str(), actor_id.as_str());
    let mut own = false;
    let mut taken = false;
    if let Some(e) = &existing {
        if let Some(b) = bound {
            let mine = e.copy_or_null("connector_id");
            let known = b.copy_or_null("connector_id");
            own = mine.same(&known);
        }
        let hash = e.text_or_empty("session_hash");
        taken = !hash.as_str().is_empty();
    }
    if !own && taken {
        return Err(
            OpError::new(
                "group_already_bound",
                "This group belongs to another Chat. Use a freshly issued connection code to replace that binding",
            ),
        );
    }
    let group_id = group.group_id.as_str();
    let add_actor = if fresh {
        Some(add_args_of(group_id, actor_id.as_str()))
    } else {
        None
    };
    let save_target = match url {
        Some(u) => Some(target_of(u, now)),
        None => None,
    };
    let start_actor = actor_request(group_id, actor_id.as_str());
    Ok(
        ConnectPlan {
            actor_id,
            add_actor,
            connector: existing,
            label,
            start_actor,
            save_target,
            bind: !own,
        },
    )
}

/// A member as the answer shows it.
pub open spec fn shown_member(m: MemberV) -> JsonV {
    JsonV::Obj(
        map![
            "actor_id"@ => JsonV::Str(m.id),
            "title"@ => JsonV::Str(m.title),
            "runtime"@ => m.shown_runtime,
            "role"@ => m.shown_role,
        ],
    )
}

/// The visible members as the answer shows them.
pub open spec fn shown_members(g: CardV) -> Seq<JsonV> {
    g.members.filter(|m: MemberV| m.visible).map_values(|m: MemberV| shown_member(m))
}

/// The role of an actor as it is shown; null where it is not in the group.
pub open spec fn role_of(g: CardV, actor_id: Text) -> JsonV {
    match first_match(g.members, |m: MemberV| m.id == actor_id) {
        Some(m) => m.shown_role,
        None => JsonV::Null,
    }
}

/// The answer to a conversation that was connected. `ready` says whether messages can be brought
/// back to it.
pub open spec fn connected(g: CardV, actor_id: Text, ready: bool, reused: bool) -> ObjV {
    map![
        "group_id"@ => JsonV::Str(g.group_id),
        "group_title"@ => JsonV::Str(g.title),
        "actor_id"@ => JsonV::Str(actor_id),
        "role"@ => role_of(g, actor_id),
        "workspace"@ => match workspace_of(g) {
            Some(w) => JsonV::Str(w),
            None => JsonV::Null,
        },
        "inbound_bound"@ => JsonV::Bool(true),
        "can_dispatch"@ => JsonV::Bool(true),
        "callback_target_ready"@ => JsonV::Bool(ready),
        "status"@ => JsonV::Str(
            if ready {
                "configured"@
            } else {
                "needs_chat_url"@
            },
        ),
        "reused"@ => JsonV::Bool(reused),
        "members"@ => JsonV::Arr(shown_members(g)),
        "next_steps"@ => JsonV::Arr(
            seq![
                JsonV::Str(
                    if ready {
                        "Call cccc_bootstrap. The callback target is saved; browser sign-in and an actual delivery still need verification."@
                    } else {
                        "Call cccc_bootstrap to work with this group. Supply this Chat's stable /c/... URL to cccc_group_bind before expecting browser return messages."@
                    },
                ),
            ],
        ),
    ]
}

/// Whether messages can be brought back to a conversation. `stable` says whether the address of
/// the target is a conversation's.
pub fn callback_ready(target: &Json, stable: bool) -> (r: bool)
    ensures
        r == (target@.at("kind"@) == JsonV::Str("existing_chat"@) && stable),
{
    target.is("kind", "existing_chat") && stable
}

fn members_of(group: &GroupCard) -> (r: Vec<Json>)
    ensures
        values(r@) == shown_members(group@),
{
    let ghost sp = |m: MemberV| m.visible;
    let all = select(
        &group.members,
        |m: &Member| -> (b: bool)
            ensures (b == m@.visible)
        {
            m.visible
        },
        |m: &Member| -> (c: Member)
            ensures (c@ == m@)
        {
            m.copy()
        },
        Ghost(sp),
    );
    let mut r: Vec<Json> = Vec::new();
    let mut i: usize = 0;
    proof {
        lemma_values(r@);
    }
    while i < all.len()
        invariant
            i <= all@.len(),
            values(r@).len() == i,
            forall|j: int| 0 <= j < i ==> #[trigger] values(r@)[j] == shown_member(all@[j]@),
        decreases all@.len() - i,
    {
        let m = &all[i];
        let mut o = JsonMap::new();
        o.put("actor_id", Json::str(m.id.as_str()));
        o.put("title", Json::str(m.title.as_str()));
        o.put("runtime", m.shown_runtime.copy());
        o.put("role", m.shown_role.copy());
        let x = Json::Obj(o);
        proof {
            lemma_values_push(r@, x);
        }
        r.push(x);
        i += 1;
    }
    proof {
        assert(values(r@) =~= shown_members(group@));
    }
    r
}

/// The answer to a conversation that was connected.
pub fn connect_answer(group: &GroupCard, actor_id: &str, ready: bool, reused: bool) -> (r: JsonMap)
    ensures
        r@ == connected(group@, actor_id@, ready, reused),
{
    let ghost sp = |m: MemberV| m.id == actor_id@;
    let found = find_first(
        &group.members,
        |m: &Member| -> (b: bool)
            ensures (b == (m@.id == actor_id@))
        {
            str_eq(m.id.as_str(), actor_id)
        },
        Ghost(sp),
    );
    let role = match found {
        Some(m) => m.shown_role.copy(),
        None => Json::Null,
    };
    let place = match workspace(group) {
        Some(w) => Json::Str(w),
        None => Json::Null,
    };
    let members = members_of(group);
    let mut m = JsonMap::new();
    m.put("group_id", Json::str(group.group_id.as_str()));
    m.put("group_title", Json::str(group.title.as_str()));
    m.put("actor_id", Json::str(actor_id));
    m.put("role", role);
    m.put("workspace", place);
    m.put("inbound_bound", Json::Bool(true));
    m.put("can_dispatch", Json::Bool(true));
    m.put("callback_target_ready", Json::Bool(ready));
    m.put(
        "status",
        Json::str(
            if ready {
                "configured"
            } else {
                "needs_chat_url"
            },
        ),
    );
    m.put("reused", Json::Bool(reused));
    m.put("members", Json::Arr(members));
    m.put(
        "next_steps",
        crate::relay::decide::one_text(
            if ready {
                "Call cccc_bootstrap. The callback target is saved; browser sign-in and an actual delivery still need verification."
            } else {
                "Call cccc_bootstrap to work with this group. Supply this Chat's stable /c/... URL to cccc_group_bind before expecting browser return messages."
            },
        ),
    );
    m
}

/// The refusal of a connection after what it had made was taken back: the first error, with the
/// failures of the clean-up behind it, if there were any.
pub open spec fn cleaned_up(error: ErrV, failures: Seq<Text>) -> ErrV {
    if failures.len() == 0 {
        error
    } else {
        refusal(
            "onboarding_cleanup_failed"@,
            error.message + "; "@ + joined(failures, "; "@),
        )
    }
}

/// The refusal of a connection after what it had made was taken back.
pub fn connect_failure(error: OpError, failures: &Vec<String>) -> (r: OpError)
    ensures
        r@ == cleaned_up(error@, texts(failures@)),
{
    if failures.len() == 0 {
        return error;
    }
    let all = join(failures, "; ");
    let mut m = error.message.clone();
    m.append("; ");
    m.append(all.as_str());
    OpError::new("onboarding_cleanup_failed", m.as_str())
}

/// The refusal of an onboarding whose incomplete group could not be removed, or whose new
/// directory could not.
pub open spec fn undone(error: ErrV, group: Option<Text>, directory: Option<Text>) -> ErrV {
    match group {
        Some(g) => refusal(
            "onboarding_cleanup_failed"@,
            error.message + "; could not remove incomplete group: "@ + g,
        ),
        None => match directory {
            Some(d) => refusal(
                "onboarding_cleanup_failed"@,
                error.message + "; could not remove newly created empty directory: "@ + d,
            ),
            None => error,
        },
    }
}

/// The refusal of an onboarding. `group` and `directory` are the failures of removing the group
/// and the directory that it had made.
pub fn onboard_failure(error: OpError, group: Option<String>, directory: Option<String>) -> (r:
    OpError)
    ensures
        r@ == undone(error@, opt_text(group), opt_text(directory)),
{
    match group {
        Some(g) => {
            let mut m = error.message.clone();
            m.append("; could not remove incomplete group: ");
            m.append(g.as_str());
            OpError::new("onboarding_cleanup_failed", m.as_str())
        },
        None => match directory {
            Some(d) => {
                let mut m = error.message.clone();
                m.append("; could not remove newly created empty directory: ");
                m.append(d.as_str());
                OpError::new("onboarding_cleanup_failed", m.as_str())
            },
            None => error,
        },
    }
}

/// A group with a local foreman is never taken over, and neither is one whose connector holds the
/// conversation of somebody else.
pub proof fn onboarding_replaces_nobody(
    g: CardV,
    entries: Seq<ObjV>,
    url: Option<Text>,
    bound: Option<ObjV>,
    now: Text,
)
    ensures
        connection(g, entries, url, bound, now) matches Ok(p) ==> {
            &&& workspace_of(g) is Some
            &&& bound matches Some(b) ==> text_field(b, "group_id"@) == Some(g.group_id)
            &&& p.bind && (p.connector matches Some(e)) ==> text_or_empty(
                p.connector->0,
                "session_hash"@,
            ).len() == 0
            &&& member_for(g, bound) matches Ok(Some(m)) ==> m.runtime == ActorRuntime::WebModel
        },
{
}

} // verus!
