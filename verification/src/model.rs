//! Ledger events, groups, context documents, requests and errors.

use crate::json::{flag_field, objects, text_field, JsonMap, ObjV};
use crate::lists::views;
use crate::text::{opt_text, str_eq, texts, Text};
use vstd::prelude::*;
use vstd::string::*;

verus! {

/// One entry of a group's append-only ledger.
pub struct Event {
    pub id: String,
    pub ts: String,
    pub kind: String,
    pub group_id: String,
    pub by: String,
    pub data: JsonMap,
}

/// The mathematical value of a ledger entry.
pub struct EventV {
    pub id: Text,
    pub ts: Text,
    pub kind: Text,
    pub group_id: Text,
    pub by: Text,
    pub data: ObjV,
}

impl View for Event {
    type V = EventV;

    open spec fn view(&self) -> EventV {
        EventV {
            id: self.id@,
            ts: self.ts@,
            kind: self.kind@,
            group_id: self.group_id@,
            by: self.by@,
            data: self.data@,
        }
    }
}

impl Event {
    /// A copy of the entry.
    pub fn copy(&self) -> (r: Event)
        ensures
            r@ == self@,
    {
        Event {
            id: self.id.clone(),
            ts: self.ts.clone(),
            kind: self.kind.clone(),
            group_id: self.group_id.clone(),
            by: self.by.clone(),
            data: self.data.copy(),
        }
    }

    /// Whether the entry is of a kind.
    pub fn is_kind(&self, kind: &str) -> (r: bool)
        ensures
            r == (self@.kind == kind@),
    {
        str_eq(self.kind.as_str(), kind)
    }
}

/// The values of a ledger.
pub open spec fn ledger(v: Seq<Event>) -> Seq<EventV> {
    views(v)
}

/// The value of an optional ledger entry.
pub open spec fn opt_event(o: Option<&Event>) -> Option<EventV> {
    match o {
        Some(e) => Some(e@),
        None => None,
    }
}

/// What drives an actor. Only the web model is told apart.
#[derive(PartialEq, Eq, Structural, Clone, Copy, Debug)]
pub enum ActorRuntime {
    WebModel,
    Local,
}

/// The part an actor plays in its group.
#[derive(PartialEq, Eq, Structural, Clone, Copy, Debug)]
pub enum ActorRole {
    Foreman,
    Peer,
}

/// Whether a group works.
#[derive(PartialEq, Eq, Structural, Clone, Copy, Debug)]
pub enum GroupState {
    Active,
    Idle,
    Paused,
    Stopped,
}

/// One member of a group, with the role it has now.
pub struct Actor {
    pub id: String,
    pub enabled: bool,
    pub runtime: ActorRuntime,
    pub role: ActorRole,
    pub created_at: String,
}

/// The mathematical value of an actor.
pub struct ActorV {
    pub id: Text,
    pub enabled: bool,
    pub runtime: ActorRuntime,
    pub role: ActorRole,
    pub created_at: Text,
}

impl View for Actor {
    type V = ActorV;

    open spec fn view(&self) -> ActorV {
        ActorV {
            id: self.id@,
            enabled: self.enabled,
            runtime: self.runtime,
            role: self.role,
            created_at: self.created_at@,
        }
    }
}

/// A group: its run state, its members in order, and the one foreman that is available, if any.
pub struct GroupDoc {
    pub group_id: String,
    pub running: bool,
    pub state: GroupState,
    pub actors: Vec<Actor>,
    pub available_foreman: Option<String>,
}

/// The mathematical value of a group.
pub struct GroupV {
    pub group_id: Text,
    pub running: bool,
    pub state: GroupState,
    pub actors: Seq<ActorV>,
    pub available_foreman: Option<Text>,
}

/// The values of a list of actors.
pub open spec fn roster(v: Seq<Actor>) -> Seq<ActorV> {
    views(v)
}

impl View for GroupDoc {
    type V = GroupV;

    open spec fn view(&self) -> GroupV {
        GroupV {
            group_id: self.group_id@,
            running: self.running,
            state: self.state,
            actors: roster(self.actors@),
            available_foreman: opt_text(self.available_foreman),
        }
    }
}

impl GroupV {
    /// Whether the user has paused or stopped the group.
    pub open spec fn halted(self) -> bool {
        !self.running || self.state == GroupState::Paused || self.state == GroupState::Stopped
    }

    /// The first actor with an id.
    pub open spec fn find(self, id: Text) -> Option<ActorV> {
        first_actor(self.actors, id)
    }

    /// Whether the actor with this id is a foreman.
    pub open spec fn is_foreman(self, id: Text) -> bool {
        match self.find(id) {
            Some(a) => a.role == ActorRole::Foreman,
            None => false,
        }
    }
}

/// The first actor of a list with an id.
pub open spec fn first_actor(v: Seq<ActorV>, id: Text) -> Option<ActorV>
    decreases v.len(),
{
    if v.len() == 0 {
        None
    } else if v[0].id == id {
        Some(v[0])
    } else {
        first_actor(v.drop_first(), id)
    }
}

impl GroupDoc {
    /// Whether the user has paused or stopped the group.
    pub fn halted(&self) -> (r: bool)
        ensures
            r == self@.halted(),
    {
        !self.running || self.state == GroupState::Paused || self.state == GroupState::Stopped
    }

    /// The first actor with an id.
    pub fn find(&self, id: &str) -> (r: Option<&Actor>)
        ensures
            match r {
                Some(a) => self@.find(id@) == Some(a@),
                None => self@.find(id@) is None,
            },
    {
        let ghost all = roster(self.actors@);
        let mut i: usize = 0;
        proof {
            assert(all.skip(0) =~= all);
        }
        while i < self.actors.len()
            invariant
                i <= self.actors@.len(),
                all == roster(self.actors@),
                first_actor(all, id@) == first_actor(all.skip(i as int), id@),
            decreases self.actors@.len() - i,
        {
            if str_eq(self.actors[i].id.as_str(), id) {
                return Some(&self.actors[i]);
            }
            proof {
                assert(all.skip(i as int).drop_first() =~= all.skip(i + 1));
            }
            i += 1;
        }
        None
    }

    /// Whether the actor with this id is a foreman.
    pub fn is_foreman(&self, id: &str) -> (r: bool)
        ensures
            r == self@.is_foreman(id@),
    {
        match self.find(id) {
            Some(a) => a.role == ActorRole::Foreman,
            None => false,
        }
    }
}

/// The shared context of a group.
pub struct ContextDoc {
    pub coordination: JsonMap,
    pub tasks: Vec<JsonMap>,
    pub meta: JsonMap,
}

/// The mathematical value of a group's context.
pub struct ContextV {
    pub coordination: ObjV,
    pub tasks: Seq<ObjV>,
    pub meta: ObjV,
}

impl View for ContextDoc {
    type V = ContextV;

    open spec fn view(&self) -> ContextV {
        ContextV {
            coordination: self.coordination@,
            tasks: objects(self.tasks@),
            meta: self.meta@,
        }
    }
}

/// A request to the daemon.
pub struct DaemonRequest {
    pub v: u32,
    pub op: String,
    pub args: JsonMap,
}

/// The mathematical value of a request.
pub struct RequestV {
    pub v: u32,
    pub op: Text,
    pub args: ObjV,
}

impl View for DaemonRequest {
    type V = RequestV;

    open spec fn view(&self) -> RequestV {
        RequestV { v: self.v, op: self.op@, args: self.args@ }
    }
}

/// A refused operation: a stable code and a message for people.
pub struct OpError {
    pub code: String,
    pub message: String,
}

/// The mathematical value of a refusal.
pub struct ErrV {
    pub code: Text,
    pub message: Text,
}

impl View for OpError {
    type V = ErrV;

    open spec fn view(&self) -> ErrV {
        ErrV { code: self.code@, message: self.message@ }
    }
}

/// A refusal with a code and a message.
pub open spec fn refusal(code: Text, message: Text) -> ErrV {
    ErrV { code, message }
}

impl OpError {
    /// A refusal with a code and a message.
    pub fn new(code: &str, message: &str) -> (r: OpError)
        ensures
            r@ == refusal(code@, message@),
    {
        OpError { code: code.to_owned(), message: message.to_owned() }
    }

    /// A refusal whose message ends with a value.
    pub fn about(code: &str, message: &str, value: &str) -> (r: OpError)
        ensures
            r@ == refusal(code@, message@ + value@),
    {
        let mut m = message.to_owned();
        m.append(value);
        OpError { code: code.to_owned(), message: m }
    }
}

/// The value of a fallible result.
pub open spec fn outcome<T: View>(r: Result<T, OpError>) -> Result<T::V, ErrV> {
    match r {
        Ok(x) => Ok(x@),
        Err(e) => Err(e@),
    }
}

/// The value of a fallible list of strings.
pub open spec fn texts_outcome(r: Result<Vec<String>, OpError>) -> Result<Seq<Text>, ErrV> {
    match r {
        Ok(x) => Ok(texts(x@)),
        Err(e) => Err(e@),
    }
}

/// The value of a fallible list of events.
pub open spec fn ledger_outcome(r: Result<Vec<Event>, OpError>) -> Result<Seq<EventV>, ErrV> {
    match r {
        Ok(x) => Ok(ledger(x@)),
        Err(e) => Err(e@),
    }
}

/// The value of a fallible check.
pub open spec fn check_outcome(r: Result<(), OpError>) -> Result<(), ErrV> {
    match r {
        Ok(x) => Ok(()),
        Err(e) => Err(e@),
    }
}

/// The string argument under a key.
pub fn string_arg(request: &DaemonRequest, key: &str) -> (r: Option<String>)
    ensures
        opt_text(r) == text_field(request@.args, key@),
{
    match request.args.text(key) {
        Some(t) => Some(t.to_owned()),
        None => None,
    }
}

/// A required string argument, or the refusal that names it.
pub open spec fn required_text(args: ObjV, key: Text) -> Result<Text, ErrV> {
    match text_field(args, key) {
        Some(t) => Ok(t),
        None => Err(refusal("invalid_args"@, "missing required argument: "@ + key)),
    }
}

/// A required string argument, or the refusal that names it.
pub fn required_arg(request: &DaemonRequest, key: &str) -> (r: Result<String, OpError>)
    ensures
        match r {
            Ok(s) => required_text(request@.args, key@) == Ok::<Text, ErrV>(s@),
            Err(e) => required_text(request@.args, key@) == Err::<Text, ErrV>(e@),
        },
{
    match request.args.text(key) {
        Some(t) => Ok(t.to_owned()),
        None => Err(OpError::about("invalid_args", "missing required argument: ", key)),
    }
}

/// The boolean argument under a key, or a default.
pub fn bool_arg(request: &DaemonRequest, key: &str, default: bool) -> (r: bool)
    ensures
        r == match flag_field(request@.args, key@) {
            Some(b) => b,
            None => default,
        },
{
    match request.args.flag(key) {
        Some(b) => b,
        None => default,
    }
}

} // verus!
