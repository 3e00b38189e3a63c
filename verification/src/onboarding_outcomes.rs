//! What connecting a conversation comes to, told of its request, its group and what is made for it:
//! who may join and as whom, where its messages come back to, and what the answer tells.

use crate::connectors::outcomes::{is_in_use, speaks_for};
use crate::delivery::attempt::is_new_chat;
use crate::json::{alike, text_field, JsonV, ObjV};
use crate::lists::{lemma_first_at, lemma_first_where, lemma_selection};
use crate::model::{refusal, ActorRuntime, ErrV};
use crate::onboarding::{
    admitted, applicant, connection, connector_for, group_named, in_use, path_check, reuse_check,
    stable_url, workspace_of, CardV, ConnectPlanV, MemberV, MetaV, Onboarding, ScopeEntryV,
};
use crate::onboarding_flow::{
    directory_step, made_step, report_step, saved_step, started_step, ApplicantV, CurrentV,
    DirectoryV, JoiningV, OnboardStepV,
};
use crate::paths::is_same_path;
use crate::text::{has_prefix, trimmed, Text};
use vstd::prelude::*;

verus! {

/// The words of an onboarding differ.
pub(crate) proof fn lemma_entrance_words()
    ensures
        "group_id"@.len() == 8,
        "actor_id"@.len() == 8,
        "title"@.len() == 5,
        "runtime"@.len() == 7,
        "by"@.len() == 2,
        "env"@.len() == 3,
        "path"@.len() == 4,
        "set_active"@.len() == 10,
        "kind"@.len() == 4,
        "state"@.len() == 5,
        "url"@.len() == 3,
        "saved_at"@.len() == 8,
        "next_delivery"@.len() == 13,
        "group_title"@.len() == 11,
        "role"@.len() == 4,
        "workspace"@.len() == 9,
        "inbound_bound"@.len() == 13,
        "can_dispatch"@.len() == 12,
        "callback_target_ready"@.len() == 21,
        "status"@.len() == 6,
        "reused"@.len() == 6,
        "members"@.len() == 7,
        "next_steps"@.len() == 10,
        "session"@.len() == 7,
        "chat_url"@.len() == 8,
        "group"@.len() == 5,
        "connector_id"@.len() == 12,
        "revoked"@.len() == 7,
        "session_hash"@.len() == 12,
        "configured"@.len() == 10,
        "needs_chat_url"@.len() == 14,
        "existing_chat"@.len() == 13,
        "bound_existing_chat"@.len() == 19,
        "new_chat"@.len() == 8,
        "CCCC_WEB_MODEL_PROVIDER"@.len() == 23,
        "CCCC_WEB_MODEL_DELIVERY_MODE"@.len() == 28,
        "group_id"@[0] == 'g',
        "actor_id"@[0] == 'a',
        "saved_at"@[0] == 's',
        "chat_url"@[0] == 'c',
        "new_chat"@[0] == 'n',
        "title"@[0] == 't',
        "state"@[0] == 's',
        "group"@[0] == 'g',
        "runtime"@[0] == 'r',
        "members"@[0] == 'm',
        "session"@[0] == 's',
        "runtime"@[1] == 'u',
        "revoked"@[1] == 'e',
        "env"@[0] == 'e',
        "url"@[0] == 'u',
        "path"@[0] == 'p',
        "kind"@[0] == 'k',
        "role"@[0] == 'r',
        "set_active"@[0] == 's',
        "next_steps"@[0] == 'n',
        "configured"@[0] == 'c',
        "next_delivery"@[0] == 'n',
        "inbound_bound"@[0] == 'i',
        "existing_chat"@[0] == 'e',
        "can_dispatch"@[1] == 'a',
        "connector_id"@[1] == 'o',
        "can_dispatch"@[0] == 'c',
        "session_hash"@[0] == 's',
        "status"@[0] == 's',
        "reused"@[0] == 'r',
        "revoked"@[0] == 'r',
        "connector_id"@[0] == 'c',
{
    reveal_strlit("group_id");
    reveal_strlit("actor_id");
    reveal_strlit("title");
    reveal_strlit("runtime");
    reveal_strlit("by");
    reveal_strlit("env");
    reveal_strlit("path");
    reveal_strlit("set_active");
    reveal_strlit("kind");
    reveal_strlit("state");
    reveal_strlit("url");
    reveal_strlit("saved_at");
    reveal_strlit("next_delivery");
    reveal_strlit("group_title");
    reveal_strlit("role");
    reveal_strlit("workspace");
    reveal_strlit("inbound_bound");
    reveal_strlit("can_dispatch");
    reveal_strlit("callback_target_ready");
    reveal_strlit("status");
    reveal_strlit("reused");
    reveal_strlit("members");
    reveal_strlit("next_steps");
    reveal_strlit("session");
    reveal_strlit("chat_url");
    reveal_strlit("group");
    reveal_strlit("connector_id");
    reveal_strlit("revoked");
    reveal_strlit("session_hash");
    reveal_strlit("configured");
    reveal_strlit("needs_chat_url");
    reveal_strlit("existing_chat");
    reveal_strlit("bound_existing_chat");
    reveal_strlit("new_chat");
    reveal_strlit("CCCC_WEB_MODEL_PROVIDER");
    reveal_strlit("CCCC_WEB_MODEL_DELIVERY_MODE");
}

/// Whether a target is the conversation at an address that is there already.
pub open spec fn comes_back_to(target: ObjV, url: Text) -> bool {
    &&& text_field(target, "kind"@) == Some("existing_chat"@)
    &&& text_field(target, "state"@) == Some("bound_existing_chat"@)
    &&& text_field(target, "url"@) == Some(url)
    &&& text_field(target, "next_delivery"@) == Some("existing_chat"@)
}

/// A conversation that gives its address gets its messages back there: the target that is saved is
/// that conversation, no new chat, and once it is saved the answer is that all is configured.
/// Without an address no target is saved.
pub proof fn messages_come_back_to_the_given_address(
    g: CardV,
    entries: Seq<ObjV>,
    url: Option<Text>,
    bound: Option<ObjV>,
    now: Text,
    j: JoiningV,
)
    ensures
        connection(g, entries, url, bound, now) matches Ok(p) ==> match url {
            Some(u) => {
                &&& p.save_target matches Some(t) && comes_back_to(t, u) && !is_new_chat(
                    JsonV::Obj(t),
                ) && text_field(t, "saved_at"@) == Some(now)
                &&& report_step(
                    j,
                    Ok(
                        CurrentV {
                            group: g,
                            target: JsonV::Obj(p.save_target->0),
                            stable: true,
                        },
                    ),
                ) matches OnboardStepV::Done(m) && text_field(m, "status"@) == Some("configured"@)
                    && m["callback_target_ready"@] == JsonV::Bool(true)
            },
            None => p.save_target is None,
        },
{
    lemma_entrance_words();
}

/// What a conversation is told once it is connected: its group, its actor, that it may work, and
/// whether messages come back, which is where the target is a conversation that is there at a
/// stable address. A group that was made for it is not told as reused.
pub proof fn a_connected_conversation_is_told_where_it_is(j: JoiningV, c: CurrentV)
    ensures
        report_step(j, Ok(c)) matches OnboardStepV::Done(m) && {
            let ready = c.target.at("kind"@) == JsonV::Str("existing_chat"@) && c.stable;
            &&& m["group_id"@] == JsonV::Str(c.group.group_id)
            &&& m["group_title"@] == JsonV::Str(c.group.title)
            &&& m["actor_id"@] == JsonV::Str(j.plan.actor_id)
            &&& m["inbound_bound"@] == JsonV::Bool(true)
            &&& m["can_dispatch"@] == JsonV::Bool(true)
            &&& m["callback_target_ready"@] == JsonV::Bool(ready)
            &&& m["status"@] == JsonV::Str(
                if ready {
                    "configured"@
                } else {
                    "needs_chat_url"@
                },
            )
            &&& m["reused"@] == JsonV::Bool(!j.founded.group)
            &&& m["members"@] matches JsonV::Arr(all) && all.len() == c.group.members.filter(
                |m: MemberV| m.visible,
            ).len()
        },
{
    lemma_entrance_words();
}

/// Whether the member at a place is the first with an id.
pub open spec fn is_the_member(v: Seq<MemberV>, i: int, id: Text) -> bool {
    &&& 0 <= i < v.len()
    &&& v[i].id == id
    &&& forall|k: int| 0 <= k < i ==> (#[trigger] v[k]).id != id
}

/// Whether the member at a place is the first that is shown.
pub open spec fn is_the_foremost(v: Seq<MemberV>, i: int) -> bool {
    &&& 0 <= i < v.len()
    &&& v[i].visible
    &&& forall|k: int| 0 <= k < i ==> !(#[trigger] v[k]).visible
}

/// The actor that a bound connector names.
pub open spec fn bound_actor(b: ObjV) -> Text {
    match text_field(b, "actor_id"@) {
        Some(a) => a,
        None => Seq::empty(),
    }
}

/// Whether the group has a directory to work in.
pub open spec fn has_workspace(g: CardV) -> bool {
    exists|i: int| 0 <= i < g.scopes.len() && (#[trigger] g.scopes[i]).key == g.active_scope_key
}

/// The conversation of nobody, or one that is bound, is let in as a member: a bound one as the
/// member that its connector names, another as the foremost member of the group, or as a new one
/// where there is none. A conversation of another group, a group without a directory, a member that
/// is gone and a foreman that is no web model are each refused, in this order.
pub proof fn a_conversation_joins_as_a_web_model(g: CardV, bound: Option<ObjV>)
    ensures
        bound matches Some(b) && text_field(b, "group_id"@) != Some(g.group_id) ==> admitted(
            g,
            bound,
        ) == Err::<Option<MemberV>, ErrV>(
            refusal("session_already_bound"@, "This conversation is bound to another group"@),
        ),
        (bound matches Some(b) ==> text_field(b, "group_id"@) == Some(g.group_id)) ==> {
            &&& !has_workspace(g) ==> admitted(g, bound) == Err::<Option<MemberV>, ErrV>(
                refusal("workspace_required"@, "Attach a project directory to this group first"@),
            )
            &&& has_workspace(g) ==> match bound {
                Some(b) => {
                    &&& forall|i: int| #[trigger]
                        is_the_member(g.members, i, bound_actor(b)) ==> is_let_in_as(
                            admitted(g, bound),
                            g.members[i],
                        )
                    &&& (forall|i: int| !#[trigger] is_the_member(g.members, i, bound_actor(b)))
                        ==> admitted(g, bound) == Err::<Option<MemberV>, ErrV>(
                        refusal(
                            "connector_actor_unavailable"@,
                            "The bound member no longer exists"@,
                        ),
                    )
                },
                None => {
                    &&& forall|i: int| #[trigger]
                        is_the_foremost(g.members, i) ==> is_let_in_as(
                            admitted(g, bound),
                            g.members[i],
                        )
                    &&& (forall|i: int| !#[trigger] is_the_foremost(g.members, i)) ==> admitted(
                        g,
                        bound,
                    ) == Ok::<Option<MemberV>, ErrV>(None)
                },
            }
        },
{
    let active = |s: ScopeEntryV| s.key == g.active_scope_key;
    let w = lemma_first_where(g.scopes, active);
    if has_workspace(g) {
        let i = choose|i: int|
            0 <= i < g.scopes.len() && (#[trigger] g.scopes[i]).key == g.active_scope_key;
        assert(active(g.scopes[i]));
        assert(workspace_of(g) is Some);
    } else if workspace_of(g) is Some {
        assert(g.scopes[w].key == g.active_scope_key);
    }
    match bound {
        Some(b) => {
            let named = |m: MemberV| m.id == crate::json::text_or_empty(b, "actor_id"@);
            assert(bound_actor(b) == crate::json::text_or_empty(b, "actor_id"@));
            let k = lemma_first_where(g.members, named);
            assert forall|i: int| #[trigger]
                is_the_member(g.members, i, bound_actor(b)) implies crate::lists::first_match(
                g.members,
                named,
            ) == Some(g.members[i]) by {
                lemma_first_at(g.members, named, i);
            }
            if crate::lists::first_match(g.members, named) is Some {
                assert(is_the_member(g.members, k, bound_actor(b)));
            }
        },
        None => {
            let shown = |m: MemberV| m.visible;
            let k = lemma_first_where(g.members, shown);
            assert forall|i: int| #[trigger]
                is_the_foremost(g.members, i) implies crate::lists::first_match(g.members, shown)
                == Some(g.members[i]) by {
                lemma_first_at(g.members, shown, i);
            }
            if crate::lists::first_match(g.members, shown) is Some {
                assert(is_the_foremost(g.members, k));
            }
        },
    }
}

/// Whether a conversation is let in as a member if that is a web model, and refused otherwise.
pub open spec fn is_let_in_as(r: Result<Option<MemberV>, ErrV>, m: MemberV) -> bool {
    if m.runtime == ActorRuntime::WebModel {
        r == Ok::<Option<MemberV>, ErrV>(Some(m))
    } else {
        r == Err::<Option<MemberV>, ErrV>(
            refusal(
                "foreman_conflict"@,
                "This group already has a local Foreman; change it explicitly in the group interface"@,
            ),
        )
    }
}

/// Whether a connector at a place is the first in use for an actor of a group.
pub open spec fn is_the_connector(
    entries: Seq<ObjV>,
    i: int,
    group_id: Text,
    actor_id: Text,
) -> bool {
    &&& 0 <= i < entries.len()
    &&& speaks_for(entries[i], group_id, actor_id) && is_in_use(entries[i])
    &&& forall|k: int|
        0 <= k < i ==> !(speaks_for(#[trigger] entries[k], group_id, actor_id) && is_in_use(
            entries[k],
        ))
}

/// Whether a conversation is served by a connector, or refused because that holds the conversation
/// of somebody else.
pub open spec fn is_served_by(r: Result<ConnectPlanV, ErrV>, e: ObjV, bound: Option<ObjV>) -> bool {
    let own = bound matches Some(b) && alike(
        JsonV::Obj(e).at("connector_id"@),
        JsonV::Obj(b).at("connector_id"@),
    );
    let taken = text_field(e, "session_hash"@) matches Some(h) && h.len() > 0;
    if !own && taken {
        r == Err::<ConnectPlanV, ErrV>(
            refusal(
                "group_already_bound"@,
                "This group belongs to another Chat. Use a freshly issued connection code to replace that binding"@,
            ),
        )
    } else {
        r matches Ok(p) && p.connector == Some(e) && p.bind == !own
    }
}

/// The actor that a conversation joins as.
pub open spec fn joins_as(member: Option<MemberV>) -> Text {
    match member {
        Some(m) => m.id,
        None => "chat-foreman"@,
    }
}

/// A conversation that joins as a member brings no actor along; else it is added as a web model of
/// the group that the browser delivers to. The actor is started either way. One that is not let in
/// is not connected.
pub proof fn a_conversation_brings_the_actor_it_lacks(
    g: CardV,
    entries: Seq<ObjV>,
    url: Option<Text>,
    bound: Option<ObjV>,
    now: Text,
)
    ensures
        admitted(g, bound) matches Err(e) ==> connection(g, entries, url, bound, now) == Err::<
            ConnectPlanV,
            ErrV,
        >(e),
        connection(g, entries, url, bound, now) matches Ok(p) ==> {
            &&& admitted(g, bound) matches Ok(member) && p.actor_id == joins_as(member) && (
            p.add_actor is None <==> member is Some)
            &&& text_field(p.start_actor, "group_id"@) == Some(g.group_id)
            &&& text_field(p.start_actor, "actor_id"@) == Some(p.actor_id)
            &&& p.add_actor matches Some(a) ==> {
                &&& text_field(a, "group_id"@) == Some(g.group_id)
                &&& text_field(a, "actor_id"@) == Some(p.actor_id)
                &&& text_field(a, "runtime"@) == Some("web_model"@)
                &&& text_field(a, "by"@) == Some("user"@)
                &&& a["env"@].at("CCCC_WEB_MODEL_PROVIDER"@) == JsonV::Str("chatgpt"@)
                &&& a["env"@].at("CCCC_WEB_MODEL_DELIVERY_MODE"@) == JsonV::Str("browser"@)
            }
        },
{
    lemma_entrance_words();
}

/// The connector in use for its actor serves a conversation, unless it holds that of somebody else;
/// one that is its own already is not bound again. Where there is none, one has to be made and bound.
pub proof fn a_conversation_is_served_by_the_connector_in_use(
    g: CardV,
    entries: Seq<ObjV>,
    url: Option<Text>,
    bound: Option<ObjV>,
    now: Text,
    member: Option<MemberV>,
)
    requires
        admitted(g, bound) == Ok::<Option<MemberV>, ErrV>(member),
    ensures
        forall|i: int| #[trigger]
            is_the_connector(entries, i, g.group_id, joins_as(member)) ==> is_served_by(
                connection(g, entries, url, bound, now),
                entries[i],
                bound,
            ),
        (forall|i: int| !#[trigger] is_the_connector(entries, i, g.group_id, joins_as(member))) ==> (
        connection(g, entries, url, bound, now) matches Ok(p) && p.connector is None && p.bind),
{
    let actor_id = joins_as(member);
    let p = |e: ObjV| in_use(e, g.group_id, actor_id);
    assert forall|e: ObjV| #[trigger]
        p(e) <==> speaks_for(e, g.group_id, actor_id) && is_in_use(e) by {}
    let k = lemma_first_where(entries, p);
    assert forall|i: int| #[trigger]
        is_the_connector(entries, i, g.group_id, actor_id) implies connector_for(
        entries,
        g.group_id,
        actor_id,
    ) == Some(entries[i]) by {
        assert forall|j: int| 0 <= j < i implies !p(#[trigger] entries[j]) by {}
        lemma_first_at(entries, p, i);
    }
    if connector_for(entries, g.group_id, actor_id) is Some {
        assert forall|j: int| 0 <= j < k implies !(speaks_for(
            #[trigger] entries[j],
            g.group_id,
            actor_id,
        ) && is_in_use(entries[j])) by {
            assert(!p(entries[j]));
        }
        assert(is_the_connector(entries, k, g.group_id, actor_id));
    }
}

/// Only the gateway brings conversations in, with a session, and with no argument but the ones that
/// are known, all of them texts. The address is taken without blanks around it.
pub proof fn only_the_gateway_brings_conversations_in(kind: Onboarding, args: ObjV)
    ensures
        applicant(kind, args) is Ok <==> text_field(args, "by"@) == Some("user"@) && text_field(
            args,
            "session"@,
        ) is Some && forall|k: Text| #[trigger]
            args.contains_key(k) ==> args[k] is Str && (k == "by"@ || k == "session"@ || k
                == "chat_url"@ || (kind == Onboarding::Create && (k == "path"@ || k == "title"@))
                || (kind == Onboarding::Bind && k == "group"@)),
        applicant(kind, args) matches Ok((session, url)) ==> text_field(args, "session"@) == Some(
            session,
        ) && url == match text_field(args, "chat_url"@) {
            Some(u) => trimmed(u),
            None => trimmed(Seq::empty()),
        },
        text_field(args, "by"@) != Some("user"@) ==> (applicant(kind, args) matches Err(e) && e.code
            == "permission_denied"@),
{
}

/// An address that is given has to be a stable one; without one the conversation goes on without.
pub proof fn an_address_has_to_be_stable(given: Text, stable: Option<Text>)
    ensures
        given.len() == 0 ==> stable_url(given, stable) == Ok::<Option<Text>, ErrV>(None),
        given.len() > 0 ==> match stable {
            Some(u) => stable_url(given, stable) == Ok::<Option<Text>, ErrV>(Some(u)),
            None => stable_url(given, stable) matches Err(e) && e.code == "invalid_chat_url"@,
        },
{
}

/// A group is made in a directory that is given in full and lies outside the internal data, under
/// the title that is given or the name of the directory. It does not become the active one, and
/// only a directory that was not there is taken back when the group is.
pub proof fn a_group_is_made_where_it_was_asked_for(
    args: ObjV,
    a: ApplicantV,
    bound: Option<ObjV>,
    d: DirectoryV,
    raw: Text,
    absolute: bool,
)
    ensures
        path_check(raw, absolute, false) is Ok <==> absolute || has_prefix(raw, "~/"@),
        path_check(raw, true, true) is Err,
        d.internal ==> directory_step(args, a, bound, Ok(d)) is Refused,
        !d.internal ==> {
            let title = match text_field(args, "title"@) {
                Some(t) => if trimmed(t).len() > 0 {
                    trimmed(t)
                } else {
                    d.name
                },
                None => d.name,
            };
            let step = directory_step(args, a, bound, Ok(d));
            match bound {
                Some(b) => step == OnboardStepV::LoadBound(a, b, d.path, title),
                None => step matches OnboardStepV::CreateGroup(b, m, made) && b == a && text_field(
                    m,
                    "path"@,
                ) == Some(d.path) && text_field(m, "title"@) == Some(title) && text_field(m, "by"@)
                    == Some("user"@) && m["set_active"@] == JsonV::Bool(false) && made == if d.exists {
                    None
                } else {
                    Some(d.path)
                },
            }
        },
{
    lemma_entrance_words();
}

/// A group is named by its complete title: one that no group or more than one has is refused.
pub proof fn a_group_is_named_by_its_whole_title(groups: Seq<MetaV>, token: Text)
    ensures
        group_named(groups, token) matches Ok(id) ==> exists|i: int|
            0 <= i < groups.len() && trimmed((#[trigger] groups[i]).title) == token
                && groups[i].group_id == id,
        forall|i: int, j: int|
            0 <= i < j < groups.len() && trimmed((#[trigger] groups[i]).title) == token && trimmed(
                (#[trigger] groups[j]).title,
            ) == token ==> (group_named(groups, token) matches Err(e) && e.code
                == "ambiguous_group"@),
        (forall|i: int| 0 <= i < groups.len() ==> trimmed((#[trigger] groups[i]).title) != token)
            ==> (group_named(groups, token) matches Err(e) && e.code == "group_not_found"@),
        forall|i: int|
            0 <= i < groups.len() && trimmed((#[trigger] groups[i]).title) == token ==> match group_named(
                groups,
                token,
            ) {
                Ok(id) => id == groups[i].group_id,
                Err(e) => e.code == "ambiguous_group"@,
            },
{
    let p = |m: MetaV| crate::onboarding::is_named(m, token);
    let f = groups.filter(p);
    lemma_selection(groups, p);
    if f.len() == 1 {
        assert(f.contains(f[0]));
        let i = choose|i: int| 0 <= i < groups.len() && groups[i] == f[0];
        assert(trimmed(groups[i].title) == token);
    }
    assert forall|i: int| 0 <= i < groups.len() && trimmed((#[trigger] groups[i]).title)
        == token implies f.contains(groups[i]) && f.len() > 0 by {
        assert(p(groups[i]));
        assert(groups.contains(groups[i]));
    }
    assert forall|i: int, j: int|
        0 <= i < j < groups.len() && trimmed((#[trigger] groups[i]).title) == token && trimmed(
            (#[trigger] groups[j]).title,
        ) == token implies f.len() >= 2 by {
        crate::connectors::outcomes::lemma_both_selected(groups, p, i, j);
    }
    if f.len() > 0 {
        assert(f.contains(f[0]));
        let i = choose|i: int| 0 <= i < groups.len() && groups[i] == f[0];
        assert(trimmed(groups[i].title) == token);
    }
}

/// A conversation that is bound already gets its own group again only by its directory and title.
pub proof fn a_bound_conversation_reuses_its_own_group(g: CardV, path: Text, title: Text)
    ensures
        reuse_check(g, path, title) is Ok <==> (workspace_of(g) matches Some(w) && is_same_path(
            w,
            path,
        )) && g.title == title,
        reuse_check(g, path, title) matches Err(e) ==> e.code == "session_already_bound"@,
{
}

/// Once its actor runs, a conversation's target is saved if it gave an address; then it is bound
/// unless it is already, and only then it is told. A connector that was made for it is the one it is
/// bound to.
pub proof fn a_conversation_is_bound_behind_its_target(j: JoiningV, c: ObjV, id: Text)
    requires
        text_field(c, "connector_id"@) == Some(id),
    ensures
        made_step(j, Ok(c)) matches OnboardStepV::StartActor(k) && k.connector_id == id && k.made
            == Some(id) && k.session == j.session && k.group == j.group && k.plan == j.plan,
        started_step(j, None) == match j.plan.save_target {
            Some(_) => OnboardStepV::SaveTarget(j),
            None => if j.plan.bind {
                OnboardStepV::Bind(j)
            } else {
                OnboardStepV::Report(j)
            },
        },
        saved_step(j, None) == if j.plan.bind {
            OnboardStepV::Bind(j)
        } else {
            OnboardStepV::Report(j)
        },
{
}

} // verus!
