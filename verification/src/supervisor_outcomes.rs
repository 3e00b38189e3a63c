//! Who is delivered to, told of the settings and states themselves.

use crate::json::{text_field, JsonV, ObjV};
use crate::model::{ActorRuntime, GroupState};
use crate::supervisor::{
    candidate, candidates, candidates_in, first_setting, has_conversation, is_delivered_to,
    last_start, reminder_arguments, requested, BrowserActorV, BrowserGroupV, CandidateV,
};
use crate::text::{lowered, trimmed, Text};
use crate::time::{rfc3339, Instant};
use vstd::prelude::*;

verus! {

/// The browser delivers where a mode asks for it, or where the provider is one of the browser and
/// no mode declines it.
pub proof fn the_browser_delivers_on_request(mode: Text, provider: Text)
    ensures
        ({
            let off = mode == "pull"@ || mode == "native"@ || mode == "remote_mcp"@ || mode == "off"@
                || mode == "disabled"@ || mode == "none"@;
            let on = mode == "browser"@ || mode == "chatgpt"@ || mode == "chatgpt_browser"@ || mode
                == "browser_delivery"@;
            let known = provider == "chatgpt"@ || provider == "chatgpt_web"@ || provider
                == "browser_web_model"@ || provider == "chatgpt_browser"@;
            requested(mode, provider) <==> !off && (on || known)
        }),
{
}

/// An actor is delivered to exactly where it is an enabled web model without a screen in a group
/// that runs and is neither paused nor stopped, and the browser is asked to deliver to it.
pub proof fn a_running_web_model_is_delivered_to(
    running: bool,
    state: GroupState,
    a: BrowserActorV,
)
    ensures
        is_delivered_to(running, state, a) <==> a.runtime == ActorRuntime::WebModel && a.headless
            && a.enabled && running && state != GroupState::Paused && state != GroupState::Stopped
            && requested(
            a.mode,
            if a.provider.len() > 0 {
                a.provider
            } else {
                match a.connector_provider {
                    Some(p) => lowered(trimmed(p)),
                    None => Seq::empty(),
                }
            },
        ),
{
}

/// The first setting that is not blank counts, in lower case and without blanks around.
pub proof fn the_first_setting_counts(v: Seq<Option<Text>>, i: int)
    requires
        0 <= i < v.len(),
        v[i] matches Some(t) && lowered(trimmed(t)).len() > 0,
        forall|j: int|
            0 <= j < i ==> ((#[trigger] v[j]) matches Some(t) ==> lowered(trimmed(t)).len() == 0),
    ensures
        first_setting(v) == lowered(trimmed(v[i]->0)),
    decreases v.len(),
{
    if i > 0 {
        let d = v.drop_first();
        assert(d[i - 1] == v[i]);
        assert forall|j: int| 0 <= j < i - 1 implies ((#[trigger] d[j]) matches Some(t) ==> lowered(
            trimmed(t),
        ).len() == 0) by {
            assert(d[j] == v[j + 1]);
        }
        assert(v[0] matches Some(t) ==> lowered(trimmed(t)).len() == 0);
        the_first_setting_counts(d, i - 1);
    }
}

/// A conversation can be visited where it is a new chat or has an address.
pub proof fn a_conversation_with_an_address_is_visited(target: JsonV)
    ensures
        has_conversation(target) <==> target.at("kind"@) == JsonV::Str("new_chat"@) || (target.at(
            "url"@,
        ) matches JsonV::Str(u) && u.len() > 0),
{
}

proof fn lemma_candidates_in(g: BrowserGroupV, n: nat, c: CandidateV)
    requires
        n <= g.actors.len(),
    ensures
        candidates_in(g, n).contains(c) <==> exists|k: int|
            0 <= k < n && is_delivered_to(g.running, g.state, #[trigger] g.actors[k]) && c
                == candidate(g.group_id, g.actors[k]),
    decreases n,
{
    if n > 0 {
        let m = (n - 1) as nat;
        lemma_candidates_in(g, m, c);
        let known = candidates_in(g, m);
        let r = candidates_in(g, n);
        if r.contains(c) {
            let j = choose|j: int| 0 <= j < r.len() && r[j] == c;
            if j < known.len() {
                assert(known[j] == c);
                assert(known.contains(c));
            } else {
                assert(is_delivered_to(g.running, g.state, g.actors[n - 1]));
            }
        }
        if known.contains(c) {
            let j = choose|j: int| 0 <= j < known.len() && known[j] == c;
            assert(r[j] == c);
        }
        if is_delivered_to(g.running, g.state, g.actors[n - 1]) && c == candidate(
            g.group_id,
            g.actors[n - 1],
        ) {
            assert(r[known.len() as int] == c);
        }
        if exists|k: int|
            0 <= k < n && is_delivered_to(g.running, g.state, #[trigger] g.actors[k]) && c
                == candidate(g.group_id, g.actors[k]) {
            let k = choose|k: int|
                0 <= k < n && is_delivered_to(g.running, g.state, #[trigger] g.actors[k]) && c
                    == candidate(g.group_id, g.actors[k]);
            if k < m {
                assert(known.contains(c));
            }
        }
    }
}

/// Whoever is delivered to in some group is visited, and nobody else.
pub proof fn whoever_is_delivered_to_is_visited(groups: Seq<BrowserGroupV>, c: CandidateV)
    ensures
        candidates(groups).contains(c) <==> exists|i: int, k: int|
            #![trigger groups[i].actors[k]]
            0 <= i < groups.len() && 0 <= k < groups[i].actors.len() && is_delivered_to(
                groups[i].running,
                groups[i].state,
                groups[i].actors[k],
            ) && c.group_id == groups[i].group_id && c.actor_id == groups[i].actors[k].id
                && c.started == last_start(groups[i].actors[k].target),
    decreases groups.len(),
{
    if groups.len() > 0 {
        let d = groups.drop_last();
        let g = groups.last();
        whoever_is_delivered_to_is_visited(d, c);
        lemma_candidates_in(g, g.actors.len(), c);
        let known = candidates(d);
        let more = candidates_in(g, g.actors.len());
        let r = candidates(groups);
        assert(groups[groups.len() - 1] == g);
        if r.contains(c) {
            let j = choose|j: int| 0 <= j < r.len() && r[j] == c;
            if j < known.len() {
                assert(known[j] == c);
                assert(known.contains(c));
                let (i, k) = choose|i: int, k: int|
                    #![trigger d[i].actors[k]]
                    0 <= i < d.len() && 0 <= k < d[i].actors.len() && is_delivered_to(
                        d[i].running,
                        d[i].state,
                        d[i].actors[k],
                    ) && c.group_id == d[i].group_id && c.actor_id == d[i].actors[k].id && c.started
                        == last_start(d[i].actors[k].target);
                assert(groups[i].actors[k] == d[i].actors[k]);
            } else {
                assert(more[j - known.len()] == c);
                assert(more.contains(c));
                let k = choose|k: int|
                    0 <= k < g.actors.len() && is_delivered_to(
                        g.running,
                        g.state,
                        #[trigger] g.actors[k],
                    ) && c == candidate(g.group_id, g.actors[k]);
                assert(groups[groups.len() - 1].actors[k] == g.actors[k]);
            }
        }
        if exists|i: int, k: int|
            #![trigger groups[i].actors[k]]
            0 <= i < groups.len() && 0 <= k < groups[i].actors.len() && is_delivered_to(
                groups[i].running,
                groups[i].state,
                groups[i].actors[k],
            ) && c.group_id == groups[i].group_id && c.actor_id == groups[i].actors[k].id
                && c.started == last_start(groups[i].actors[k].target) {
            let (i, k) = choose|i: int, k: int|
                #![trigger groups[i].actors[k]]
                0 <= i < groups.len() && 0 <= k < groups[i].actors.len() && is_delivered_to(
                    groups[i].running,
                    groups[i].state,
                    groups[i].actors[k],
                ) && c.group_id == groups[i].group_id && c.actor_id == groups[i].actors[k].id
                    && c.started == last_start(groups[i].actors[k].target);
            if i < d.len() {
                assert(d[i].actors[k] == groups[i].actors[k]);
                assert(known.contains(c));
                let j = choose|j: int| 0 <= j < known.len() && known[j] == c;
                assert(r[j] == c);
            } else {
                assert(g.actors[k] == groups[i].actors[k]);
                assert(c == candidate(g.group_id, g.actors[k]));
                assert(more.contains(c));
                let j = choose|j: int| 0 <= j < more.len() && more[j] == c;
                assert(r[known.len() + j] == c);
            }
        }
    }
}

/// A conversation was delivered to last when its target says; one that does not say it, or not as
/// a time, was never delivered to.
pub proof fn the_target_tells_the_last_start(target: JsonV)
    ensures
        last_start(None) is None,
        last_start(Some(target)) == match target.at("last_delivery_started_at"@) {
            JsonV::Str(at) => match rfc3339(at) {
                Some((secs, nanos)) => Some(Instant { secs: secs as i64, nanos: nanos as u32 }),
                None => None,
            },
            _ => None,
        },
{
}

/// A check for open decisions is asked for by the actor itself, and a page counts as idle only if
/// that is known.
pub proof fn a_check_is_asked_for_by_the_actor(args: ObjV, actor_id: Text, idle: bool)
    ensures
        ({
            let m = reminder_arguments(args, actor_id, idle);
            &&& text_field(m, "by"@) == Some(actor_id)
            &&& m["browser_idle"@] == JsonV::Bool(idle)
            &&& forall|k: Text|
                k != "by"@ && k != "browser_idle"@ ==> (#[trigger] m.contains_key(k)
                    <==> args.contains_key(k)) && (m.contains_key(k) ==> m[k] == args[k])
        }),
{
    reveal_strlit("by");
    reveal_strlit("browser_idle");
    assert("by"@.len() == 2);
    assert("browser_idle"@.len() == 12);
}

} // verus!
