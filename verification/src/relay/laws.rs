//! What a recorded decision guarantees: it settles its handoffs, it can be repeated without
//! effect, and it cannot be contradicted.

use crate::json::{strings, strings_field, text_array, text_field, text_or_empty, JsonV, ObjV};
use crate::lists::{first_match, lemma_selection, overlaps, some_match};
use crate::model::{refusal, ErrV, EventV, GroupV};
use crate::order::{
    increasing, inserting_all_keeps_order, sorted_set, sorted_set_holds_the_same_texts_in_order,
};
use crate::relay::accept::{acceptance, acceptance_due, is_accepted, AcceptanceV};
use crate::relay::decide::{
    all_in, conflict, covering, decided_by, facts, resolution, verdict, ResolutionV, ScopeV,
    VerdictV,
};
use crate::relay::facts::{
    covers_some, decides_some, delivery_state, handled, pending, reminder_ids, reminds_of,
    source_decided, unresolved,
};
use crate::relay::handoff::{handoff_plan, new_handoff, HandoffPlanV, TurnV};
use crate::relay::ids::short_digest;
use crate::relay::intent::IntentV;
use crate::relay::notes::{decision_data, note_due, note_of, FactsV};
use crate::relay::sources::{event_by_id, with_open_sources};
use crate::relay::state::ids_of;
use crate::relay::words::{lemma_decision_keys, lemma_decisions, lemma_handoff_keys};
use crate::text::Text;
use vstd::prelude::*;

verus! {

pub(crate) proof fn lemma_strings_of_text_array(v: Seq<Text>)
    ensures
        text_array(v).list() is Some,
        strings(text_array(v).list()->0) == v,
    decreases v.len(),
{
    let f = |x: JsonV| x.text();
    let m = v.map_values(|t: Text| JsonV::Str(t));
    if v.len() == 0 {
        assert(m.filter_map(f) =~= v);
    } else {
        let d = v.drop_last();
        lemma_strings_of_text_array(d);
        assert(m.drop_last() =~= d.map_values(|t: Text| JsonV::Str(t)));
        assert(m.last() == JsonV::Str(v.last()));
        assert(m.filter_map(f) == m.drop_last().filter_map(f) + seq![v.last()]);
        assert(m.filter_map(f) =~= v);
    }
}

/// What is read back of the ledger entry of a decision.
pub proof fn a_recorded_decision_reads_back(f: FactsV, caller: bool, safe: bool)
    ensures
        text_field(decision_data(f, caller, safe), "decision"@) == Some(f.decision),
        text_field(decision_data(f, caller, safe), "by"@) == Some(f.by),
        text_or_empty(decision_data(f, caller, safe), "request_fingerprint"@)
            == f.request_fingerprint,
        text_or_empty(decision_data(f, caller, safe), "decision_id"@) == f.decision_id,
        strings_field(decision_data(f, caller, safe), "source_event_ids"@) == f.source_event_ids,
        strings_field(decision_data(f, caller, safe), "handoff_ids"@) == f.handoff_ids,
{
    lemma_decision_keys();
    lemma_strings_of_text_array(f.source_event_ids);
    lemma_strings_of_text_array(f.handoff_ids);
}

proof fn lemma_first_match_push<A>(s: Seq<A>, x: A, p: spec_fn(A) -> bool)
    ensures
        first_match(s.push(x), p) == (match first_match(s, p) {
            Some(y) => Some(y),
            None => if p(x) {
                Some(x)
            } else {
                None
            },
        }),
    decreases s.len(),
{
    if s.len() == 0 {
        let t = s.push(x).drop_first();
        assert(t.len() == 0);
        assert(first_match(t, p) is None);
        assert(s.push(x)[0] == x);
    } else {
        assert(s.push(x).drop_first() =~= s.drop_first().push(x));
        lemma_first_match_push(s.drop_first(), x, p);
    }
}

pub(crate) proof fn lemma_with_open_sources(ids: Seq<Text>, handoffs: Seq<EventV>, events: Seq<EventV>)
    ensures
        increasing(with_open_sources(ids, handoffs, events)),
        forall|x: Text| ids.contains(x) ==> #[trigger]
            with_open_sources(ids, handoffs, events).contains(x),
        forall|h: EventV, x: Text|
            handoffs.contains(h) && #[trigger] unresolved(events, h).contains(x)
                ==> with_open_sources(ids, handoffs, events).contains(x),
    decreases handoffs.len(),
{
    if handoffs.len() == 0 {
        sorted_set_holds_the_same_texts_in_order(ids);
    } else {
        let d = handoffs.drop_last();
        lemma_with_open_sources(ids, d, events);
        inserting_all_keeps_order(
            with_open_sources(ids, d, events),
            unresolved(events, handoffs.last()),
        );
        assert forall|h: EventV, x: Text|
            handoffs.contains(h) && #[trigger] unresolved(events, h).contains(
                x,
            ) implies with_open_sources(ids, handoffs, events).contains(x) by {
            let k = choose|k: int| 0 <= k < handoffs.len() && handoffs[k] == h;
            if k < d.len() {
                assert(d[k] == h);
                assert(d.contains(h));
            }
        }
    }
}

pub(crate) proof fn lemma_new_decision(
    group_id: Text,
    events: Seq<EventV>,
    addressed: Seq<Text>,
    i: IntentV,
    ids: Seq<Text>,
    s: ScopeV,
)
    requires
        resolution(group_id, events, addressed, i, ids) == Ok::<ResolutionV, ErrV>(
            ResolutionV::Fresh(s),
        ),
    ensures
        first_match(events, |e: EventV| decides_some(e, ids)) is None,
        covering(events, i.by, ids).len() > 0,
        s.source_event_ids == with_open_sources(ids, covering(events, i.by, ids), events),
        s.handoffs == covering(events, i.by, s.source_event_ids),
        s.handoff_ids == ids_of(s.handoffs),
        all_in(ids, s.source_event_ids),
        overlaps(s.source_event_ids, ids),
{
    let initial = covering(events, i.by, ids);
    let all = with_open_sources(ids, initial, events);
    lemma_with_open_sources(ids, initial, events);
    assert forall|k: int| 0 <= k < ids.len() implies all.contains(#[trigger] ids[k]) by {
        assert(ids.contains(ids[k]));
    }
    lemma_selection(events, |e: EventV| covers_some(e, i.by, ids));
    let h = initial[0];
    assert(initial.contains(h));
    assert(covers_some(h, i.by, ids));
    let src = h.strings("source_event_ids"@);
    let k = choose|k: int| 0 <= k < src.len() && ids.contains(#[trigger] src[k]);
    assert(all.contains(src[k]));
    let m = choose|m: int| 0 <= m < all.len() && all[m] == src[k];
    assert(ids.contains(all[m]));
}

/// A new decision settles every handoff in its scope: once it is recorded, no source of them is
/// open, and neither is any source that it covers.
pub proof fn a_decision_settles_its_handoffs(
    g: GroupV,
    events: Seq<EventV>,
    addressed: Seq<Text>,
    i: IntentV,
    ids: Seq<Text>,
    s: ScopeV,
    previewed: Seq<ObjV>,
    f: FactsV,
    operations: Seq<ObjV>,
    now: Text,
    v: VerdictV,
    h: EventV,
)
    requires
        resolution(g.group_id, events, addressed, i, ids) == Ok::<ResolutionV, ErrV>(
            ResolutionV::Fresh(s),
        ),
        f.source_event_ids == s.source_event_ids,
        f.handoff_ids == s.handoff_ids,
        verdict(g, events, previewed, f, s.event_id, operations, now) == Ok::<VerdictV, ErrV>(v),
        s.handoffs.contains(h),
        text_field(h.data, "handoff_id"@) is Some,
    ensures
        unresolved(events.push(v.event), h) == Seq::<Text>::empty(),
        !pending(events.push(v.event), h),
        forall|x: Text| s.source_event_ids.contains(x) ==> #[trigger]
            source_decided(events.push(v.event), x),
{
    let after = events.push(v.event);
    lemma_new_decision(g.group_id, events, addressed, i, ids, s);
    let others = crate::relay::decide::others_open(events, f.by, f.handoff_ids);
    let safe = crate::relay::idle::safe_after(previewed, f.decision, others);
    let caller = g.halted() || crate::relay::idle::may_idle_after(previewed, g, f.by, others);
    a_recorded_decision_reads_back(f, caller, safe);
    let name = |e: EventV| text_field(e.data, "handoff_id"@);
    let k = choose|k: int| 0 <= k < s.handoffs.len() && s.handoffs[k] == h;
    crate::relay::idle::lemma_filter_map_has(s.handoffs, name, k);
    assert(v.event.decides_handoff(h.handoff()));
    crate::relay::resolution::naming_the_handoff_resolves_it(events, v.event, h);
    assert forall|x: Text| s.source_event_ids.contains(x) implies #[trigger] source_decided(
        after,
        x,
    ) by {
        assert(after[events.len() as int] == v.event);
        assert(after[events.len() as int].decides_source(x));
    }
}

/// A decision can be repeated: once it is recorded, the same request replays it, and a request on
/// the same sources that differs in the decision, the actor or the fingerprint is refused as a
/// conflict. Nothing new is recorded either way.
pub proof fn a_decision_is_replayed_or_refused(
    g: GroupV,
    events: Seq<EventV>,
    addressed: Seq<Text>,
    i: IntentV,
    ids: Seq<Text>,
    s: ScopeV,
    task_ids: Seq<Text>,
    next_task_id: Text,
    visible_event_id: Text,
    previewed: Seq<ObjV>,
    operations: Seq<ObjV>,
    now: Text,
    v: VerdictV,
    again: IntentV,
)
    requires
        resolution(g.group_id, events, addressed, i, ids) == Ok::<ResolutionV, ErrV>(
            ResolutionV::Fresh(s),
        ),
        verdict(
            g,
            events,
            previewed,
            facts(i, s, task_ids, next_task_id, visible_event_id),
            s.event_id,
            operations,
            now,
        ) == Ok::<VerdictV, ErrV>(v),
        again.by == i.by,
        i.fingerprint.len() > 0,
    ensures
        again.decision == i.decision && again.fingerprint == i.fingerprint ==> resolution(
            g.group_id,
            events.push(v.event),
            addressed,
            again,
            ids,
        ) == Ok::<ResolutionV, ErrV>(ResolutionV::Replay(v.event)),
        again.decision != i.decision || again.fingerprint != i.fingerprint ==> resolution(
            g.group_id,
            events.push(v.event),
            addressed,
            again,
            ids,
        ) == Err::<ResolutionV, ErrV>(conflict()),
{
    let f = facts(i, s, task_ids, next_task_id, visible_event_id);
    let after = events.push(v.event);
    lemma_new_decision(g.group_id, events, addressed, i, ids, s);
    let others = crate::relay::decide::others_open(events, f.by, f.handoff_ids);
    let safe = crate::relay::idle::safe_after(previewed, f.decision, others);
    let caller = g.halted() || crate::relay::idle::may_idle_after(previewed, g, f.by, others);
    a_recorded_decision_reads_back(f, caller, safe);
    assert(v.event.strings("source_event_ids"@) == s.source_event_ids);
    assert(decides_some(v.event, ids));
    lemma_first_match_push(events, v.event, |e: EventV| decides_some(e, ids));
    let covers = |e: EventV| covers_some(e, i.by, ids);
    lemma_selection(events, covers);
    lemma_selection(after, covers);
    let k = choose|k: int| 0 <= k < events.len() && covers(#[trigger] events[k]);
    assert(covers(after[k]));
    assert(covering(after, again.by, ids).len() > 0);
}

/// A request that mixes sources of a recorded decision with others is refused as a conflict, so
/// that a new report is never taken as handled along with an old one; where no handoff to the caller
/// holds any of them, it is refused for that.
pub proof fn a_mixed_batch_is_refused(
    group_id: Text,
    events: Seq<EventV>,
    addressed: Seq<Text>,
    i: IntentV,
    ids: Seq<Text>,
    existing: EventV,
)
    requires
        first_match(events, |e: EventV| decides_some(e, ids)) == Some(existing),
        !all_in(ids, existing.strings("source_event_ids"@)),
    ensures
        resolution(group_id, events, addressed, i, ids) == Err::<ResolutionV, ErrV>(
            if covering(events, i.by, ids).len() == 0 {
                refusal(
                    "relay_handoff_missing"@,
                    "source events do not belong to a relay handoff for this foreman"@,
                )
            } else {
                refusal(
                    "relay_decision_conflict"@,
                    "this batch mixes a previous decision with other reports; decide the unhandled source events separately"@,
                )
            },
        ),
{
}

/// Complete is never recorded while a live task or another open handoff of the foreman remains.
pub proof fn complete_hides_no_work(
    g: GroupV,
    events: Seq<EventV>,
    previewed: Seq<ObjV>,
    f: FactsV,
    event_id: Text,
    operations: Seq<ObjV>,
    now: Text,
)
    requires
        f.decision == "complete"@,
        verdict(g, events, previewed, f, event_id, operations, now) is Ok,
    ensures
        !some_match(previewed, |t: ObjV| crate::relay::work::live(t)),
        crate::relay::decide::others_open(events, f.by, f.handoff_ids) == 0,
{
    lemma_decisions();
}

/// Recording the handoff of a turn again appends nothing and gives the entry that is there,
/// whatever the later reports say.
pub proof fn a_handoff_is_recorded_once(
    turn: TurnV,
    reports: Seq<EventV>,
    more: Seq<EventV>,
    events: Seq<EventV>,
    coordination: ObjV,
    later: ObjV,
    now: Text,
    then: Text,
    p: HandoffPlanV,
    e: EventV,
)
    requires
        handoff_plan(turn, reports, events, coordination, now) == Ok::<HandoffPlanV, ErrV>(p),
        p.append == Some(e),
        more.len() > 0,
    ensures
        handoff_plan(turn, more, events.push(e), later, then) matches Ok(q) && q.append is None
            && q.handoff == e,
{
    lemma_handoff_keys();
    let id = short_digest(turn.handoff());
    assert(e == new_handoff(turn, reports, now));
    lemma_first_match_push(events, e, |x: EventV| x.id == id);
    assert(event_by_id(events.push(e), id) == Some(e));
    assert(text_field(e.data, "handoff_id"@) == Some(turn.handoff()));
    assert(e.data.contains_key("summary"@));
}

/// A handoff whose note says that it is resolved is never noted otherwise again.
pub proof fn a_resolved_note_stays(
    coordination: ObjV,
    handoff: EventV,
    note: JsonV,
    status: Text,
    decision_id: Option<Text>,
    escalation: Option<Text>,
)
    requires
        note_of(coordination, handoff.handoff()) == Some(note),
        note.at("status"@).text() == Some("resolved"@),
    ensures
        note_due(coordination, handoff, status, decision_id, escalation) is None,
{
}

/// A recorded decision asks for nothing more exactly when every event that it handles is accepted;
/// nothing that is accepted is accepted again.
pub proof fn nothing_is_accepted_twice(g: GroupV, events: Seq<EventV>, e: EventV, id: Text)
    requires
        e.is_decision(),
        g.find(decided_by(e)) is Some,
        text_or_empty(e.data, "decision_id"@).len() > 0,
    ensures
        acceptance(
            g,
            events,
            decided_by(e),
            e.strings("source_event_ids"@),
            e.strings("handoff_ids"@),
        ) matches Ok(a) && (acceptance_due(g, events, e) <==> a.accept.len() > 0) && (
        a.accept.contains(id) ==> !is_accepted(events, decided_by(e), id)),
{
    let all = handled(events, e.strings("source_event_ids"@), e.strings("handoff_ids"@));
    lemma_selection(all, |x: Text| !is_accepted(events, decided_by(e), x));
}

/// Every source event of a decision is among the events that it handles, each once.
pub proof fn a_decision_handles_its_sources(
    events: Seq<EventV>,
    source_ids: Seq<Text>,
    handoff_ids: Seq<Text>,
    id: Text,
)
    ensures
        source_ids.contains(id) ==> handled(events, source_ids, handoff_ids).contains(id),
        increasing(handled(events, source_ids, handoff_ids)),
{
    sorted_set_holds_the_same_texts_in_order(source_ids);
    inserting_all_keeps_order(
        sorted_set(source_ids),
        crate::relay::facts::reminder_ids(events, handoff_ids),
    );
    assert(sorted_set(source_ids).contains(id) <==> source_ids.contains(id));
}

proof fn lemma_deliveries_remind_of_nothing(
    events: Seq<EventV>,
    more: Seq<EventV>,
    handoff_ids: Seq<Text>,
)
    requires
        forall|i: int| 0 <= i < more.len() ==> (#[trigger] more[i]).kind == "runtime.delivery"@,
    ensures
        reminder_ids(events + more, handoff_ids) == reminder_ids(events, handoff_ids),
    decreases more.len(),
{
    reveal_strlit("runtime.delivery");
    reveal_strlit("chat.message");
    assert("runtime.delivery"@.len() == 16);
    assert("chat.message"@.len() == 12);
    let f = |e: EventV|
        if reminds_of(e, handoff_ids) {
            Some(e.id)
        } else {
            None
        };
    if more.len() == 0 {
        assert(events + more =~= events);
    } else {
        let all = events + more;
        let fewer = more.drop_last();
        assert(all.drop_last() =~= events + fewer);
        assert(all.last() == more[more.len() - 1]);
        lemma_deliveries_remind_of_nothing(events, fewer, handoff_ids);
        all.lemma_filter_map_take_succ(f, all.len() - 1);
        assert(all.take(all.len() as int) =~= all);
        assert(all.take(all.len() - 1) =~= all.drop_last());
    }
}

proof fn lemma_delivery_is_remembered(
    events: Seq<EventV>,
    more: Seq<EventV>,
    actor_id: Text,
    id: Text,
)
    requires
        forall|i: int|
            0 <= i < more.len() ==> text_field((#[trigger] more[i]).data, "state"@) == Some(
                "accepted"@,
            ),
    ensures
        is_accepted(events + more, actor_id, id) <==> is_accepted(events, actor_id, id) || exists|
            i: int,
        |
            0 <= i < more.len() && (#[trigger] more[i]).delivers(actor_id, id),
    decreases more.len(),
{
    let all = events + more;
    if more.len() == 0 {
        assert(all =~= events);
    } else {
        let fewer = more.drop_last();
        assert(all.drop_last() =~= events + fewer);
        assert(all.last() == more[more.len() - 1]);
        assert forall|i: int| 0 <= i < fewer.len() implies text_field(
            (#[trigger] fewer[i]).data,
            "state"@,
        ) == Some("accepted"@) by {
            assert(fewer[i] == more[i]);
        }
        lemma_delivery_is_remembered(events, fewer, actor_id, id);
        if all.last().delivers(actor_id, id) {
            assert(more[more.len() - 1].delivers(actor_id, id));
        } else {
            assert(delivery_state(all, actor_id, id) == delivery_state(
                events + fewer,
                actor_id,
                id,
            ));
            if exists|i: int| 0 <= i < fewer.len() && (#[trigger] fewer[i]).delivers(actor_id, id) {
                let k = choose|k: int|
                    0 <= k < fewer.len() && (#[trigger] fewer[k]).delivers(actor_id, id);
                assert(more[k].delivers(actor_id, id));
            }
            if exists|i: int| 0 <= i < more.len() && (#[trigger] more[i]).delivers(actor_id, id) {
                let k = choose|k: int|
                    0 <= k < more.len() && (#[trigger] more[k]).delivers(actor_id, id);
                assert(fewer[k].delivers(actor_id, id));
            }
        }
    }
}

/// Whether entries record the deliveries that were asked for: deliveries that were accepted, one for
/// each event.
pub open spec fn records_acceptance(more: Seq<EventV>, actor_id: Text, a: AcceptanceV) -> bool {
    &&& forall|i: int|
        0 <= i < more.len() ==> (#[trigger] more[i]).kind == "runtime.delivery"@ && text_field(
            more[i].data,
            "state"@,
        ) == Some("accepted"@)
    &&& forall|id: Text| #[trigger]
        a.accept.contains(id) ==> exists|i: int|
            0 <= i < more.len() && (#[trigger] more[i]).delivers(actor_id, id)
}

/// Accepting once is enough. With the deliveries recorded that were asked for, the latest delivery
/// of every event that is handled is accepted, and asking again handles the same events and asks
/// for nothing. What was asked for are just the handled events that were not accepted.
pub proof fn accepting_once_is_enough(
    g: GroupV,
    events: Seq<EventV>,
    actor_id: Text,
    source_ids: Seq<Text>,
    handoff_ids: Seq<Text>,
    a: AcceptanceV,
    more: Seq<EventV>,
    id: Text,
)
    requires
        acceptance(g, events, actor_id, source_ids, handoff_ids) == Ok::<AcceptanceV, ErrV>(a),
        records_acceptance(more, actor_id, a),
    ensures
        a.accept.contains(id) <==> a.handled.contains(id) && !is_accepted(events, actor_id, id),
        a.handled.contains(id) ==> is_accepted(events + more, actor_id, id),
        acceptance(g, events + more, actor_id, source_ids, handoff_ids) == Ok::<AcceptanceV, ErrV>(
            AcceptanceV { accept: Seq::empty(), ..a },
        ),
{
    let all = a.handled;
    lemma_deliveries_remind_of_nothing(events, more, handoff_ids);
    assert(handled(events + more, source_ids, handoff_ids) == all);
    lemma_selection(all, |x: Text| !is_accepted(events, actor_id, x));
    assert forall|x: Text| #[trigger] all.contains(x) implies is_accepted(
        events + more,
        actor_id,
        x,
    ) by {
        lemma_delivery_is_remembered(events, more, actor_id, x);
        if !is_accepted(events, actor_id, x) {
            assert(a.accept.contains(x));
        }
    }
    let open = |x: Text| !is_accepted(events + more, actor_id, x);
    lemma_selection(all, open);
    if some_match(all, open) {
        let k = choose|k: int| 0 <= k < all.len() && open(#[trigger] all[k]);
        assert(all.contains(all[k]));
    }
    assert(all.filter(open) =~= Seq::empty());
}

/// Once a delivery is recorded as accepted for each event that a decision asks for, the decision
/// asks for nothing more: reconciling it again appends nothing.
pub proof fn accepting_settles_a_decision(
    g: GroupV,
    events: Seq<EventV>,
    e: EventV,
    a: AcceptanceV,
    more: Seq<EventV>,
)
    requires
        acceptance(
            g,
            events,
            decided_by(e),
            e.strings("source_event_ids"@),
            e.strings("handoff_ids"@),
        ) == Ok::<AcceptanceV, ErrV>(a),
        records_acceptance(more, decided_by(e), a),
    ensures
        !acceptance_due(g, events + more, e),
{
    let by = decided_by(e);
    let sources = e.strings("source_event_ids"@);
    let handoffs = e.strings("handoff_ids"@);
    let all = handled(events, sources, handoffs);
    lemma_deliveries_remind_of_nothing(events, more, handoffs);
    assert(handled(events + more, sources, handoffs) == all);
    assert forall|i: int| 0 <= i < all.len() implies is_accepted(
        events + more,
        by,
        #[trigger] all[i],
    ) by {
        assert(all.contains(all[i]));
        accepting_once_is_enough(g, events, by, sources, handoffs, a, more, all[i]);
    }
}

} // verus!
