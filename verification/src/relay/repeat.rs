//! What holds over two requests on the same reports: a decision that was made is repeated without
//! effect, and one that was refused for work that is left can be made once the work is done.

use crate::json::{field, text_field, JsonV, ObjV};
use crate::lists::{first_match, lemma_selection, overlaps, some_match};
use crate::model::{refusal, ErrV, EventV, GroupV, RequestV};
use crate::relay::decide::{
    all_in, covering, decision_answer, facts, others_open, resolution, ResolutionV, ScopeV,
    VerdictV,
};
use crate::relay::facts::{covers_some, decides_some, handoff_decided, source_decided, unresolved};
use crate::relay::flow::{
    context_step, first_step, preview_step, recorded_step, reread_step, DecideStepV, DraftV,
};
use crate::relay::handoff::{covered, event_ids, implicit, implicit_turn, new_handoff};
use crate::relay::intent::{intent, IntentV};
use crate::relay::notes::{decision_data, FactsV};
use crate::relay::sources::{
    event_by_id, source, sources_of, stand_for, stands_for, with_open_sources,
};
use crate::relay::work::{all_task_moves, live, task_by_id, task_moves, task_status};
use crate::relay::words::{
    lemma_answer_keys, lemma_decision_keys, lemma_decisions, lemma_handoff_keys, lemma_request_keys,
};
use crate::text::Text;
use vstd::prelude::*;

verus! {

proof fn lemma_first_match_behind<A>(a: Seq<A>, b: Seq<A>, p: spec_fn(A) -> bool)
    ensures
        first_match(a + b, p) == (match first_match(a, p) {
            Some(x) => Some(x),
            None => first_match(b, p),
        }),
    decreases a.len(),
{
    if a.len() == 0 {
        assert(a + b =~= b);
    } else {
        assert((a + b).drop_first() =~= a.drop_first() + b);
        lemma_first_match_behind(a.drop_first(), b, p);
    }
}

proof fn lemma_no_match<A>(s: Seq<A>, p: spec_fn(A) -> bool)
    requires
        forall|i: int| 0 <= i < s.len() ==> !p(#[trigger] s[i]),
    ensures
        first_match(s, p) is None,
    decreases s.len(),
{
    if s.len() > 0 {
        assert(!p(s[0]));
        assert forall|i: int| 0 <= i < s.drop_first().len() implies !p(
            #[trigger] s.drop_first()[i],
        ) by {
            assert(s.drop_first()[i] == s[i + 1]);
        }
        lemma_no_match(s.drop_first(), p);
    }
}

/// Whether all ids of the first list are in the second.
pub open spec fn within(a: Seq<Text>, b: Seq<Text>) -> bool {
    forall|id: Text| #[trigger] a.contains(id) ==> b.contains(id)
}

proof fn lemma_event_stays(events: Seq<EventV>, more: Seq<EventV>, id: Text)
    requires
        event_by_id(events, id) is Some,
    ensures
        event_by_id(events + more, id) == event_by_id(events, id),
{
    lemma_first_match_behind(events, more, |e: EventV| e.id == id);
}

proof fn lemma_stand_for_stays(
    events: Seq<EventV>,
    more: Seq<EventV>,
    addressed: Seq<Text>,
    wider: Seq<Text>,
    by: Text,
    ids: Seq<Text>,
)
    requires
        within(addressed, wider),
        stand_for(events, addressed, by, ids) is Ok,
    ensures
        stand_for(events + more, wider, by, ids) == stand_for(events, addressed, by, ids),
    decreases ids.len(),
{
    if ids.len() > 0 {
        lemma_stand_for_stays(events, more, addressed, wider, by, ids.drop_last());
        assert(stands_for(events, addressed, by, ids.last()) is Ok);
        lemma_event_stays(events, more, ids.last());
    }
}

proof fn lemma_sources_stay(
    events: Seq<EventV>,
    more: Seq<EventV>,
    addressed: Seq<Text>,
    wider: Seq<Text>,
    by: Text,
    ids: Seq<Text>,
)
    requires
        within(addressed, wider),
        sources_of(events, addressed, by, ids) is Ok,
    ensures
        sources_of(events + more, wider, by, ids) == sources_of(events, addressed, by, ids),
    decreases ids.len(),
{
    if ids.len() > 0 {
        lemma_sources_stay(events, more, addressed, wider, by, ids.drop_last());
        assert(source(events, addressed, by, ids.last()) is Ok);
        lemma_event_stays(events, more, ids.last());
    }
}

proof fn lemma_covered_stays(
    events: Seq<EventV>,
    more: Seq<EventV>,
    by: Text,
    sources: Seq<EventV>,
    id: Text,
)
    requires
        covered(events, by, sources, id),
    ensures
        covered(events + more, by, sources, id),
{
    let k = choose|k: int|
        0 <= k < events.len() && covers_some(#[trigger] events[k], by, event_ids(sources))
            && events[k].strings("source_event_ids"@).contains(id);
    assert((events + more)[k] == events[k]);
}

proof fn lemma_reports_or_covered(
    events: Seq<EventV>,
    by: Text,
    sources: Seq<EventV>,
    n: nat,
    k: int,
)
    requires
        n <= sources.len(),
        0 <= k < n,
        implicit(events, by, sources, n).1 is None,
    ensures
        covered(events, by, sources, sources[k].id) || implicit(events, by, sources, n).0.contains(
            sources[k],
        ),
    decreases n,
{
    let (known, refused) = implicit(events, by, sources, (n - 1) as nat);
    let all = implicit(events, by, sources, n).0;
    assert(refused is None);
    if k < n - 1 {
        lemma_reports_or_covered(events, by, sources, (n - 1) as nat, k);
        if known.contains(sources[k]) {
            let j = choose|j: int| 0 <= j < known.len() && known[j] == sources[k];
            assert(all[j] == sources[k]);
        }
    } else if !covered(events, by, sources, sources[k].id) {
        assert(all[known.len() as int] == sources[k]);
    }
}

proof fn lemma_nothing_to_record(events: Seq<EventV>, by: Text, sources: Seq<EventV>, n: nat)
    requires
        n <= sources.len(),
        forall|k: int|
            0 <= k < sources.len() ==> covered(events, by, sources, (#[trigger] sources[k]).id),
    ensures
        implicit(events, by, sources, n) == (Seq::<EventV>::empty(), None::<ErrV>),
    decreases n,
{
    if n > 0 {
        lemma_nothing_to_record(events, by, sources, (n - 1) as nat);
        assert(covered(events, by, sources, sources[n - 1].id));
    }
}

/// Whether two requests are the same but for the wording of their summary.
pub open spec fn same_but_summary(a: ObjV, b: ObjV) -> bool {
    a.remove("summary"@) == b.remove("summary"@)
}

proof fn lemma_member_stays(a: ObjV, b: ObjV, key: Text)
    requires
        same_but_summary(a, b),
        key != "summary"@,
    ensures
        field(a, key) == field(b, key),
        text_field(a, key) == text_field(b, key),
{
    let x = a.remove("summary"@);
    let y = b.remove("summary"@);
    assert(x.contains_key(key) == a.contains_key(key));
    assert(y.contains_key(key) == b.contains_key(key));
    if a.contains_key(key) {
        assert(x[key] == a[key]);
        assert(y[key] == b[key]);
    }
}

/// Two requests that differ only in their summary ask for the same, whenever the caller is the
/// foreman and, if they ask to continue, the group is not halted.
pub proof fn the_summary_changes_no_request(a: ObjV, b: ObjV, g: GroupV, h: GroupV, i: IntentV)
    requires
        same_but_summary(a, b),
        intent(a, g) == Ok::<IntentV, ErrV>(i),
        h.is_foreman(i.by),
        i.decision == "continue"@ ==> !h.halted(),
    ensures
        intent(b, h) == Ok::<IntentV, ErrV>(i),
{
    lemma_request_keys();
    lemma_member_stays(a, b, "by"@);
    lemma_member_stays(a, b, "actor_id"@);
    lemma_member_stays(a, b, "decision"@);
    lemma_member_stays(a, b, "reason"@);
    lemma_member_stays(a, b, "next_actor_id"@);
    lemma_member_stays(a, b, "next_title"@);
    lemma_member_stays(a, b, "next_text"@);
    lemma_member_stays(a, b, "event_id"@);
    lemma_member_stays(a, b, "event_ids"@);
    lemma_member_stays(a, b, "task_id"@);
    lemma_member_stays(a, b, "outcome"@);
    lemma_member_stays(a, b, "task_priority"@);
    lemma_member_stays(a, b, "checklist"@);
    lemma_member_stays(a, b, "insight"@);
}

/// What a first request went through until its decision was recorded: it was heard over a ledger,
/// the handoffs of its reports were recorded behind that ledger, its context was tried, and the
/// decision was ready to be recorded.
pub struct FirstRequest {
    pub args: ObjV,
    pub group: GroupV,
    pub events: Seq<EventV>,
    pub addressed: Seq<Text>,
    pub recorded: Seq<EventV>,
    pub then_addressed: Seq<Text>,
    pub intent: IntentV,
    pub ids: Seq<Text>,
    pub reports: Seq<EventV>,
    pub sources: Seq<EventV>,
    pub draft: DraftV,
}

impl FirstRequest {
    /// The ledger with the handoffs recorded.
    pub open spec fn ledger(self) -> Seq<EventV> {
        self.events + self.recorded
    }

    /// Whether the request went this way: the steps lead to it, and every report that was to be
    /// recorded is covered by a handoff behind the ledger.
    pub open spec fn went_through(self) -> bool {
        &&& first_step(self.args, self.group, self.events, self.addressed) == DecideStepV::Record(
            self.intent,
            self.ids,
            self.reports,
            None,
        )
        &&& sources_of(self.events, self.addressed, self.intent.by, self.ids) == Ok::<
            Seq<EventV>,
            ErrV,
        >(self.sources)
        &&& within(self.addressed, self.then_addressed)
        &&& forall|k: int|
            0 <= k < self.reports.len() ==> covered(
                self.ledger(),
                self.intent.by,
                self.sources,
                (#[trigger] self.reports[k]).id,
            )
        &&& recorded_step(
            self.group,
            self.ledger(),
            self.then_addressed,
            self.intent,
            self.ids,
        ) == DecideStepV::Context(self.draft)
    }
}

pub(crate) proof fn lemma_heard_again(
    r: FirstRequest,
    args: ObjV,
    group: GroupV,
    more: Seq<EventV>,
    addressed: Seq<Text>,
)
    requires
        r.went_through(),
        same_but_summary(r.args, args),
        group.is_foreman(r.intent.by),
        r.intent.decision == "continue"@ ==> !group.halted(),
        within(r.then_addressed, addressed),
    ensures
        first_step(args, group, r.ledger() + more, addressed) == DecideStepV::Record(
            r.intent,
            r.ids,
            Seq::empty(),
            None,
        ),
{
    let i = r.intent;
    let all = r.ledger() + more;
    assert(intent(r.args, r.group) == Ok::<IntentV, ErrV>(i));
    the_summary_changes_no_request(r.args, args, r.group, group, i);
    assert(all =~= r.events + (r.recorded + more));
    assert(within(r.addressed, addressed));
    lemma_stand_for_stays(r.events, r.recorded + more, r.addressed, addressed, i.by, i.requested);
    lemma_sources_stay(r.events, r.recorded + more, r.addressed, addressed, i.by, r.ids);
    let n = r.sources.len();
    assert forall|k: int| 0 <= k < n implies covered(
        all,
        i.by,
        r.sources,
        (#[trigger] r.sources[k]).id,
    ) by {
        lemma_reports_or_covered(r.events, i.by, r.sources, n, k);
        if covered(r.events, i.by, r.sources, r.sources[k].id) {
            lemma_covered_stays(r.events, r.recorded + more, i.by, r.sources, r.sources[k].id);
        } else {
            let j = choose|j: int| 0 <= j < r.reports.len() && r.reports[j] == r.sources[k];
            assert(covered(r.ledger(), i.by, r.sources, r.reports[j].id));
            lemma_covered_stays(r.ledger(), more, i.by, r.sources, r.sources[k].id);
        }
    }
    lemma_nothing_to_record(all, i.by, r.sources, n);
}

proof fn lemma_fingerprint_is_there(args: ObjV, g: GroupV, i: IntentV)
    requires
        intent(args, g) == Ok::<IntentV, ErrV>(i),
    ensures
        i.fingerprint.len() > 0,
{
    reveal_strlit("relay-intent:");
    assert("relay-intent:"@.len() == 13);
}

/// A request that is repeated, whatever its summary says now, replays the decision that was
/// recorded: nothing is recorded, sent or written again. The answer tells the recorded decision as
/// the first one did, and the account of the group as it is now.
pub proof fn a_repeated_request_replays_its_decision(
    r: FirstRequest,
    task_ids: Seq<Text>,
    next_task_id: Text,
    message_id: Text,
    previewed: Seq<ObjV>,
    operations: Seq<ObjV>,
    now: Text,
    v: VerdictV,
    between: Seq<EventV>,
    later: Seq<EventV>,
    args: ObjV,
    group: GroupV,
    addressed: Seq<Text>,
    then: JsonV,
    current: JsonV,
)
    requires
        r.went_through(),
        preview_step(
            r.group,
            r.ledger(),
            previewed,
            r.draft,
            facts(r.intent, r.draft.scope, task_ids, next_task_id, message_id),
            operations,
            now,
        ) == DecideStepV::Commit(v),
        forall|k: int| 0 <= k < between.len() ==> !(#[trigger] between[k]).is_decision(),
        same_but_summary(r.args, args),
        group.is_foreman(r.intent.by),
        r.intent.decision == "continue"@ ==> !group.halted(),
        within(r.then_addressed, addressed),
    ensures
        first_step(
            args,
            group,
            r.ledger() + between.push(v.event) + later,
            addressed,
        ) == DecideStepV::Record(r.intent, r.ids, Seq::empty(), None),
        recorded_step(
            group,
            r.ledger() + between.push(v.event) + later,
            addressed,
            r.intent,
            r.ids,
        ) == DecideStepV::Replay(v.event),
        decision_answer(v.event, current, true)["relay"@] == decision_answer(
            v.event,
            then,
            false,
        )["relay"@],
        decision_answer(v.event, current, true)["replayed"@] == JsonV::Bool(true),
        decision_answer(v.event, current, true)["safe_to_idle"@] == current.at("safe_to_idle"@),
        decision_answer(v.event, current, true)["current_responsibility"@] == current.at(
            "responsibility"@,
        ),
{
    let i = r.intent;
    let s = r.draft.scope;
    let f = facts(i, s, task_ids, next_task_id, message_id);
    let more = between.push(v.event) + later;
    let all = r.ledger() + between.push(v.event) + later;
    assert(all =~= r.ledger() + more);
    lemma_heard_again(r, args, group, more, addressed);
    lemma_fingerprint_is_there(r.args, r.group, i);
    crate::relay::laws::lemma_new_decision(
        r.group.group_id,
        r.ledger(),
        r.then_addressed,
        i,
        r.ids,
        s,
    );
    let others = others_open(r.ledger(), f.by, f.handoff_ids);
    let safe = crate::relay::idle::safe_after(previewed, f.decision, others);
    let caller = r.group.halted() || crate::relay::idle::may_idle_after(
        previewed,
        r.group,
        f.by,
        others,
    );
    crate::relay::laws::a_recorded_decision_reads_back(f, caller, safe);
    let decides = |e: EventV| decides_some(e, r.ids);
    assert(v.event.strings("source_event_ids"@) == s.source_event_ids);
    assert(decides(v.event));
    lemma_first_match_behind(r.ledger(), more, decides);
    lemma_no_match(between, decides);
    assert(more =~= between + (seq![v.event] + later));
    lemma_first_match_behind(between, seq![v.event] + later, decides);
    assert((seq![v.event] + later)[0] == v.event);
    assert(first_match(all, decides) == Some(v.event));
    let covers = |e: EventV| covers_some(e, i.by, r.ids);
    lemma_selection(r.ledger(), covers);
    lemma_selection(all, covers);
    let k = choose|k: int| 0 <= k < r.ledger().len() && covers(#[trigger] r.ledger()[k]);
    assert(all[k] == r.ledger()[k]);
    assert(covers(all[k]));
    assert(covering(all, i.by, r.ids).len() > 0);
    lemma_answer_keys();
}

/// Recording the handoff of a report covers the report.
pub proof fn a_recorded_report_is_covered(
    events: Seq<EventV>,
    group_id: Text,
    by: Text,
    sources: Seq<EventV>,
    k: int,
    now: Text,
    more: Seq<EventV>,
)
    requires
        0 <= k < sources.len(),
    ensures
        covered(
            events.push(new_handoff(implicit_turn(group_id, sources[k], by), seq![sources[k]], now))
                + more,
            by,
            sources,
            sources[k].id,
        ),
{
    lemma_handoff_keys();
    let e = new_handoff(implicit_turn(group_id, sources[k], by), seq![sources[k]], now);
    let id = sources[k].id;
    assert(event_ids(seq![sources[k]]) =~= seq![id]);
    crate::relay::laws::lemma_strings_of_text_array(seq![id]);
    assert(e.strings("source_event_ids"@) == seq![id]);
    assert(e.strings("source_event_ids"@)[0] == id);
    assert(event_ids(sources)[k] == id);
    assert(event_ids(sources).contains(id));
    let all = events.push(e) + more;
    assert(all[events.len() as int] == e);
    assert(covers_some(all[events.len() as int], by, event_ids(sources)));
    assert(all[events.len() as int].strings("source_event_ids"@).contains(id));
}

/// Whether an entry leaves what a decision is about alone: it hands over none of its sources to the
/// same actor, and decides none of its sources and none of its handoffs.
pub open spec fn leaves_alone(e: EventV, by: Text, s: ScopeV) -> bool {
    &&& !covers_some(e, by, s.source_event_ids)
    &&& !decides_some(e, s.source_event_ids)
    &&& forall|k: int|
        0 <= k < s.handoffs.len() ==> !e.decides_handoff((#[trigger] s.handoffs[k]).handoff())
}

proof fn lemma_decided_stays(events: Seq<EventV>, more: Seq<EventV>, id: Text)
    requires
        forall|k: int| 0 <= k < more.len() ==> !(#[trigger] more[k]).decides_source(id),
    ensures
        source_decided(events + more, id) == source_decided(events, id),
{
    let all = events + more;
    if source_decided(events, id) {
        let k = choose|k: int| 0 <= k < events.len() && (#[trigger] events[k]).decides_source(id);
        assert(all[k].decides_source(id));
    }
    if source_decided(all, id) {
        let k = choose|k: int| 0 <= k < all.len() && (#[trigger] all[k]).decides_source(id);
        if k >= events.len() {
            assert(!more[k - events.len()].decides_source(id));
        } else {
            assert(events[k].decides_source(id));
        }
    }
}

proof fn lemma_decided_is_kept(events: Seq<EventV>, more: Seq<EventV>, id: Text)
    requires
        source_decided(events, id),
    ensures
        source_decided(events + more, id),
{
    let k = choose|k: int| 0 <= k < events.len() && (#[trigger] events[k]).decides_source(id);
    assert((events + more)[k].decides_source(id));
}

proof fn lemma_same_filter<A>(s: Seq<A>, p: spec_fn(A) -> bool, q: spec_fn(A) -> bool)
    requires
        forall|k: int| 0 <= k < s.len() ==> p(#[trigger] s[k]) == q(s[k]),
    ensures
        s.filter(p) == s.filter(q),
    decreases s.len(),
{
    reveal(Seq::filter);
    if s.len() > 0 {
        let d = s.drop_last();
        assert forall|k: int| 0 <= k < d.len() implies p(#[trigger] d[k]) == q(d[k]) by {
            assert(d[k] == s[k]);
        }
        lemma_same_filter(d, p, q);
        assert(p(s[s.len() - 1]) == q(s[s.len() - 1]));
    }
}

proof fn lemma_filter_behind<A>(a: Seq<A>, b: Seq<A>, p: spec_fn(A) -> bool)
    requires
        forall|k: int| 0 <= k < b.len() ==> !p(#[trigger] b[k]),
    ensures
        (a + b).filter(p) == a.filter(p),
    decreases b.len(),
{
    reveal(Seq::filter);
    if b.len() == 0 {
        assert(a + b =~= a);
    } else {
        assert((a + b).drop_last() =~= a + b.drop_last());
        assert((a + b).last() == b[b.len() - 1]);
        assert forall|k: int| 0 <= k < b.drop_last().len() implies !p(
            #[trigger] b.drop_last()[k],
        ) by {
            assert(b.drop_last()[k] == b[k]);
        }
        lemma_filter_behind(a, b.drop_last(), p);
    }
}

proof fn lemma_unresolved_stays(
    events: Seq<EventV>,
    more: Seq<EventV>,
    h: EventV,
    by: Text,
    s: ScopeV,
)
    requires
        forall|k: int| 0 <= k < more.len() ==> leaves_alone(#[trigger] more[k], by, s),
        s.handoffs.contains(h),
        forall|x: Text| #[trigger]
            unresolved(events, h).contains(x) ==> s.source_event_ids.contains(x),
    ensures
        unresolved(events + more, h) == unresolved(events, h),
{
    let all = events + more;
    let m = choose|m: int| 0 <= m < s.handoffs.len() && s.handoffs[m] == h;
    if handoff_decided(events, h.handoff()) {
        let k = choose|k: int|
            0 <= k < events.len() && (#[trigger] events[k]).decides_handoff(h.handoff());
        assert(all[k].decides_handoff(h.handoff()));
    } else {
        if handoff_decided(all, h.handoff()) {
            let k = choose|k: int|
                0 <= k < all.len() && (#[trigger] all[k]).decides_handoff(h.handoff());
            if k < events.len() {
                assert(events[k].decides_handoff(h.handoff()));
            } else {
                assert(leaves_alone(more[k - events.len()], by, s));
                assert(!more[k - events.len()].decides_handoff(s.handoffs[m].handoff()));
            }
        }
        let src = h.strings("source_event_ids"@);
        let p = |id: Text| !source_decided(events, id);
        let q = |id: Text| !source_decided(all, id);
        lemma_selection(src, p);
        assert forall|k: int| 0 <= k < src.len() implies p(#[trigger] src[k]) == q(src[k]) by {
            let id = src[k];
            if source_decided(events, id) {
                lemma_decided_is_kept(events, more, id);
            } else {
                assert(src.contains(id));
                assert(unresolved(events, h).contains(id));
                assert(s.source_event_ids.contains(id));
                assert forall|j: int| 0 <= j < more.len() implies !(
                #[trigger] more[j]).decides_source(id) by {
                    assert(leaves_alone(more[j], by, s));
                    if more[j].decides_source(id) {
                        let ids = more[j].strings("source_event_ids"@);
                        let a = choose|a: int| 0 <= a < ids.len() && ids[a] == id;
                        assert(s.source_event_ids.contains(ids[a]));
                        assert(decides_some(more[j], s.source_event_ids));
                    }
                }
                lemma_decided_stays(events, more, id);
            }
        }
        lemma_same_filter(src, p, q);
    }
}

proof fn lemma_open_sources_stay(
    ids: Seq<Text>,
    handoffs: Seq<EventV>,
    events: Seq<EventV>,
    more: Seq<EventV>,
    by: Text,
    s: ScopeV,
)
    requires
        forall|k: int| 0 <= k < more.len() ==> leaves_alone(#[trigger] more[k], by, s),
        forall|h: EventV| #[trigger] handoffs.contains(h) ==> s.handoffs.contains(h),
        forall|h: EventV, x: Text|
            handoffs.contains(h) && #[trigger] unresolved(events, h).contains(x)
                ==> s.source_event_ids.contains(x),
    ensures
        with_open_sources(ids, handoffs, events + more) == with_open_sources(ids, handoffs, events),
    decreases handoffs.len(),
{
    if handoffs.len() > 0 {
        let d = handoffs.drop_last();
        assert forall|h: EventV| #[trigger] d.contains(h) implies s.handoffs.contains(h) by {
            let k = choose|k: int| 0 <= k < d.len() && d[k] == h;
            assert(handoffs[k] == h);
            assert(handoffs.contains(h));
        }
        assert forall|h: EventV, x: Text|
            d.contains(h) && #[trigger] unresolved(events, h).contains(
                x,
            ) implies s.source_event_ids.contains(x) by {
            let k = choose|k: int| 0 <= k < d.len() && d[k] == h;
            assert(handoffs[k] == h);
            assert(handoffs.contains(h));
        }
        lemma_open_sources_stay(ids, d, events, more, by, s);
        assert(handoffs.contains(handoffs.last()));
        lemma_unresolved_stays(events, more, handoffs.last(), by, s);
    }
}

proof fn lemma_overlap_widens(a: Seq<Text>, ids: Seq<Text>, all: Seq<Text>)
    requires
        overlaps(a, ids),
        all_in(ids, all),
    ensures
        overlaps(a, all),
{
    let k = choose|k: int| 0 <= k < a.len() && ids.contains(#[trigger] a[k]);
    let m = choose|m: int| 0 <= m < ids.len() && ids[m] == a[k];
    assert(all.contains(ids[m]));
    assert(all.contains(a[k]));
}

/// A decision that is not made yet stays the same decision while other things happen: over a ledger
/// with more entries that leave its sources and handoffs alone, the same request has the same
/// scope.
pub proof fn an_open_decision_keeps_its_scope(
    group_id: Text,
    events: Seq<EventV>,
    addressed: Seq<Text>,
    i: IntentV,
    ids: Seq<Text>,
    s: ScopeV,
    more: Seq<EventV>,
    wider: Seq<Text>,
)
    requires
        resolution(group_id, events, addressed, i, ids) == Ok::<ResolutionV, ErrV>(
            ResolutionV::Fresh(s),
        ),
        within(addressed, wider),
        forall|k: int| 0 <= k < more.len() ==> leaves_alone(#[trigger] more[k], i.by, s),
    ensures
        resolution(group_id, events + more, wider, i, ids) == Ok::<ResolutionV, ErrV>(
            ResolutionV::Fresh(s),
        ),
{
    let all = events + more;
    let by = i.by;
    crate::relay::laws::lemma_new_decision(group_id, events, addressed, i, ids, s);
    let initial = covering(events, by, ids);
    let covers = |e: EventV| covers_some(e, by, ids);
    let decides = |e: EventV| decides_some(e, ids);
    let covers_all = |e: EventV| covers_some(e, by, s.source_event_ids);
    let decides_all = |e: EventV| decides_some(e, s.source_event_ids);
    assert forall|k: int| 0 <= k < more.len() implies !covers(#[trigger] more[k]) && !decides(
        more[k],
    ) && !covers_all(more[k]) && !decides_all(more[k]) by {
        assert(leaves_alone(more[k], by, s));
        if covers(more[k]) {
            lemma_overlap_widens(more[k].strings("source_event_ids"@), ids, s.source_event_ids);
        }
        if decides(more[k]) {
            lemma_overlap_widens(more[k].strings("source_event_ids"@), ids, s.source_event_ids);
        }
    }
    lemma_filter_behind(events, more, covers);
    lemma_filter_behind(events, more, covers_all);
    lemma_first_match_behind(events, more, decides);
    lemma_no_match(more, decides);
    lemma_first_match_behind(events, more, decides_all);
    lemma_no_match(more, decides_all);
    lemma_selection(events, covers);
    lemma_selection(events, covers_all);
    assert forall|h: EventV| #[trigger] initial.contains(h) implies s.handoffs.contains(h) by {
        assert(events.contains(h) && covers(h));
        lemma_overlap_widens(h.strings("source_event_ids"@), ids, s.source_event_ids);
        assert(covers_all(h));
    }
    crate::relay::laws::lemma_with_open_sources(ids, initial, events);
    lemma_open_sources_stay(ids, initial, events, more, by, s);
    lemma_sources_stay(events, more, addressed, wider, by, s.source_event_ids);
}

/// Complete is refused for work that is left exactly while there is some, and it can be made once
/// there is none.
///
/// On the way to a refusal nothing is sent and nothing is written: there is no next work, the
/// context is only tried, and the refusal comes before anything is committed. Over a ledger with
/// more entries that leave its reports alone, the same request is the same decision again; once the
/// tried context has no live task and no other handoff waits, it is recorded, and the record says
/// that the group may be quiet.
pub proof fn a_refused_complete_succeeds_once_the_work_is_done(
    g: GroupV,
    events: Seq<EventV>,
    addressed: Seq<Text>,
    i: IntentV,
    ids: Seq<Text>,
    d: DraftV,
    tasks: Seq<ObjV>,
    request: RequestV,
    client_id: Text,
    task_ids: Seq<Text>,
    previewed: Seq<ObjV>,
    operations: Seq<ObjV>,
    now: Text,
    more: Seq<EventV>,
    wider: Seq<Text>,
)
    requires
        i.decision == "complete"@,
        recorded_step(g, events, addressed, i, ids) == DecideStepV::Context(d),
        within(addressed, wider),
        forall|k: int| 0 <= k < more.len() ==> leaves_alone(#[trigger] more[k], i.by, d.scope),
    ensures
        ({
            let f = facts(i, d.scope, task_ids, Seq::empty(), Seq::empty());
            let step = preview_step(g, events, previewed, d, f, operations, now);
            let left = some_match(previewed, |t: ObjV| live(t)) || others_open(
                events,
                i.by,
                d.scope.handoff_ids,
            ) > 0;
            &&& !(context_step(g, events, tasks, request, client_id, d) is Send)
            &&& reread_step(tasks, d, task_ids, Seq::empty(), Seq::empty(), now)
                == DecideStepV::Preview(
                d,
                f,
                crate::relay::decide::draft_operations(tasks, f, d.scope.handoffs, now),
            )
            &&& left ==> step == DecideStepV::Refused(
                refusal(
                    "relay_work_remains"@,
                    "complete is not allowed while another live task or unresolved handoff remains"@,
                ),
            )
            &&& !left ==> step is Commit && step->Commit_0.event.data["safe_to_idle"@]
                == JsonV::Bool(true)
            &&& recorded_step(g, events + more, wider, i, ids) == DecideStepV::Context(d)
        }),
{
    let f = facts(i, d.scope, task_ids, Seq::empty(), Seq::empty());
    lemma_decisions();
    let others = others_open(events, f.by, f.handoff_ids);
    let caller = g.halted() || crate::relay::idle::may_idle_after(previewed, g, f.by, others);
    lemma_safe_reads_back(f, caller, true);
    an_open_decision_keeps_its_scope(g.group_id, events, addressed, i, ids, d.scope, more, wider);
}

proof fn lemma_safe_reads_back(f: FactsV, caller: bool, safe: bool)
    ensures
        decision_data(f, caller, safe)["safe_to_idle"@] == JsonV::Bool(safe),
{
    lemma_decision_keys();
}

/// Completing a task that the decision is about moves it to done: the operations of complete hold
/// such a move for every task of it that is there and not archived.
pub proof fn complete_moves_its_tasks_to_done(
    tasks: Seq<ObjV>,
    ids: Seq<Text>,
    reason: Text,
    id: Text,
    t: ObjV,
)
    requires
        ids.contains(id),
        task_by_id(tasks, id) == Some(t),
        task_status(t) != "archived"@,
    ensures
        exists|k: int|
            0 <= k < all_task_moves(tasks, ids, "complete"@, reason).len() && {
                let op = #[trigger] all_task_moves(tasks, ids, "complete"@, reason)[k];
                &&& text_field(op, "op"@) == Some("task.move"@)
                &&& text_field(op, "task_id"@) == Some(id)
                &&& text_field(op, "status"@) == Some("done"@)
            },
    decreases ids.len(),
{
    reveal_strlit("op");
    reveal_strlit("task_id");
    reveal_strlit("status");
    assert("op"@.len() == 2);
    assert("task_id"@.len() == 7);
    assert("status"@.len() == 6);
    let all = all_task_moves(tasks, ids, "complete"@, reason);
    let d = ids.drop_last();
    let front = all_task_moves(tasks, d, "complete"@, reason);
    if ids.last() == id {
        let own = task_moves(t, id, "complete"@, reason);
        assert(own.len() == 2);
        assert(all == front + own);
        assert(all[front.len() as int + 1] == own[1]);
    } else {
        let k = choose|k: int| 0 <= k < ids.len() && ids[k] == id;
        assert(d[k] == id);
        complete_moves_its_tasks_to_done(tasks, d, reason, id, t);
        let m = choose|m: int|
            0 <= m < front.len() && {
                let op = #[trigger] front[m];
                &&& text_field(op, "op"@) == Some("task.move"@)
                &&& text_field(op, "task_id"@) == Some(id)
                &&& text_field(op, "status"@) == Some("done"@)
            };
        assert(all[m] == front[m]);
    }
}

} // verus!
