//! How the ledger's growth changes what is open: only decisions resolve, and nothing reopens.

use crate::lists::last_match;
use crate::model::EventV;
use crate::relay::facts::{
    decides_some, handoff_decided, pending, settled_by, source_decided, unresolved,
};
use crate::text::Text;
use vstd::prelude::*;

verus! {

proof fn lemma_filter_agrees<A>(s: Seq<A>, p: spec_fn(A) -> bool, q: spec_fn(A) -> bool)
    requires
        forall|i: int| 0 <= i < s.len() ==> p(#[trigger] s[i]) == q(s[i]),
    ensures
        s.filter(p) == s.filter(q),
    decreases s.len(),
{
    reveal(Seq::filter);
    if s.len() > 0 {
        assert forall|i: int| 0 <= i < s.drop_last().len() implies p(#[trigger] s.drop_last()[i])
            == q(s.drop_last()[i]) by {
            assert(s.drop_last()[i] == s[i]);
        }
        lemma_filter_agrees(s.drop_last(), p, q);
        assert(p(s[s.len() - 1]) == q(s[s.len() - 1]));
    }
}

proof fn lemma_decided_after(events: Seq<EventV>, e: EventV, id: Text)
    ensures
        handoff_decided(events.push(e), id) <==> handoff_decided(events, id)
            || e.decides_handoff(id),
        source_decided(events.push(e), id) <==> source_decided(events, id) || e.decides_source(id),
{
    let after = events.push(e);
    if handoff_decided(events, id) {
        let i = choose|i: int| 0 <= i < events.len() && (#[trigger] events[i]).decides_handoff(id);
        assert(after[i].decides_handoff(id));
    }
    if source_decided(events, id) {
        let i = choose|i: int| 0 <= i < events.len() && (#[trigger] events[i]).decides_source(id);
        assert(after[i].decides_source(id));
    }
    if handoff_decided(after, id) {
        let i = choose|i: int| 0 <= i < after.len() && (#[trigger] after[i]).decides_handoff(id);
        if i < events.len() {
            assert(events[i].decides_handoff(id));
        }
    }
    if source_decided(after, id) {
        let i = choose|i: int| 0 <= i < after.len() && (#[trigger] after[i]).decides_source(id);
        if i < events.len() {
            assert(events[i].decides_source(id));
        }
    }
    assert(after[events.len() as int] == e);
}

pub(crate) proof fn lemma_other_entry(events: Seq<EventV>, e: EventV, handoff: EventV)
    requires
        !e.is_decision(),
    ensures
        unresolved(events.push(e), handoff) == unresolved(events, handoff),
        settled_by(events.push(e), handoff) == settled_by(events, handoff),
{
    let after = events.push(e);
    lemma_decided_after(events, e, handoff.handoff());
    assert forall|id: Text| source_decided(after, id) == source_decided(events, id) by {
        lemma_decided_after(events, e, id);
    }
    let sources = handoff.strings("source_event_ids"@);
    lemma_filter_agrees(
        sources,
        |id: Text| !source_decided(after, id),
        |id: Text| !source_decided(events, id),
    );
    assert(after.drop_last() =~= events);
    assert(last_match(after, |x: EventV| x.decides_handoff(handoff.handoff())) == last_match(
        events,
        |x: EventV| x.decides_handoff(handoff.handoff()),
    ));
    assert(last_match(after, |x: EventV| decides_some(x, sources)) == last_match(
        events,
        |x: EventV| decides_some(x, sources),
    ));
}

/// Reading, replying and all other entries that are no decisions leave each handoff as open as it
/// was, and settled by the same decision.
pub proof fn only_decisions_resolve(events: Seq<EventV>, more: Seq<EventV>, handoff: EventV)
    requires
        forall|i: int| 0 <= i < more.len() ==> !(#[trigger] more[i]).is_decision(),
    ensures
        unresolved(events + more, handoff) == unresolved(events, handoff),
        settled_by(events + more, handoff) == settled_by(events, handoff),
    decreases more.len(),
{
    if more.len() == 0 {
        assert(events + more =~= events);
    } else {
        let d = more.drop_last();
        only_decisions_resolve(events, d, handoff);
        lemma_other_entry(events + d, more.last(), handoff);
        assert((events + d).push(more.last()) =~= events + more);
    }
}

proof fn lemma_filter_twice<A>(s: Seq<A>, p: spec_fn(A) -> bool, q: spec_fn(A) -> bool)
    ensures
        s.filter(p).filter(q) == s.filter(|x: A| p(x) && q(x)),
    decreases s.len(),
{
    reveal(Seq::filter);
    if s.len() > 0 {
        let d = s.drop_last();
        lemma_filter_twice(d, p, q);
        if p(s.last()) {
            assert(s.filter(p) =~= d.filter(p).push(s.last()));
            assert(s.filter(p).drop_last() =~= d.filter(p));
        }
    }
}

proof fn lemma_decided_in_longer(events: Seq<EventV>, more: Seq<EventV>, id: Text)
    ensures
        handoff_decided(events + more, id) <==> handoff_decided(events, id) || handoff_decided(
            more,
            id,
        ),
        source_decided(events + more, id) <==> source_decided(events, id) || source_decided(
            more,
            id,
        ),
    decreases more.len(),
{
    if more.len() == 0 {
        assert(events + more =~= events);
    } else {
        let d = more.drop_last();
        lemma_decided_in_longer(events, d, id);
        lemma_decided_after(events + d, more.last(), id);
        lemma_decided_after(d, more.last(), id);
        assert((events + d).push(more.last()) =~= events + more);
        assert(d.push(more.last()) =~= more);
    }
}

/// Nothing reopens, whatever is appended: what is open of a handoff later is what was open before,
/// in the same order, without the source events that were decided since, and nothing once the
/// handoff itself was decided.
pub proof fn nothing_reopens(events: Seq<EventV>, more: Seq<EventV>, handoff: EventV)
    ensures
        unresolved(events + more, handoff) == if handoff_decided(more, handoff.handoff()) {
            Seq::empty()
        } else {
            unresolved(events, handoff).filter(|id: Text| !source_decided(more, id))
        },
        forall|id: Text| #[trigger]
            unresolved(events + more, handoff).contains(id) ==> unresolved(
                events,
                handoff,
            ).contains(id),
        pending(events + more, handoff) ==> pending(events, handoff),
{
    let after = events + more;
    let sources = handoff.strings("source_event_ids"@);
    let open = |id: Text| !source_decided(events, id);
    let still = |id: Text| !source_decided(more, id);
    lemma_decided_in_longer(events, more, handoff.handoff());
    assert forall|i: int| 0 <= i < sources.len() implies (|id: Text| !source_decided(after, id))(
        #[trigger] sources[i],
    ) == (|id: Text| open(id) && still(id))(sources[i]) by {
        lemma_decided_in_longer(events, more, sources[i]);
    }
    lemma_filter_agrees(
        sources,
        |id: Text| !source_decided(after, id),
        |id: Text| open(id) && still(id),
    );
    lemma_filter_twice(sources, open, still);
    if handoff_decided(events, handoff.handoff()) {
        reveal(Seq::filter);
        assert(Seq::<Text>::empty().filter(still) =~= Seq::empty());
    }
    crate::lists::lemma_selection(unresolved(events, handoff), still);
}

/// A decision that names a handoff resolves every source event of it.
pub proof fn naming_the_handoff_resolves_it(events: Seq<EventV>, e: EventV, handoff: EventV)
    requires
        e.decides_handoff(handoff.handoff()),
    ensures
        unresolved(events.push(e), handoff) == Seq::<Text>::empty(),
        !pending(events.push(e), handoff),
{
    lemma_decided_after(events, e, handoff.handoff());
}

/// A decision that names no handoff but source events resolves exactly those: the others of a
/// handoff that it does not name stay open.
pub proof fn naming_sources_resolves_exactly_those(
    events: Seq<EventV>,
    e: EventV,
    handoff: EventV,
    id: Text,
)
    requires
        !e.decides_handoff(handoff.handoff()),
    ensures
        unresolved(events.push(e), handoff).contains(id) <==> unresolved(events, handoff).contains(
            id,
        ) && !e.decides_source(id),
{
    let after = events.push(e);
    lemma_decided_after(events, e, handoff.handoff());
    lemma_decided_after(events, e, id);
    let sources = handoff.strings("source_event_ids"@);
    crate::lists::lemma_selection(sources, |x: Text| !source_decided(after, x));
    crate::lists::lemma_selection(sources, |x: Text| !source_decided(events, x));
}

} // verus!
