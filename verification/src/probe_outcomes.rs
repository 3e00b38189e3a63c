//! What a check of a stalled page comes to, told of the pages that were seen.

use crate::json::JsonV;
use crate::probe::{
    is_finished, may_reload, on_fresh, on_page, refreshed, ObservedV, ProbeStateV, ProbeStep,
    ProbeV,
};
use crate::text::Text;
use vstd::prelude::*;

verus! {

proof fn lemma_probe_words()
    ensures
        "state"@.len() == 5,
        "reason"@.len() == 6,
        "url"@.len() == 3,
        "source_turn"@.len() == 11,
        "completed_turn"@.len() == 14,
        "at"@.len() == 2,
        "blocked"@.len() == 7,
        "ready"@.len() == 5,
        "refreshed"@.len() == 9,
{
    reveal_strlit("state");
    reveal_strlit("reason");
    reveal_strlit("url");
    reveal_strlit("source_turn");
    reveal_strlit("completed_turn");
    reveal_strlit("at");
    reveal_strlit("blocked");
    reveal_strlit("ready");
    reveal_strlit("refreshed");
}

/// Whether the last check found a page blocked at a turn.
pub open spec fn was_found_blocked(s: ProbeStateV, url: Text, turn: Text) -> bool {
    &&& s.outcome.at("state"@) == JsonV::Str("blocked"@)
    &&& s.outcome.at("url"@) == JsonV::Str(url)
    &&& s.outcome.at("source_turn"@) == JsonV::Str(turn)
}

/// Whether a page asks for no check: something blocks it, it asks for a sign-in, a draft stands on
/// it, or it is at rest with a place to write.
pub open spec fn needs_no_check(o: ObservedV, sign_in: bool, composer: bool) -> bool {
    o.page_blocker.len() > 0 || sign_in || o.composer_chars > 0 || (!o.running && !o.stop_visible
        && composer)
}

/// A page that needs a check, was not found blocked at this turn before, and has none under way gets
/// one as soon as its time has come: of this page and its latest turn, for the one who looks. The
/// next check waits twice as long, up to a quarter of an hour.
pub proof fn a_stalled_page_is_checked_in_its_time(
    s: ProbeStateV,
    o: ObservedV,
    sign_in: bool,
    composer: bool,
    same_page: bool,
    owner: Text,
    now: u64,
)
    requires
        s.delay <= 900_000,
        now <= u64::MAX - 900_000,
    ensures
        ({
            let (t, step) = on_page(s, o, sign_in, composer, same_page, owner, now);
            let due = !needs_no_check(o, sign_in, composer) && !was_found_blocked(
                s,
                o.url,
                o.latest_turn_id,
            ) && s.probe is None && (s.after matches Some(at) ==> at <= now);
            &&& step == ProbeStep::Open <==> due
            &&& due ==> {
                &&& t.probe == Some(
                    ProbeV {
                        owner,
                        url: o.url,
                        source_turn: o.latest_turn_id,
                        started: now,
                        completed_turn: None,
                    },
                )
                &&& t.after == Some((now + s.delay) as u64)
                &&& t.delay == if 2 * s.delay <= 900_000 {
                    2 * s.delay
                } else {
                    900_000
                }
            }
        }),
{
}

/// A check goes on looking at its temporary page as long as the page it is about is the same one at
/// the same turn, and is given up otherwise; it is its owner's alone.
pub proof fn a_check_lasts_while_its_page_does(
    s: ProbeStateV,
    p: ProbeV,
    o: ObservedV,
    sign_in: bool,
    composer: bool,
    same_page: bool,
    owner: Text,
    now: u64,
)
    requires
        s.probe == Some(p),
        !was_found_blocked(s, o.url, o.latest_turn_id),
    ensures
        ({
            let (t, step) = on_page(s, o, sign_in, composer, same_page, owner, now);
            let same = same_page && p.url == o.url && p.source_turn == o.latest_turn_id;
            &&& p.owner != owner ==> step == ProbeStep::Rest && t.probe == s.probe
            &&& p.owner == owner && needs_no_check(o, sign_in, composer) ==> step
                == ProbeStep::Cancel && t.probe is None
            &&& p.owner == owner && !needs_no_check(o, sign_in, composer) && same ==> step
                == ProbeStep::Inspect && t == s
            &&& p.owner == owner && !needs_no_check(o, sign_in, composer) && !same ==> step
                == ProbeStep::Cancel && t.probe is None
        }),
{
}

/// A page that is at rest, or holds a draft, is not counted as blocked any more, and its next check
/// may come at once.
pub proof fn a_ready_page_starts_over(
    s: ProbeStateV,
    o: ObservedV,
    composer: bool,
    same_page: bool,
    owner: Text,
    now: u64,
)
    requires
        o.page_blocker.len() == 0,
        needs_no_check(o, false, composer),
    ensures
        ({
            let (t, _) = on_page(s, o, false, composer, same_page, owner, now);
            &&& t.after is None
            &&& t.delay == 60_000
            &&& s.outcome.at("state"@) == JsonV::Str("blocked"@) ==> t.outcome.at("state"@)
                == JsonV::Str("ready"@)
            &&& s.outcome.at("state"@) != JsonV::Str("blocked"@) ==> t.outcome == s.outcome
        }),
{
}

/// What a temporary page shows decides the check: one that is blocked or asks for a sign-in ends it,
/// and the page is noted as blocked at its turn; two answers that are alike are confirmed; half a
/// minute without them ends it; and until then the last answer is kept.
pub proof fn a_temporary_page_decides_the_check(
    s: ProbeStateV,
    p: ProbeV,
    fresh: ObservedV,
    sign_in: bool,
    completed: Option<Text>,
    now: u64,
    at: Text,
)
    requires
        s.probe == Some(p),
    ensures
        ({
            let (t, step) = on_fresh(s, fresh, sign_in, completed, p.owner, now, at);
            let stopped = sign_in || fresh.page_blocker.len() > 0;
            let alike = completed is Some && p.completed_turn == completed;
            let late = now - p.started >= 30_000;
            &&& stopped ==> {
                &&& step == ProbeStep::Cancel
                &&& t.probe is None
                &&& was_found_blocked(t, p.url, p.source_turn)
                &&& t.outcome.at("reason"@) == JsonV::Str(
                    if sign_in {
                        "login_required"@
                    } else {
                        fresh.page_blocker
                    },
                )
            }
            &&& !stopped && alike ==> step == ProbeStep::Confirm && t == s
            &&& !stopped && !alike && late ==> step == ProbeStep::Cancel && t.probe is None
            &&& !stopped && !alike && !late ==> step == ProbeStep::Rest && t.probe == Some(
                ProbeV { completed_turn: completed, ..p },
            )
        }),
{
    lemma_probe_words();
    reveal_strlit("login_required");
    assert("login_required"@.len() == 14);
}

/// A page is loaded again only where it still is the one that was checked at the same turn, without
/// a draft, and still stalled; then it is noted as refreshed, with the answer that was found.
pub proof fn a_page_is_loaded_again_while_it_is_stalled(
    p: ProbeV,
    latest: ObservedV,
    composer: bool,
    s: ProbeStateV,
    url: Text,
    turn: Option<Text>,
    at: Text,
)
    ensures
        may_reload(p, latest, composer) <==> latest.url == p.url && latest.latest_turn_id
            == p.source_turn && latest.composer_chars == 0 && (latest.running
            || latest.stop_visible || !composer),
        ({
            let t = refreshed(s, url, turn, at);
            &&& t.after is None
            &&& t.delay == 60_000
            &&& t.probe == s.probe
            &&& t.outcome.at("state"@) == JsonV::Str("refreshed"@)
            &&& t.outcome.at("url"@) == JsonV::Str(url)
            &&& turn matches Some(a) ==> t.outcome.at("completed_turn"@) == JsonV::Str(a)
        }),
{
    lemma_probe_words();
}

/// A temporary page tells an answer only where it is the page that was asked for, at rest, unblocked,
/// signed in, without a draft and with a place to write.
pub proof fn a_finished_page_tells_its_answer(
    o: ObservedV,
    url: Text,
    sign_in: bool,
    composer: bool,
)
    ensures
        is_finished(o, url, sign_in, composer) <==> o.url == url && !o.running && !o.stop_visible
            && o.page_blocker.len() == 0 && o.composer_chars == 0 && !sign_in && composer,
{
}

} // verus!
