//! What a delivery tells beside the target: the word that goes to its connector, the handling of
//! the browser, and the particulars of the facts.

use crate::delivery::attempt::{
    delivered_end, on_bound, on_completed, on_conversation, on_marked, on_open, on_settled,
    on_surface, on_wait, unverified_end,
};
use crate::delivery::image::{image_from, marked, marker, marker_chunk};
use crate::delivery::outcomes::{
    address, asks_for_a_person, lemma_members_differ, member_after, member_behind, recorded,
    recorded_behind, status_of,
};
use crate::delivery::plan::{AttemptV, EffectV, NextV, ReceiptV, SubmissionV, VisitV};
use crate::delivery::prompt::{browser_prompt, COMPATIBILITY_IMAGE_NOTE};
use crate::delivery::recovery::{
    on_judged, on_legacy_conversation, on_legacy_inspected, on_legacy_submission, on_pending_url,
    SearchV,
};
use crate::delivery::route::{all_settled, on_probe, on_start, on_statuses};
use crate::delivery::words::lemma_statuses;
use crate::json::{alike, JsonV};
use crate::relay::ids::hex_digest;
use crate::text::{after_last, is_blank, occurs, trimmed, Text};
use vstd::prelude::*;

verus! {

/// The words that the first of some effects send to the connector, in order: a status, a turn and
/// an error each.
pub open spec fn sent_behind(effects: Seq<EffectV>, n: nat) -> Seq<(Text, Text, Text)>
    decreases n,
{
    if n == 0 {
        Seq::empty()
    } else {
        match effects[n - 1] {
            EffectV::Connector(status, turn, error) => sent_behind(
                effects,
                (n - 1) as nat,
            ).push((status, turn, error)),
            _ => sent_behind(effects, (n - 1) as nat),
        }
    }
}

/// Whether effects send one word to the connector.
pub open spec fn sends_word(effects: Seq<EffectV>, status: Text, turn: Text, error: Text) -> bool {
    let all = sent_behind(effects, effects.len());
    all.len() == 1 && all[0] == (status, turn, error)
}

/// Whether effects send no word to the connector.
pub open spec fn sends_nothing(effects: Seq<EffectV>) -> bool {
    sent_behind(effects, effects.len()).len() == 0
}

/// Whether an effect is about the browser and not about the delivery.
pub open spec fn is_of_the_browser(e: EffectV) -> bool {
    e is Schedule || e is AutoClose || e is Hold
}

/// Whether effects leave the browser alone.
pub open spec fn leaves_the_browser(effects: Seq<EffectV>) -> bool {
    forall|i: int| 0 <= i < effects.len() ==> !is_of_the_browser(#[trigger] effects[i])
}

/// The text that a target names, or nothing.
pub open spec fn remembered_turn(target: JsonV) -> Text {
    match target.at("last_delivery_turn_id"@) {
        JsonV::Str(t) => t,
        _ => Seq::empty(),
    }
}

/// A connector hears of a submission once it is over: deferred where it was put off or did not go
/// out, failed where the conversation is gone. It hears nothing of one whose turn is still to be
/// closed. What the target holds as error is what the connector hears.
pub proof fn a_connector_hears_how_a_submission_went(
    v: VisitV,
    a: AttemptV,
    s: SubmissionV,
    marker: Text,
    now: Text,
)
    ensures
        ({
            let effects = on_settled(v, a, s, marker, now).effects;
            let error = member_after(v.target, effects, "last_error"@);
            match s {
                SubmissionV::Verified(_) => sends_nothing(effects) && leaves_the_browser(effects),
                SubmissionV::Ambiguous(_) => sends_nothing(effects) && leaves_the_browser(effects),
                SubmissionV::Deferred(browser) => {
                    &&& error matches JsonV::Str(e) && sends_word(
                        effects,
                        "deferred"@,
                        a.turn_id,
                        e,
                    )
                    &&& effects.len() > 0 && effects[0] == EffectV::Hold(browser)
                    &&& leaves_the_browser(effects.drop_first())
                },
                SubmissionV::Failed(e) => {
                    &&& error == JsonV::Str(e)
                    &&& sends_word(
                        effects,
                        if occurs(e, marker) {
                            "failed"@
                        } else {
                            "deferred"@
                        },
                        a.turn_id,
                        e,
                    )
                    &&& leaves_the_browser(effects)
                },
            }
        }),
{
    reveal_with_fuel(member_behind, 8);
    reveal_with_fuel(sent_behind, 8);
    lemma_members_differ();
}

proof fn lemma_end_is_heard(
    v: VisitV,
    a: AttemptV,
    browser: JsonV,
    pending: bool,
    bound_url: Text,
    bind_error: Text,
    now: Text,
)
    ensures
        sends_word(
            delivered_end(v, a, browser, pending, bound_url, bind_error, now).effects,
            "submitted"@,
            a.turn_id,
            Seq::empty(),
        ),
{
    reveal_with_fuel(sent_behind, 6);
}

/// A connector hears that its turn was submitted, without an error, once the delivery ends well:
/// completed, and bound or still waiting for its address. A turn that could not be completed is no
/// word.
pub proof fn a_connector_hears_of_a_delivery(
    v: VisitV,
    a: AttemptV,
    browser: JsonV,
    url: Text,
    error: Option<Text>,
    found: Result<Option<Text>, Text>,
    now: Text,
)
    ensures
        error is Some ==> sends_nothing(on_completed(v, a, browser, error, now).effects),
        error is None && v.target.at("kind"@) != JsonV::Str("new_chat"@) ==> sends_word(
            on_completed(v, a, browser, error, now).effects,
            "submitted"@,
            a.turn_id,
            Seq::empty(),
        ),
        sends_word(
            on_bound(v, a, browser, url, error, now).effects,
            "submitted"@,
            a.turn_id,
            Seq::empty(),
        ),
        !(found matches Ok(Some(_))) ==> sends_word(
            on_conversation(v, a, browser, found, now).effects,
            "submitted"@,
            a.turn_id,
            Seq::empty(),
        ),
{
    reveal_with_fuel(sent_behind, 3);
    lemma_end_is_heard(v, a, browser, false, Seq::empty(), Seq::empty(), now);
    lemma_end_is_heard(v, a, browser, true, Seq::empty(), Seq::empty(), now);
    lemma_end_is_heard(v, a, browser, false, url, Seq::empty(), now);
    if let Some(e) = error {
        lemma_end_is_heard(v, a, browser, true, Seq::empty(), e, now);
    }
    if let Err(e) = found {
        lemma_end_is_heard(v, a, browser, true, Seq::empty(), e, now);
    }
}

/// A connector hears of a delivery that was found again, and of one that was submitted again; of an
/// address that was waited for it hears nothing more.
pub proof fn a_connector_hears_of_a_delivery_found_again(
    v: VisitV,
    a: AttemptV,
    receipt: ReceiptV,
    browser: JsonV,
    kind: Option<Text>,
    url: Option<Text>,
    now: Text,
)
    ensures
        on_judged(v, receipt, kind, url, now) matches SearchV::Step(p) ==> sends_word(
            p.effects,
            "submitted"@,
            receipt.turn_id,
            Seq::empty(),
        ),
        sends_word(
            on_legacy_conversation(a, browser, url, now).effects,
            "submitted"@,
            a.turn_id,
            Seq::empty(),
        ),
        sends_nothing(on_pending_url(v.target, url, now).effects),
{
    reveal_with_fuel(sent_behind, 6);
}

/// What is typed for a turn is one line of the delivery, its events and its actor, the note on the
/// picture where the turn is delivered with one, and the text of the turn; the instructions that it
/// brings stand before.
pub proof fn a_prompt_is_typed_behind_its_line(
    turn: JsonV,
    target: JsonV,
    url: Text,
    actor_id: Text,
    delivery_id: Text,
    label: Text,
)
    ensures
        browser_prompt(turn, target, url, actor_id, delivery_id, label) matches Ok((typed, seed)) ==> {
            let line = "[cccc] Browser batch "@ + delivery_id + " events="@ + label + " actor="@
                + actor_id + "\n"@;
            let pictured = turn.at("delivery"@).at("web_model_mode"@) == JsonV::Str(
                "image_compat"@,
            );
            let noted = if pictured {
                line + (COMPATIBILITY_IMAGE_NOTE@ + "\n"@)
            } else {
                line
            };
            turn.at("coalesced_text"@) matches JsonV::Str(text) && match seed {
                None => typed == noted + text,
                Some(s) => typed == s.text + "\n\n"@ + (noted + text),
            }
        },
{
    if let Ok((typed, seed)) = browser_prompt(turn, target, url, actor_id, delivery_id, label) {
        let line = "[cccc] Browser batch "@ + delivery_id + " events="@ + label + " actor="@
            + actor_id + "\n"@;
        let pictured = turn.at("delivery"@).at("web_model_mode"@) == JsonV::Str("image_compat"@);
        let noted = if pictured {
            line + (COMPATIBILITY_IMAGE_NOTE@ + "\n"@)
        } else {
            line
        };
        let text = turn.at("coalesced_text"@)->Str_0;
        match seed {
            None => {
                assert(typed =~= noted + text);
            },
            Some(s) => {
                assert(typed =~= s.text + "\n\n"@ + (noted + text));
            },
        }
    }
}

/// A connector hears that its turn is ambiguous once an unverified submission is closed, and hears
/// nothing while it is not; so it hears of a submission made again that was not seen or was
/// interrupted, and of an older draft that is lost.
pub proof fn a_connector_hears_of_doubt(
    v: VisitV,
    a: AttemptV,
    s: SubmissionV,
    turn: JsonV,
    inspection: JsonV,
    message: Text,
    error: Text,
    ok: bool,
    proven: bool,
    now: Text,
)
    ensures
        ok ==> sends_word(
            unverified_end(a, message, ok, error).effects,
            "ambiguous"@,
            a.turn_id,
            message,
        ),
        !ok ==> sends_nothing(unverified_end(a, message, ok, error).effects),
        s is Ambiguous ==> ({
            let effects = on_legacy_submission(v, a, s, now).effects;
            member_after(v.target, effects, "last_error"@) matches JsonV::Str(e) && sends_word(
                effects,
                "ambiguous"@,
                a.turn_id,
                e,
            )
        }),
        !(s is Ambiguous) ==> sends_nothing(on_legacy_submission(v, a, s, now).effects),
        inspection.at("recoverable"@) != JsonV::Bool(true) ==> ({
            let effects = on_legacy_inspected(v, turn, inspection, now).effects;
            member_after(v.target, effects, "last_error"@) matches JsonV::Str(e) && sends_word(
                effects,
                "ambiguous"@,
                remembered_turn(v.target),
                e,
            )
        }),
        status_of(v.target) == JsonV::Str("legacy_recovery_submitting"@) && v.surface.at("active"@)
            == JsonV::Bool(true) ==> ({
            let effects = on_start(v, proven, now).effects;
            member_after(v.target, effects, "last_error"@) matches JsonV::Str(e) && sends_word(
                effects,
                "ambiguous"@,
                remembered_turn(v.target),
                e,
            )
        }),
{
    reveal_with_fuel(member_behind, 8);
    reveal_with_fuel(sent_behind, 8);
    lemma_members_differ();
    lemma_statuses();
}

/// A connector hears that an attempt is put off which ended before anything was sent: because the
/// target had changed, the browser did not open, or a preparation was interrupted.
pub proof fn a_connector_hears_of_an_attempt_put_off(
    v: VisitV,
    a: AttemptV,
    error: Text,
    proven: bool,
    now: Text,
)
    ensures
        sends_word(on_open(v, a, Some(error)).effects, "deferred"@, a.turn_id, error),
        sends_word(
            on_marked(v, a, false).effects,
            "deferred"@,
            a.turn_id,
            "browser binding or target changed before preparation"@,
        ),
        status_of(v.target) == JsonV::Str("preparing"@) && v.surface.at("active"@) == JsonV::Bool(
            true,
        ) && !(on_start(v, proven, now).next is Fail) ==> sends_word(
            on_start(v, proven, now).effects,
            "deferred"@,
            remembered_turn(v.target),
            "browser preparation was interrupted before any Send action"@,
        ),
{
    reveal_with_fuel(sent_behind, 8);
    lemma_statuses();
}

/// Whether a page has a draft in its composer.
pub open spec fn holds_a_draft(page: JsonV) -> bool {
    page.at("composer_chars"@).count() matches Some(n) && n != 0
}

/// A browser that a visit opens, or takes over free of a draft and of what a person has to do, is
/// scheduled to be closed; any other is left as it is.
pub proof fn a_browser_that_is_taken_over_is_closed(
    v: VisitV,
    a: AttemptV,
    blocker: Option<JsonV>,
    blocked: JsonV,
    proven: bool,
    now: Text,
)
    ensures
        v.surface.at("active"@) != JsonV::Bool(true) ==> ({
            let effects = on_marked(v, a, true).effects;
            effects.len() == 2 && effects[0] is Schedule && effects[1] is AutoClose
        }),
        v.surface.at("active"@) == JsonV::Bool(true) ==> on_marked(v, a, true).effects.len() == 0,
        ({
            let effects = on_surface(v, a, blocker).effects;
            let free = match blocker {
                None => true,
                Some(b) => !holds_a_draft(b) && !asks_for_a_person(b),
            };
            &&& free ==> effects.len() == 2 && effects[0] is AutoClose && effects[1] is Schedule
            &&& !free ==> effects.len() == 0
        }),
        ({
            let effects = on_probe(v, Some(blocked), proven, now).effects;
            let free = v.manage_browser && !holds_a_draft(blocked) && !asks_for_a_person(blocked);
            let news = !alike(
                blocked.at("submission_evidence"@),
                v.target.at("last_submission_evidence"@).at("submission_evidence"@),
            );
            &&& effects.len() == 1 + if free {
                2int
            } else {
                0
            } + if news {
                1int
            } else {
                0
            }
            &&& free ==> effects[1] is AutoClose && effects[2] is Schedule
            &&& !free ==> leaves_the_browser(effects.drop_first())
            &&& news ==> member_after(v.target, effects, "last_submission_evidence"@) == blocked
            &&& !news ==> member_after(v.target, effects, "last_submission_evidence"@)
                == v.target.at("last_submission_evidence"@)
        }),
{
    reveal_with_fuel(member_behind, 6);
}

/// While a delivery is put off and its page is open, the page is looked at, and the closing of one
/// that closes by itself is put off too; an archived conversation whose page shows another address
/// stops the visit.
pub proof fn a_page_of_a_delivery_put_off_is_looked_at(
    v: VisitV,
    statuses: JsonV,
    proven: bool,
    now: Text,
)
    requires
        !all_settled(v.target, statuses, v.actor_id),
        v.surface.at("active"@) == JsonV::Bool(true),
    ensures
        ({
            let p = on_statuses(v, statuses, proven, now);
            let archived = v.target.at("last_submission_evidence"@).at("submission_evidence"@)
                == JsonV::Str("not_sent_conversation_archived"@);
            let elsewhere = !alike(v.surface.at("url"@), v.target.at("url"@));
            &&& v.auto_close ==> p.effects.len() == 1 && p.effects[0] is Schedule
            &&& !v.auto_close ==> p.effects.len() == 0
            &&& p.next is ProbeTarget <==> !(archived && elsewhere)
        }),
{
}

/// The particulars of a fact tell where the delivery went: the address that the target had, whether
/// the chat is still to be bound, the address it was bound to, and what it was recovered from.
pub proof fn a_fact_tells_where_it_went(
    v: VisitV,
    a: AttemptV,
    receipt: ReceiptV,
    browser: JsonV,
    kind: Option<Text>,
    url: Text,
    marker: Text,
    now: Text,
)
    ensures
        ({
            let facts = recorded(
                on_settled(v, a, SubmissionV::Verified(browser), marker, now).effects,
            );
            let fresh = v.target.at("kind"@) == JsonV::Str("new_chat"@);
            facts.len() == 1 && facts[0].extra["target_url"@] == JsonV::Str(address(v.target))
                && facts[0].extra["auto_bind_new_chat"@] == JsonV::Bool(fresh)
        }),
        on_judged(v, receipt, kind, Some(url), now) matches SearchV::Step(p) ==> {
            let facts = recorded(p.effects);
            &&& facts.len() == 1
            &&& facts[0].extra["target_url"@] == JsonV::Str(address(v.target))
            &&& facts[0].extra["recovered_from"@] == JsonV::Str("submission_ambiguous"@)
            &&& kind == Some(facts[0].detail)
            &&& receipt.submission is Obj ==> {
                let shown = member_after(v.target, p.effects, "last_submission_evidence"@);
                &&& shown.at("submitted"@) == JsonV::Bool(true)
                &&& shown.at("submission_evidence"@) == JsonV::Str(facts[0].detail)
                &&& shown.at("recovered_from"@) == JsonV::Str("submission_ambiguous"@)
            }
        },
        url.len() > 0 ==> ({
            let facts = recorded(on_bound(v, a, browser, url, None, now).effects);
            facts.len() == 1 && facts[0].extra["target_url"@] == JsonV::Str(address(v.target))
                && facts[0].extra["bound_conversation_url"@] == JsonV::Str(url)
                && facts[0].extra["pending_conversation_url"@] == JsonV::Bool(false)
        }),
        ({
            let facts = recorded(on_pending_url(v.target, Some(url), now).effects);
            facts.len() > 0 ==> facts[0].extra["target_url"@] == JsonV::Str(address(v.target))
                && facts[0].extra["bound_conversation_url"@] == JsonV::Str(url)
                && facts[0].extra["resolved_pending_new_chat"@] == JsonV::Bool(true)
        }),
{
    reveal_with_fuel(member_behind, 8);
    reveal_with_fuel(recorded_behind, 8);
    lemma_members_differ();
}

proof fn lemma_after_last(s: Text, head: Text, tail: Text, c: char)
    requires
        forall|i: int| 0 <= i < tail.len() ==> #[trigger] tail[i] != c,
        s == head + tail,
        head.len() > 0 ==> head.last() == c,
    ensures
        after_last(s, c) == tail,
    decreases tail.len(),
{
    if tail.len() == 0 {
        assert(s =~= head);
        assert(after_last(s, c) =~= tail);
    } else {
        let d = tail.drop_last();
        assert(s.drop_last() =~= head + d);
        assert(s.last() == tail.last());
        assert(tail.last() == tail[tail.len() - 1]);
        lemma_after_last(s.drop_last(), head, d, c);
        assert(after_last(s, c) =~= tail);
    }
}

/// The id of a delivery names the actor and the last part of the turn, behind its last colon; a turn
/// without a colon is named whole.
pub proof fn a_delivery_is_named_by_actor_and_turn(
    v: VisitV,
    wait: JsonV,
    head: Text,
    tail: Text,
    now: Text,
)
    requires
        wait.at("status"@) == JsonV::Str("work_available"@),
        wait.at("turn"@).at("turn_id"@) == JsonV::Str(head + tail),
        head.len() > 0 ==> head.last() == ':',
        forall|i: int| 0 <= i < tail.len() ==> #[trigger] tail[i] != ':',
        !is_blank(head + tail),
    ensures
        on_wait(v, wait, now).next matches NextV::MarkPreparing(a, _) && a.delivery_id
            == "webdelivery:"@ + v.actor_id + ":"@ + tail,
{
    lemma_after_last(head + tail, head, tail, ':');
}

/// The picture of a delivery is the blank one with a marker of the delivery put in before its last
/// chunk; its file is named after the first sixteen digits of the same digest. There is none for a
/// delivery without an id, or without a blank picture.
pub proof fn a_picture_is_marked_with_its_delivery(base: Result<Seq<u8>, Text>, delivery_id: Text)
    ensures
        trimmed(delivery_id).len() == 0 ==> image_from(base, delivery_id) is Err,
        base is Err ==> image_from(base, delivery_id) is Err,
        image_from(base, delivery_id) matches Ok((name, bytes)) ==> {
            let digest = hex_digest(trimmed(delivery_id));
            let blank = base->Ok_0;
            let chunk = marker_chunk(digest);
            &&& digest.len() > 16 ==> name == "cccc-mcp-compat-"@ + digest.take(16) + ".png"@
            &&& blank.len() >= 12
            &&& bytes.len() == blank.len() + chunk.len()
            &&& bytes.take(blank.len() - 12) == blank.take(blank.len() - 12)
            &&& bytes.subrange(blank.len() - 12, blank.len() - 12 + chunk.len()) == chunk
            &&& bytes.skip(blank.len() - 12 + chunk.len()) == blank.skip(blank.len() - 12)
        },
{
    if let Ok((name, bytes)) = image_from(base, delivery_id) {
        let digest = hex_digest(trimmed(delivery_id));
        let blank = base->Ok_0;
        let chunk = marker_chunk(digest);
        let b = marked(blank, digest);
        assert(b.take(blank.len() - 12) =~= blank.take(blank.len() - 12));
        assert(b.subrange(blank.len() - 12, blank.len() - 12 + chunk.len()) =~= chunk);
        assert(b.skip(blank.len() - 12 + chunk.len()) =~= blank.skip(blank.len() - 12));
    }
}

} // verus!
