//! When a visit may begin, and what is done with the browser when it is over.

use crate::delivery::attempt::{is_new_chat, opt_value};
use crate::delivery::plan::{draft_is_empty, draft_length, evidence, Outcome};
use crate::json::{Json, JsonV};
use crate::lists::{lemma_views, lemma_views_push};
use crate::text::{has_prefix, has_text, starts_with, str_eq, texts, Text};
use crate::time::Instant;
use vstd::prelude::*;

verus! {

broadcast use {lemma_views, lemma_views_push};

/// The keys that are held by somebody.
pub struct Sessions {
    pub held: Vec<String>,
}

impl View for Sessions {
    type V = Seq<Text>;

    open spec fn view(&self) -> Seq<Text> {
        texts(self.held@)
    }
}

/// The right to a key, from the moment it was acquired until it is released.
pub struct SessionGuard {
    pub key: String,
}

impl Sessions {
    /// No keys held.
    pub fn new() -> (r: Sessions)
        ensures
            r@ == Seq::<Text>::empty(),
    {
        let r = Sessions { held: Vec::new() };
        assert(r@ =~= Seq::empty());
        r
    }

    /// Whether somebody holds the key.
    pub fn contains(&self, key: &str) -> (r: bool)
        ensures
            r == self@.contains(key@),
    {
        has_text(&self.held, key)
    }
}

/// Whether two keys differ.
pub open spec fn differs(a: Text, b: Text) -> bool {
    a != b
}

/// The keys without the given one.
pub open spec fn without(s: Seq<Text>, key: Text) -> Seq<Text> {
    s.filter(|k: Text| differs(k, key))
}

impl SessionGuard {
    /// Acquires a key that nobody holds. A key that is held stays with its holder.
    pub fn acquire(sessions: &mut Sessions, key: &str) -> (r: Option<SessionGuard>)
        ensures
            match r {
                Some(g) => !old(sessions)@.contains(key@) && g.key@ == key@ && final(sessions)@
                    == old(sessions)@.push(key@),
                None => old(sessions)@.contains(key@) && final(sessions)@ == old(sessions)@,
            },
    {
        if has_text(&sessions.held, key) {
            return None;
        }
        sessions.held.push(key.to_owned());
        Some(SessionGuard { key: key.to_owned() })
    }

    /// Releases the key.
    pub fn release(self, sessions: &mut Sessions)
        ensures
            final(sessions)@ == without(old(sessions)@, self.key@),
    {
        let key = self.key;
        let ghost sp = |k: Text| differs(k, key@);
        let kept = crate::lists::select(
            &sessions.held,
            |k: &String| -> (b: bool)
                ensures (b == (k@ != key@))
            {
                !str_eq(k.as_str(), key.as_str())
            },
            |k: &String| -> (c: String)
                ensures (c@ == k@)
            {
                k.clone()
            },
            Ghost(sp),
        );
        sessions.held = kept;
    }
}

/// A released key can be acquired again, and every other key is as it was.
pub proof fn releasing_frees_exactly_the_key(s: Seq<Text>, key: Text, other: Text)
    ensures
        !without(s, key).contains(key),
        other != key ==> (without(s, key).contains(other) <==> s.contains(other)),
{
    let p = |k: Text| differs(k, key);
    crate::lists::lemma_selection(s, p);
    assert(without(s, key) == s.filter(p));
    assert(s.filter(p).contains(other) <==> s.contains(other) && p(other));
    assert(s.filter(p).contains(key) <==> s.contains(key) && p(key));
}

/// Whether a visit is automatic: the browser is closed, or was left to be closed.
pub open spec fn is_automatic(surface: JsonV, auto_close: bool) -> bool {
    surface.at("active"@) != JsonV::Bool(true) || auto_close
}

/// Whether a visit may begin: no other chat waits for its address, and an automatic visit keeps
/// the delay that all groups share.
pub open spec fn may_begin(
    other_chat_pending: bool,
    surface: JsonV,
    auto_close: bool,
    not_before: Option<Instant>,
    now: Instant,
) -> bool {
    !other_chat_pending && !(is_automatic(surface, auto_close) && (not_before matches Some(at)
        && at.is_after(now)))
}

/// Whether a visit may begin.
pub fn begin_visit(
    other_chat_pending: bool,
    surface: &Json,
    auto_close: bool,
    not_before: Option<Instant>,
    now: Instant,
) -> (r: bool)
    ensures
        r == may_begin(other_chat_pending, surface@, auto_close, not_before, now),
{
    if other_chat_pending {
        return false;
    }
    let automatic = !surface.is_true("active") || auto_close;
    match not_before {
        Some(at) => !(automatic && at.after(now)),
        None => true,
    }
}

/// Whether the address of a new chat is still to come.
pub open spec fn address_pending(target: JsonV) -> bool {
    let status = target.at("last_delivery_status"@).text();
    is_new_chat(target) && (status == Some("pending_new_chat_bind"@) || status == Some(
        "submitted"@,
    ) || status == Some("completion_ambiguous"@) || status == Some("submission_ambiguous"@))
}

/// Whether the address of a new chat is still to come; the browser is then left open.
pub fn pending_url(target: &Json) -> (r: bool)
    ensures
        r == address_pending(target@),
{
    let k = "last_delivery_status";
    target.is("kind", "new_chat") && (target.is(k, "pending_new_chat_bind") || target.is(
        k,
        "submitted",
    ) || target.is(k, "completion_ambiguous") || target.is(k, "submission_ambiguous"))
}

/// Whether the page still shows a prompt on its way, which is no idle time.
pub open spec fn receipt_pending(target: JsonV, blocked: Option<JsonV>) -> bool {
    &&& evidence(target.at("last_submission_evidence"@)) == JsonV::Str(
        "optimistic_echo_unconfirmed"@,
    )
    &&& blocked matches Some(b) && (b.at("latest_turn_id"@).text() matches Some(id) && has_prefix(
        id,
        "request-"@,
    )) && b.at("response_started"@) != JsonV::Bool(true)
}

/// What is done with the browser at the end of an automatic visit.
#[derive(PartialEq, Eq, Structural, Clone, Copy, Debug)]
pub struct Closing {
    /// Whether the browser is closed.
    pub close: bool,
    /// Whether the delay before the next visit is set, and if so, whether work is left.
    pub schedule: Option<bool>,
}

/// Whether a visit left its work to the next one: it failed, or it was put off.
pub open spec fn wants_retry(ended: Option<Outcome>) -> bool {
    ended is None || ended == Some(Outcome::Deferred)
}

/// What is done with the browser at the end of an automatic visit that found a page: it stays
/// open for a draft of a person, for a prompt on its way, and for a new chat without address; the
/// next visit is a retry where something is left to do.
pub open spec fn at_end(
    target: JsonV,
    visited: bool,
    blocked: Option<JsonV>,
    ended: Option<Outcome>,
) -> Closing {
    let pending = address_pending(target);
    let probed = !pending && visited;
    let draft = blocked matches Some(b) && draft_length(b) > 0;
    let receipt = probed && receipt_pending(target, blocked);
    Closing {
        close: probed && !draft && !receipt,
        schedule: if visited {
            Some(
                target.at("last_delivery_status"@) == JsonV::Str("deferred"@) || pending || receipt
                    || wants_retry(ended),
            )
        } else {
            None
        },
    }
}

fn is_receipt_pending(target: &Json, blocked: &Option<Json>) -> (r: bool)
    ensures
        r == receipt_pending(target@, opt_value(*blocked)),
{
    let shown = target.at("last_submission_evidence");
    if !shown.is("submission_evidence", "optimistic_echo_unconfirmed") {
        return false;
    }
    match blocked {
        None => false,
        Some(b) => {
            let on_its_way = match b.text("latest_turn_id") {
                Some(id) => starts_with(id, "request-"),
                None => false,
            };
            on_its_way && !b.is_true("response_started")
        },
    }
}

/// What is done with the browser at the end of an automatic visit. `blocked` is what the page
/// shows, looked at where the visit found one and no address is pending; `ended` is how the visit
/// ended, none where it failed.
pub fn close_visit(
    target: &Json,
    visited: bool,
    blocked: &Option<Json>,
    ended: Option<Outcome>,
) -> (r: Closing)
    ensures
        r == at_end(target@, visited, opt_value(*blocked), ended),
{
    let retry = match ended {
        Some(o) => o == Outcome::Deferred,
        None => true,
    };
    let pending = pending_url(target);
    let probed = !pending && visited;
    let draft = match blocked {
        Some(b) => !draft_is_empty(b),
        None => false,
    };
    let receipt = probed && is_receipt_pending(target, blocked);
    Closing {
        close: probed && !draft && !receipt,
        schedule: if visited {
            Some(target.is("last_delivery_status", "deferred") || pending || receipt || retry)
        } else {
            None
        },
    }
}

/// The browser is never closed over a draft, over a prompt on its way, or before the address of a
/// new chat is known.
pub proof fn drafts_and_receipts_keep_the_browser_open(
    target: JsonV,
    visited: bool,
    blocked: Option<JsonV>,
    ended: Option<Outcome>,
)
    ensures
        at_end(target, visited, blocked, ended).close ==> {
            &&& visited
            &&& !address_pending(target)
            &&& !receipt_pending(target, blocked)
            &&& blocked matches Some(b) ==> draft_length(b) <= 0
        },
{
}

} // verus!
