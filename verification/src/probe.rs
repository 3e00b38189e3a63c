//! Recovering a page that looks busy but is outdated: a temporary page must confirm, twice and
//! alike, that the conversation has a finished answer before the old page is loaded again.

use crate::json::{Json, JsonMap, JsonV};
use crate::text::{opt_text, str_eq, Text};
use vstd::prelude::*;

verus! {

/// How long to wait before a conversation is checked again, in milliseconds.
pub const RECHECK_INTERVAL: u64 = 60_000;

/// The longest wait between two checks, in milliseconds.
pub const LONGEST_DELAY: u64 = 900_000;

/// How long a check may take, in milliseconds.
pub const PROBE_TIMEOUT: u64 = 30_000;

/// What a page shows.
pub struct Observed {
    pub url: String,
    pub latest_turn_id: String,
    pub running: bool,
    pub stop_visible: bool,
    pub composer_chars: u64,
    pub page_blocker: String,
}

/// The mathematical value of what a page shows.
pub struct ObservedV {
    pub url: Text,
    pub latest_turn_id: Text,
    pub running: bool,
    pub stop_visible: bool,
    pub composer_chars: u64,
    pub page_blocker: Text,
}

impl View for Observed {
    type V = ObservedV;

    open spec fn view(&self) -> ObservedV {
        ObservedV {
            url: self.url@,
            latest_turn_id: self.latest_turn_id@,
            running: self.running,
            stop_visible: self.stop_visible,
            composer_chars: self.composer_chars,
            page_blocker: self.page_blocker@,
        }
    }
}

impl ObservedV {
    /// Whether the page shows an answer being written.
    pub open spec fn busy(self) -> bool {
        self.running || self.stop_visible
    }
}

/// A check that is under way: who asked for it, for which page and turn, since when, and the
/// finished answer that it has seen, if any.
pub struct RelayProbe {
    pub owner: String,
    pub url: String,
    pub source_turn: String,
    pub started: u64,
    pub completed_turn: Option<String>,
}

/// The mathematical value of a check that is under way.
pub struct ProbeV {
    pub owner: Text,
    pub url: Text,
    pub source_turn: Text,
    pub started: u64,
    pub completed_turn: Option<Text>,
}

impl View for RelayProbe {
    type V = ProbeV;

    open spec fn view(&self) -> ProbeV {
        ProbeV {
            owner: self.owner@,
            url: self.url@,
            source_turn: self.source_turn@,
            started: self.started,
            completed_turn: opt_text(self.completed_turn),
        }
    }
}

/// The state of the checks of a page: the one under way, when the next may begin, how long to wait
/// after that one, and what the last one came to.
pub struct ProbeState {
    pub probe: Option<RelayProbe>,
    pub after: Option<u64>,
    pub delay: u64,
    pub outcome: Json,
}

/// The mathematical value of the state of the checks of a page.
pub struct ProbeStateV {
    pub probe: Option<ProbeV>,
    pub after: Option<u64>,
    pub delay: u64,
    pub outcome: JsonV,
}

impl View for ProbeState {
    type V = ProbeStateV;

    open spec fn view(&self) -> ProbeStateV {
        ProbeStateV {
            probe: match self.probe {
                Some(p) => Some(p@),
                None => None,
            },
            after: self.after,
            delay: self.delay,
            outcome: self.outcome@,
        }
    }
}

impl ProbeStateV {
    /// Whether the delay before the next check is within its bound.
    pub open spec fn wf(self) -> bool {
        self.delay <= LONGEST_DELAY
    }
}

/// What the checks do next.
#[derive(PartialEq, Eq, Structural, Clone, Copy, Debug)]
pub enum ProbeStep {
    /// Nothing.
    Rest,
    /// Close the temporary page.
    Cancel,
    /// Open a temporary page.
    Open,
    /// Look at the temporary page.
    Inspect,
    /// Look at the old page once more before it is loaded again.
    Confirm,
    /// Load the old page again.
    Reload,
}

/// Whether a check is the owner's.
pub open spec fn owns(s: ProbeStateV, owner: Text) -> bool {
    s.probe matches Some(p) && p.owner == owner
}

/// The state without the owner's check.
pub open spec fn cancelled(s: ProbeStateV, owner: Text) -> ProbeStateV {
    if owns(s, owner) {
        ProbeStateV { probe: None, ..s }
    } else {
        s
    }
}

impl ProbeState {
    /// A page that was not checked yet.
    pub fn new() -> (r: ProbeState)
        ensures
            r@ == (ProbeStateV {
                probe: None,
                after: None,
                delay: RECHECK_INTERVAL,
                outcome: JsonV::Null,
            }),
            r@.wf(),
    {
        ProbeState { probe: None, after: None, delay: RECHECK_INTERVAL, outcome: Json::Null }
    }

    /// Takes the owner's check away; true where there was one, whose page is to be closed.
    pub fn cancel_relay_probe(&mut self, owner: &str) -> (r: bool)
        ensures
            r == owns(old(self)@, owner@),
            final(self)@ == cancelled(old(self)@, owner@),
            old(self)@.wf() ==> final(self)@.wf(),
    {
        let mine = match &self.probe {
            Some(p) => str_eq(p.owner.as_str(), owner),
            None => false,
        };
        if mine {
            self.probe = None;
        }
        mine
    }
}

/// The state of a page that is ready.
pub open spec fn ready(s: ProbeStateV) -> ProbeStateV {
    ProbeStateV {
        after: None,
        delay: RECHECK_INTERVAL,
        outcome: if s.outcome.at("state"@) == JsonV::Str("blocked"@) {
            JsonV::Obj(map!["state"@ => JsonV::Str("ready"@)])
        } else {
            s.outcome
        },
        ..s
    }
}

/// Whether the last check found this very page and turn blocked.
pub open spec fn known_blocked(s: ProbeStateV, o: ObservedV) -> bool {
    &&& s.outcome.at("state"@) == JsonV::Str("blocked"@)
    &&& s.outcome.at("url"@) == JsonV::Str(o.url)
    &&& s.outcome.at("source_turn"@) == JsonV::Str(o.latest_turn_id)
}

/// The wait after the next check: twice the last, up to the longest.
pub open spec fn next_delay(delay: u64) -> u64 {
    if 2 * delay > LONGEST_DELAY {
        LONGEST_DELAY
    } else {
        (2 * delay) as u64
    }
}

/// The state with a new check.
pub open spec fn opened(s: ProbeStateV, o: ObservedV, owner: Text, now: u64) -> ProbeStateV {
    ProbeStateV {
        probe: Some(
            ProbeV {
                owner,
                url: o.url,
                source_turn: o.latest_turn_id,
                started: now,
                completed_turn: None,
            },
        ),
        after: Some((now + s.delay) as u64),
        delay: next_delay(s.delay),
        outcome: s.outcome,
    }
}

/// Whether a check is about this page and turn.
pub open spec fn still_about(p: ProbeV, same_page: bool, o: ObservedV) -> bool {
    same_page && p.url == o.url && p.source_turn == o.latest_turn_id
}

/// What is done with the temporary page where nothing is to be checked: the owner's own is closed,
/// and that of another owner is left alone.
pub open spec fn given_up(s: ProbeStateV, owner: Text) -> ProbeStep {
    if s.probe matches Some(p) && p.owner != owner {
        ProbeStep::Rest
    } else {
        ProbeStep::Cancel
    }
}

/// The step on a page, and the state after it. A page that is blocked, or asks for a sign-in, is
/// never loaded again; a draft of a person, or a page that is ready, ends the check; a page that
/// looks busy is checked, not more often than the wait allows.
pub open spec fn on_page(
    s: ProbeStateV,
    o: ObservedV,
    sign_in: bool,
    composer: bool,
    same_page: bool,
    owner: Text,
    now: u64,
) -> (ProbeStateV, ProbeStep) {
    if o.page_blocker.len() > 0 || sign_in {
        (cancelled(s, owner), given_up(s, owner))
    } else if o.composer_chars > 0 || (!o.busy() && composer) {
        (ready(cancelled(s, owner)), given_up(s, owner))
    } else if known_blocked(s, o) {
        (s, ProbeStep::Rest)
    } else {
        match s.probe {
            Some(p) => if p.owner != owner {
                (s, ProbeStep::Rest)
            } else if still_about(p, same_page, o) {
                (s, ProbeStep::Inspect)
            } else {
                (cancelled(s, owner), ProbeStep::Cancel)
            },
            None => if s.after matches Some(t) && now < t {
                (s, ProbeStep::Rest)
            } else {
                (opened(s, o, owner, now), ProbeStep::Open)
            },
        }
    }
}

fn give_up_step(state: &ProbeState, owner: &str) -> (r: ProbeStep)
    ensures
        r == given_up(state@, owner@),
{
    match &state.probe {
        Some(p) => if str_eq(p.owner.as_str(), owner) {
            ProbeStep::Cancel
        } else {
            ProbeStep::Rest
        },
        None => ProbeStep::Cancel,
    }
}

/// The step on a page. `composer` says whether the page has a place to type in, `same_page`
/// whether the check under way was begun from this page. The caller closes the temporary page of
/// a check that is gone from the state.
pub fn reconcile_relay_page(
    state: &mut ProbeState,
    observed: &Observed,
    sign_in: bool,
    composer: bool,
    same_page: bool,
    owner: &str,
    now: u64,
) -> (r: ProbeStep)
    requires
        old(state)@.wf(),
        now <= u64::MAX - LONGEST_DELAY,
    ensures
        (final(state)@, r) == on_page(
            old(state)@,
            observed@,
            sign_in,
            composer,
            same_page,
            owner@,
            now,
        ),
        final(state)@.wf(),
{
    let give_up = give_up_step(state, owner);
    if !observed.page_blocker.as_str().is_empty() || sign_in {
        state.cancel_relay_probe(owner);
        return give_up;
    }
    if observed.composer_chars > 0 || (!(observed.running || observed.stop_visible) && composer) {
        state.cancel_relay_probe(owner);
        state.after = None;
        state.delay = RECHECK_INTERVAL;
        if state.outcome.is("state", "blocked") {
            let mut m = JsonMap::new();
            m.put("state", Json::str("ready"));
            state.outcome = Json::Obj(m);
        }
        return give_up;
    }
    if state.outcome.is("state", "blocked") && state.outcome.is("url", observed.url.as_str())
        && state.outcome.is("source_turn", observed.latest_turn_id.as_str()) {
        return ProbeStep::Rest;
    }
    let known = match &state.probe {
        Some(p) => {
            if !str_eq(p.owner.as_str(), owner) {
                return ProbeStep::Rest;
            }
            Some(
                same_page && str_eq(p.url.as_str(), observed.url.as_str()) && str_eq(
                    p.source_turn.as_str(),
                    observed.latest_turn_id.as_str(),
                ),
            )
        },
        None => None,
    };
    match known {
        Some(true) => ProbeStep::Inspect,
        Some(false) => {
            state.cancel_relay_probe(owner);
            ProbeStep::Cancel
        },
        None => {
            if let Some(t) = state.after {
                if now < t {
                    return ProbeStep::Rest;
                }
            }
            let delay: u64 = state.delay;
            state.after = Some(now + delay);
            state.delay = if 2 * delay > LONGEST_DELAY {
                LONGEST_DELAY
            } else {
                2 * delay
            };
            state.probe = Some(
                RelayProbe {
                    owner: owner.to_owned(),
                    url: observed.url.clone(),
                    source_turn: observed.latest_turn_id.clone(),
                    started: now,
                    completed_turn: None,
                },
            );
            ProbeStep::Open
        },
    }
}

/// What a blocked check comes to.
pub open spec fn blocked_outcome(p: ProbeV, reason: Text, at: Text) -> JsonV {
    JsonV::Obj(
        map![
            "state"@ => JsonV::Str("blocked"@),
            "reason"@ => JsonV::Str(reason),
            "url"@ => JsonV::Str(p.url),
            "source_turn"@ => JsonV::Str(p.source_turn),
            "at"@ => JsonV::Str(at),
        ],
    )
}

/// What blocks the temporary page: a sign-in, or what it shows; empty where nothing does.
pub open spec fn blocker(fresh: ObservedV, sign_in: bool) -> Text {
    if sign_in {
        "login_required"@
    } else {
        fresh.page_blocker
    }
}

/// Whether the same finished answer was seen twice.
pub open spec fn is_stable(p: ProbeV, completed: Option<Text>) -> bool {
    completed is Some && p.completed_turn == completed
}

/// The step after the temporary page was looked at: a blocked page ends the check for good; the
/// same finished answer twice asks for a last look at the old page; else the check goes on until
/// its time is up.
pub open spec fn on_fresh(
    s: ProbeStateV,
    fresh: ObservedV,
    sign_in: bool,
    completed: Option<Text>,
    owner: Text,
    now: u64,
    at: Text,
) -> (ProbeStateV, ProbeStep) {
    match s.probe {
        None => (s, ProbeStep::Rest),
        Some(p) => if blocker(fresh, sign_in).len() > 0 {
            (
                cancelled(
                    ProbeStateV { outcome: blocked_outcome(p, blocker(fresh, sign_in), at), ..s },
                    owner,
                ),
                given_up(s, owner),
            )
        } else if is_stable(p, completed) {
            (s, ProbeStep::Confirm)
        } else if now - p.started >= PROBE_TIMEOUT {
            (cancelled(s, owner), given_up(s, owner))
        } else {
            (
                ProbeStateV {
                    probe: Some(ProbeV { completed_turn: completed, ..p }),
                    ..s
                },
                ProbeStep::Rest,
            )
        },
    }
}

fn same_answer(a: &Option<String>, b: &Option<String>) -> (r: bool)
    ensures
        r == (opt_text(*b) is Some && opt_text(*a) == opt_text(*b)),
{
    match (a, b) {
        (Some(x), Some(y)) => str_eq(x.as_str(), y.as_str()),
        _ => false,
    }
}

/// The step after the temporary page was looked at. `completed` is the finished answer that it
/// shows, if any; `at` is the time of day.
pub fn after_fresh(
    state: &mut ProbeState,
    fresh: &Observed,
    sign_in: bool,
    completed: Option<String>,
    owner: &str,
    now: u64,
    at: &str,
) -> (r: ProbeStep)
    ensures
        (final(state)@, r) == on_fresh(
            old(state)@,
            fresh@,
            sign_in,
            opt_text(completed),
            owner@,
            now,
            at@,
        ),
        old(state)@.wf() ==> final(state)@.wf(),
{
    let reason = if sign_in {
        "login_required".to_owned()
    } else {
        fresh.page_blocker.clone()
    };
    let give_up = give_up_step(state, owner);
    let (stable, late) = match &state.probe {
        None => {
            return ProbeStep::Rest;
        },
        Some(p) => {
            if !reason.as_str().is_empty() {
                let mut m = JsonMap::new();
                m.put("state", Json::str("blocked"));
                m.put("reason", Json::str(reason.as_str()));
                m.put("url", Json::str(p.url.as_str()));
                m.put("source_turn", Json::str(p.source_turn.as_str()));
                m.put("at", Json::str(at));
                state.outcome = Json::Obj(m);
                state.cancel_relay_probe(owner);
                return give_up;
            }
            (
                same_answer(&p.completed_turn, &completed),
                now >= p.started && now - p.started >= PROBE_TIMEOUT,
            )
        },
    };
    if stable {
        return ProbeStep::Confirm;
    }
    if late {
        state.cancel_relay_probe(owner);
        return give_up;
    }
    match state.probe.take() {
        Some(p) => {
            state.probe = Some(
                RelayProbe {
                    owner: p.owner,
                    url: p.url,
                    source_turn: p.source_turn,
                    started: p.started,
                    completed_turn: completed,
                },
            );
        },
        None => {},
    }
    ProbeStep::Rest
}

/// Whether the old page may be loaded again: it still shows the page and the turn that were
/// checked, nobody has typed into it, and it still looks busy or has no place to type in.
pub open spec fn may_reload(p: ProbeV, latest: ObservedV, composer: bool) -> bool {
    latest.url == p.url && latest.latest_turn_id == p.source_turn && latest.composer_chars == 0 && (
    latest.busy() || !composer)
}

/// The step after the last look at the old page. The check is over either way.
pub fn after_confirm(state: &mut ProbeState, latest: &Observed, composer: bool, owner: &str) -> (r:
    ProbeStep)
    ensures
        final(state)@ == cancelled(old(state)@, owner@),
        r == if old(state)@.probe matches Some(p) && may_reload(p, latest@, composer) {
            ProbeStep::Reload
        } else {
            given_up(old(state)@, owner@)
        },
        old(state)@.wf() ==> final(state)@.wf(),
{
    let give_up = give_up_step(state, owner);
    let go = match &state.probe {
        Some(p) => str_eq(latest.url.as_str(), p.url.as_str()) && str_eq(
            latest.latest_turn_id.as_str(),
            p.source_turn.as_str(),
        ) && latest.composer_chars == 0 && (latest.running || latest.stop_visible || !composer),
        None => false,
    };
    state.cancel_relay_probe(owner);
    if go {
        ProbeStep::Reload
    } else {
        give_up
    }
}

/// The state after the old page was loaded again.
pub open spec fn refreshed(s: ProbeStateV, url: Text, turn: Option<Text>, at: Text) -> ProbeStateV {
    ProbeStateV {
        after: None,
        delay: RECHECK_INTERVAL,
        outcome: JsonV::Obj(
            map![
                "state"@ => JsonV::Str("refreshed"@),
                "reason"@ => JsonV::Str("fresh_completed_turn"@),
                "url"@ => JsonV::Str(url),
                "completed_turn"@ => match turn {
                    Some(t) => JsonV::Str(t),
                    None => JsonV::Null,
                },
                "at"@ => JsonV::Str(at),
            ],
        ),
        ..s
    }
}

/// Records that the old page was loaded again.
pub fn after_reload(state: &mut ProbeState, url: &str, turn: &Option<String>, at: &str)
    ensures
        final(state)@ == refreshed(old(state)@, url@, opt_text(*turn), at@),
        final(state)@.wf(),
{
    let mut m = JsonMap::new();
    m.put("state", Json::str("refreshed"));
    m.put("reason", Json::str("fresh_completed_turn"));
    m.put("url", Json::str(url));
    m.put(
        "completed_turn",
        match turn {
            Some(t) => Json::str(t.as_str()),
            None => Json::Null,
        },
    );
    m.put("at", Json::str(at));
    state.after = None;
    state.delay = RECHECK_INTERVAL;
    state.outcome = Json::Obj(m);
}

/// Whether a page shows a finished conversation: the expected one, with nothing running, nothing
/// blocking, nothing typed, and a place to type in.
pub open spec fn is_finished(o: ObservedV, url: Text, sign_in: bool, composer: bool) -> bool {
    o.url == url && !o.busy() && o.page_blocker.len() == 0 && o.composer_chars == 0 && !sign_in
        && composer
}

/// The finished answer that a page shows. `answer` is the id of the last answer, where the page
/// has one that can be copied.
pub fn completed_turn(
    observed: &Observed,
    expected_url: &str,
    sign_in: bool,
    composer: bool,
    answer: Option<String>,
) -> (r: Option<String>)
    ensures
        opt_text(r) == if is_finished(observed@, expected_url@, sign_in, composer) {
            opt_text(answer)
        } else {
            None
        },
{
    if !str_eq(observed.url.as_str(), expected_url) || observed.running || observed.stop_visible
        || !observed.page_blocker.as_str().is_empty() || observed.composer_chars > 0 || sign_in
        || !composer {
        None
    } else {
        answer
    }
}

/// The wait between checks never shrinks on its own and never exceeds the longest.
pub proof fn waits_grow_up_to_the_longest(delay: u64)
    requires
        delay <= LONGEST_DELAY,
    ensures
        delay <= next_delay(delay) <= LONGEST_DELAY,
{
}

/// A page is loaded again only with no draft on it, and only where the page and its latest turn
/// are the ones that were checked.
pub proof fn a_draft_is_never_loaded_over(p: ProbeV, latest: ObservedV, composer: bool)
    requires
        may_reload(p, latest, composer),
    ensures
        latest.composer_chars == 0,
        latest.url == p.url,
        latest.latest_turn_id == p.source_turn,
{
}

/// A page that is blocked or asks for a sign-in opens no check, and neither does one that was
/// found blocked before at the same turn.
pub proof fn a_blocked_page_is_left_alone(
    s: ProbeStateV,
    o: ObservedV,
    sign_in: bool,
    composer: bool,
    same_page: bool,
    owner: Text,
    now: u64,
)
    requires
        o.page_blocker.len() > 0 || sign_in || (known_blocked(s, o) && o.composer_chars == 0 && (
        o.busy() || !composer)),
    ensures
        ({
            let step = on_page(s, o, sign_in, composer, same_page, owner, now).1;
            step == ProbeStep::Cancel || step == ProbeStep::Rest
        }),
{
}

/// A temporary page is closed, looked at or loaded over only by the owner of the check; the check of
/// another owner stays as it is.
pub proof fn only_the_owner_touches_its_check(
    s: ProbeStateV,
    o: ObservedV,
    sign_in: bool,
    composer: bool,
    same_page: bool,
    owner: Text,
    now: u64,
)
    requires
        s.probe matches Some(p) && p.owner != owner,
    ensures
        on_page(s, o, sign_in, composer, same_page, owner, now).1 == ProbeStep::Rest,
        on_page(s, o, sign_in, composer, same_page, owner, now).0.probe == s.probe,
{
}

/// What one look at a page finds: on the page itself, on the temporary page at its first and at its
/// second observation, and on the page again before it is loaded; who looks, and when.
pub struct Look {
    pub owner: Text,
    pub page: ObservedV,
    pub sign_in: bool,
    pub composer: bool,
    pub same_page: bool,
    pub fresh: ObservedV,
    pub fresh_sign_in: bool,
    pub shown: ObservedV,
    pub shown_sign_in: bool,
    pub shown_composer: bool,
    pub answer: Option<Text>,
    pub latest: ObservedV,
    pub latest_composer: bool,
    pub loaded: bool,
    pub now: u64,
    pub at: Text,
}

impl Look {
    /// The step that the look begins with.
    pub open spec fn begun(self, s: ProbeStateV) -> (ProbeStateV, ProbeStep) {
        on_page(
            s,
            self.page,
            self.sign_in,
            self.composer,
            self.same_page,
            self.owner,
            self.now,
        )
    }

    /// The finished answer that the temporary page shows.
    pub open spec fn finished(self, url: Text) -> Option<Text> {
        if is_finished(self.shown, url, self.shown_sign_in, self.shown_composer) {
            self.answer
        } else {
            None
        }
    }

    /// The state after the whole look, and whether the page was loaded again.
    pub open spec fn done(self, s: ProbeStateV) -> (ProbeStateV, bool) {
        let (t, step) = self.begun(s);
        match t.probe {
            Some(p) => if step != ProbeStep::Inspect {
                (t, false)
            } else {
                let (u, next) = on_fresh(
                    t,
                    self.fresh,
                    self.fresh_sign_in,
                    self.finished(p.url),
                    self.owner,
                    self.now,
                    self.at,
                );
                if next != ProbeStep::Confirm {
                    (u, false)
                } else if may_reload(p, self.latest, self.latest_composer) {
                    let over = cancelled(u, self.owner);
                    (
                        if self.loaded {
                            refreshed(over, p.url, self.finished(p.url), self.at)
                        } else {
                            over
                        },
                        true,
                    )
                } else {
                    (cancelled(u, self.owner), false)
                }
            },
            None => (t, false),
        }
    }

    /// Whether the look shows, with nothing in the way, that the conversation has a finished answer:
    /// the page is at this address and turn, not blocked, signed in and without a draft, and the
    /// temporary page is neither blocked nor asks for a sign-in and shows the answer.
    pub open spec fn vouches(self, url: Text, turn: Text, answer: Text) -> bool {
        &&& self.page.url == url
        &&& self.page.latest_turn_id == turn
        &&& self.page.page_blocker.len() == 0
        &&& !self.sign_in
        &&& self.page.composer_chars == 0
        &&& self.same_page
        &&& self.fresh.page_blocker.len() == 0
        &&& !self.fresh_sign_in
        &&& is_finished(self.shown, url, self.shown_sign_in, self.shown_composer)
        &&& self.answer == Some(answer)
    }
}

/// The state after looks at a page.
pub open spec fn after_looks(s: ProbeStateV, all: Seq<Look>) -> ProbeStateV
    decreases all.len(),
{
    if all.len() == 0 {
        s
    } else {
        all.last().done(after_looks(s, all.drop_last())).0
    }
}

/// Whether an owner's look opened a temporary page for an address and turn.
pub open spec fn opened_at(
    s: ProbeStateV,
    all: Seq<Look>,
    i: int,
    owner: Text,
    url: Text,
    turn: Text,
) -> bool {
    &&& 0 <= i < all.len()
    &&& all[i].owner == owner
    &&& all[i].page.url == url
    &&& all[i].page.latest_turn_id == turn
    &&& all[i].begun(after_looks(s, all.take(i))).1 == ProbeStep::Open
}

/// Whether an owner's look showed a finished answer for an address and turn.
pub open spec fn vouched_at(
    all: Seq<Look>,
    j: int,
    owner: Text,
    url: Text,
    turn: Text,
    answer: Text,
) -> bool {
    0 <= j < all.len() && all[j].owner == owner && all[j].vouches(url, turn, answer)
}

/// Whether what a check says was seen by earlier looks of its owner.
spec fn is_founded(s: ProbeStateV, all: Seq<Look>, p: ProbeV) -> bool {
    exists|i: int| #[trigger]
        opened_at(s, all, i, p.owner, p.url, p.source_turn) && (p.completed_turn matches Some(c)
            ==> exists|j: int|
            i < j && #[trigger] vouched_at(all, j, p.owner, p.url, p.source_turn, c))
}

proof fn lemma_founded_later(s: ProbeStateV, all: Seq<Look>, l: Look, p: ProbeV)
    requires
        is_founded(s, all, p),
    ensures
        is_founded(s, all.push(l), p),
{
    let more = all.push(l);
    let i = choose|i: int| #[trigger]
        opened_at(s, all, i, p.owner, p.url, p.source_turn) && (p.completed_turn matches Some(c)
            ==> exists|j: int|
            i < j && #[trigger] vouched_at(all, j, p.owner, p.url, p.source_turn, c));
    assert(more.take(i) =~= all.take(i));
    assert(opened_at(s, more, i, p.owner, p.url, p.source_turn));
    if let Some(c) = p.completed_turn {
        let j = choose|j: int|
            i < j && #[trigger] vouched_at(all, j, p.owner, p.url, p.source_turn, c);
        assert(vouched_at(more, j, p.owner, p.url, p.source_turn, c));
    }
}

proof fn lemma_checks_are_founded(s: ProbeStateV, all: Seq<Look>)
    requires
        s.probe is None,
    ensures
        after_looks(s, all).probe matches Some(p) ==> is_founded(s, all, p),
    decreases all.len(),
{
    reveal_strlit("login_required");
    assert("login_required"@.len() == 14);
    if all.len() > 0 {
        let d = all.drop_last();
        let l = all.last();
        lemma_checks_are_founded(s, d);
        let before = after_looks(s, d);
        let now = after_looks(s, all);
        let n = all.len() - 1;
        assert(d.push(l) =~= all);
        assert(all.take(n) =~= d);
        if let Some(p) = now.probe {
            if let Some(q) = before.probe {
                lemma_founded_later(s, d, l, q);
                if p != q {
                    let i = choose|i: int| #[trigger]
                        opened_at(s, d, i, q.owner, q.url, q.source_turn);
                    assert(all.take(i) =~= d.take(i));
                    assert(opened_at(s, all, i, p.owner, p.url, p.source_turn));
                    if let Some(c) = p.completed_turn {
                        assert(vouched_at(all, n, p.owner, p.url, p.source_turn, c));
                    }
                }
            } else {
                assert(opened_at(s, all, n, p.owner, p.url, p.source_turn));
            }
        }
    }
}

/// A page is loaded again only on two like answers. Where a look loads it, an earlier look of the
/// same owner opened a temporary page for the same address and turn, a later one of that owner saw
/// a finished answer there, and this look saw the same answer there again. At both the page was at
/// that address and turn without a draft, and neither page was blocked or asked for a sign-in; and
/// right before the page is loaded it still has that address and turn, no draft, and looks busy or
/// has no place to type in.
pub proof fn a_page_is_loaded_again_on_two_like_answers(s: ProbeStateV, all: Seq<Look>, l: Look)
    requires
        s.probe is None,
        l.done(after_looks(s, all)).1,
    ensures
        exists|i: int, j: int, answer: Text|
            i < j && #[trigger] opened_at(s, all, i, l.owner, l.page.url, l.page.latest_turn_id)
                && #[trigger] vouched_at(
                all,
                j,
                l.owner,
                l.page.url,
                l.page.latest_turn_id,
                answer,
            ) && l.vouches(l.page.url, l.page.latest_turn_id, answer),
        l.latest.url == l.page.url,
        l.latest.latest_turn_id == l.page.latest_turn_id,
        l.latest.composer_chars == 0,
        l.latest.busy() || !l.latest_composer,
{
    reveal_strlit("login_required");
    assert("login_required"@.len() == 14);
    lemma_checks_are_founded(s, all);
    let t = after_looks(s, all);
    let p = t.probe->0;
    let answer = p.completed_turn->0;
    let i = choose|i: int| #[trigger]
        opened_at(s, all, i, p.owner, p.url, p.source_turn) && (p.completed_turn matches Some(c)
            ==> exists|j: int|
            i < j && #[trigger] vouched_at(all, j, p.owner, p.url, p.source_turn, c));
    let j = choose|j: int|
        i < j && #[trigger] vouched_at(all, j, p.owner, p.url, p.source_turn, answer);
    assert(opened_at(s, all, i, l.owner, l.page.url, l.page.latest_turn_id));
    assert(vouched_at(all, j, l.owner, l.page.url, l.page.latest_turn_id, answer));
    assert(l.vouches(l.page.url, l.page.latest_turn_id, answer));
}

} // verus!
