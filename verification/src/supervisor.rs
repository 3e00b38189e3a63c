//! Which actors are delivered to through the browser, and in what order they are visited.

use crate::json::{or_empty, Json, JsonMap, JsonV, ObjV};
use crate::lists::{find_first, first_match, lemma_views, lemma_views_push, views};
use crate::model::{ActorRuntime, GroupState};
use crate::text::{lowered, opt_text, str_eq, to_lower, trim, trimmed, Text};
use crate::time::{read_instant, rfc3339, Instant};
use vstd::prelude::*;

verus! {

broadcast use {lemma_views, lemma_views_push};

/// A setting in its normal form: trimmed and in lower case.
pub open spec fn normal(t: Text) -> Text {
    lowered(trimmed(t))
}

/// A setting in its normal form.
pub fn normalize(value: &str) -> (r: String)
    ensures
        r@ == normal(value@),
{
    let t = trim(value);
    to_lower(t.as_str())
}

/// Whether a group in this state is delivered to.
pub fn group_state_allows_delivery(running: bool, state: GroupState) -> (r: bool)
    ensures
        r == (running && state != GroupState::Paused && state != GroupState::Stopped),
{
    running && !(state == GroupState::Paused || state == GroupState::Stopped)
}

/// The values of optional settings.
pub open spec fn given(v: Seq<Option<String>>) -> Seq<Option<Text>> {
    v.map_values(|o: Option<String>| opt_text(o))
}

/// The first setting that is not blank, in its normal form; empty where all are.
pub open spec fn first_setting(v: Seq<Option<Text>>) -> Text
    decreases v.len(),
{
    if v.len() == 0 {
        Seq::empty()
    } else if v[0] matches Some(t) && normal(t).len() > 0 {
        normal(v[0]->0)
    } else {
        first_setting(v.drop_first())
    }
}

fn first_setting_of(v: &Vec<Option<String>>) -> (r: String)
    ensures
        r@ == first_setting(given(v@)),
{
    let ghost all = given(v@);
    let mut i: usize = 0;
    proof {
        assert(all.skip(0) =~= all);
    }
    while i < v.len()
        invariant
            i <= v@.len(),
            all == given(v@),
            first_setting(all) == first_setting(all.skip(i as int)),
        decreases v@.len() - i,
    {
        proof {
            assert(all.skip(i as int).drop_first() =~= all.skip(i + 1));
        }
        if let Some(t) = &v[i] {
            let n = normalize(t.as_str());
            if !n.as_str().is_empty() {
                return n;
            }
        }
        i += 1;
    }
    String::new()
}

/// A setting of an actor: its own first, then that of the process. The lists hold what is set
/// under each of the names, in their order.
pub fn actor_setting_with_process(own: &Vec<Option<String>>, process: &Vec<Option<String>>) -> (r:
    String)
    ensures
        r@ == if first_setting(given(own@)).len() > 0 {
            first_setting(given(own@))
        } else {
            first_setting(given(process@))
        },
{
    let mine = first_setting_of(own);
    if !mine.as_str().is_empty() {
        mine
    } else {
        first_setting_of(process)
    }
}

/// Whether the mode says not to deliver through the browser.
pub open spec fn declined(mode: Text) -> bool {
    mode == "pull"@ || mode == "native"@ || mode == "remote_mcp"@ || mode == "off"@ || mode
        == "disabled"@ || mode == "none"@
}

/// Whether the mode says to deliver through the browser.
pub open spec fn demanded(mode: Text) -> bool {
    mode == "browser"@ || mode == "chatgpt"@ || mode == "chatgpt_browser"@ || mode
        == "browser_delivery"@
}

/// Whether the provider is one that is reached through the browser.
pub open spec fn is_browser_provider(provider: Text) -> bool {
    provider == "chatgpt"@ || provider == "chatgpt_web"@ || provider == "browser_web_model"@
        || provider == "chatgpt_browser"@
}

/// Whether an actor is to be delivered to through the browser: as its mode says, else by its
/// provider.
pub open spec fn requested(mode: Text, provider: Text) -> bool {
    !declined(mode) && (demanded(mode) || is_browser_provider(provider))
}

/// Whether an actor is to be delivered to through the browser.
pub fn browser_delivery_requested(mode: &str, provider: &str) -> (r: bool)
    ensures
        r == requested(mode@, provider@),
{
    if str_eq(mode, "pull") || str_eq(mode, "native") || str_eq(mode, "remote_mcp") || str_eq(
        mode,
        "off",
    ) || str_eq(mode, "disabled") || str_eq(mode, "none") {
        return false;
    }
    if str_eq(mode, "browser") || str_eq(mode, "chatgpt") || str_eq(mode, "chatgpt_browser")
        || str_eq(mode, "browser_delivery") {
        return true;
    }
    str_eq(provider, "chatgpt") || str_eq(provider, "chatgpt_web") || str_eq(
        provider,
        "browser_web_model",
    ) || str_eq(provider, "chatgpt_browser")
}

/// An actor with what decides on its delivery: `mode` and `provider` are its settings in their
/// normal form, `connector_provider` is the provider of its connector, if it has one.
pub struct BrowserActor {
    pub id: String,
    pub runtime: ActorRuntime,
    pub headless: bool,
    pub enabled: bool,
    pub mode: String,
    pub provider: String,
    pub connector_provider: Option<String>,
    pub target: Option<Json>,
}

/// The mathematical value of an actor with what decides on its delivery.
pub struct BrowserActorV {
    pub id: Text,
    pub runtime: ActorRuntime,
    pub headless: bool,
    pub enabled: bool,
    pub mode: Text,
    pub provider: Text,
    pub connector_provider: Option<Text>,
    pub target: Option<JsonV>,
}

impl View for BrowserActor {
    type V = BrowserActorV;

    open spec fn view(&self) -> BrowserActorV {
        BrowserActorV {
            id: self.id@,
            runtime: self.runtime,
            headless: self.headless,
            enabled: self.enabled,
            mode: self.mode@,
            provider: self.provider@,
            connector_provider: opt_text(self.connector_provider),
            target: match self.target {
                Some(t) => Some(t@),
                None => None,
            },
        }
    }
}

/// A group with what decides on the delivery to its actors.
pub struct BrowserGroup {
    pub group_id: String,
    pub running: bool,
    pub state: GroupState,
    pub actors: Vec<BrowserActor>,
}

/// The mathematical value of a group with what decides on the delivery to its actors.
pub struct BrowserGroupV {
    pub group_id: Text,
    pub running: bool,
    pub state: GroupState,
    pub actors: Seq<BrowserActorV>,
}

impl View for BrowserGroup {
    type V = BrowserGroupV;

    open spec fn view(&self) -> BrowserGroupV {
        BrowserGroupV {
            group_id: self.group_id@,
            running: self.running,
            state: self.state,
            actors: views(self.actors@),
        }
    }
}

/// The provider of an actor: the one set for it, else the one of its connector.
pub open spec fn provider_of(setting: Text, connector: Option<Text>) -> Text {
    if setting.len() > 0 {
        setting
    } else {
        match connector {
            Some(p) => normal(p),
            None => Seq::empty(),
        }
    }
}

/// Whether an actor of a group in this state is delivered to through the browser.
pub open spec fn is_delivered_to(running: bool, state: GroupState, a: BrowserActorV) -> bool {
    a.runtime == ActorRuntime::WebModel && a.headless && a.enabled && running && state
        != GroupState::Paused && state != GroupState::Stopped && requested(
        a.mode,
        provider_of(a.provider, a.connector_provider),
    )
}

/// Whether an actor of a group in this state is delivered to through the browser.
pub fn group_actor_delivery_enabled(running: bool, state: GroupState, actor: &BrowserActor) -> (r:
    bool)
    ensures
        r == is_delivered_to(running, state, actor@),
{
    if actor.runtime != ActorRuntime::WebModel || !actor.headless || !actor.enabled
        || !group_state_allows_delivery(running, state) {
        return false;
    }
    let provider = if !actor.provider.as_str().is_empty() {
        actor.provider.clone()
    } else {
        match &actor.connector_provider {
            Some(p) => normalize(p.as_str()),
            None => String::new(),
        }
    };
    browser_delivery_requested(actor.mode.as_str(), provider.as_str())
}

/// Whether the actor with an id is delivered to. A group that cannot be read, and an actor that is
/// not in it, are not delivered to.
pub fn actor_delivery_enabled(group: Option<&BrowserGroup>, actor_id: &str) -> (r: bool)
    ensures
        r == match group {
            Some(g) => match first_match(
                views(g.actors@),
                |a: BrowserActorV| a.id == actor_id@,
            ) {
                Some(a) => is_delivered_to(g.running, g.state, a),
                None => false,
            },
            None => false,
        },
{
    match group {
        None => false,
        Some(g) => {
            let ghost sp = |a: BrowserActorV| a.id == actor_id@;
            let found = find_first(
                &g.actors,
                |a: &BrowserActor| -> (b: bool)
                    ensures (b == (a@.id == actor_id@))
                {
                    str_eq(a.id.as_str(), actor_id)
                },
                Ghost(sp),
            );
            match found {
                Some(a) => group_actor_delivery_enabled(g.running, g.state, a),
                None => false,
            }
        },
    }
}

/// Whether an actor has a conversation to be visited: a chat to be opened or an address.
pub open spec fn has_conversation(target: JsonV) -> bool {
    target.at("kind"@) == JsonV::Str("new_chat"@) || or_empty(target.at("url"@).text()).len() > 0
}

/// Whether an actor has a conversation to be visited.
pub fn is_reachable(target: &Json) -> (r: bool)
    ensures
        r == has_conversation(target@),
{
    let url = target.text_or_empty("url");
    target.is("kind", "new_chat") || !url.as_str().is_empty()
}

/// An actor to be visited, and when its last delivery began, if that is known.
pub struct Candidate {
    pub group_id: String,
    pub actor_id: String,
    pub started: Option<Instant>,
}

/// The mathematical value of an actor to be visited.
pub struct CandidateV {
    pub group_id: Text,
    pub actor_id: Text,
    pub started: Option<Instant>,
}

impl View for Candidate {
    type V = CandidateV;

    open spec fn view(&self) -> CandidateV {
        CandidateV {
            group_id: self.group_id@,
            actor_id: self.actor_id@,
            started: self.started,
        }
    }
}

/// Whether one start is before another; one that is not known is before all others.
pub open spec fn sooner(a: Option<Instant>, b: Option<Instant>) -> bool {
    match (a, b) {
        (None, None) => false,
        (None, Some(_)) => true,
        (Some(_), None) => false,
        (Some(x), Some(y)) => y.is_after(x),
    }
}

fn is_sooner(a: Option<Instant>, b: Option<Instant>) -> (r: bool)
    ensures
        r == sooner(a, b),
{
    match (a, b) {
        (None, None) => false,
        (None, Some(_)) => true,
        (Some(_), None) => false,
        (Some(x), Some(y)) => y.after(x),
    }
}

/// The list with a candidate put in behind all that it is not sooner than.
pub open spec fn placed(s: Seq<CandidateV>, x: CandidateV) -> Seq<CandidateV>
    decreases s.len(),
{
    if s.len() > 0 && sooner(x.started, s.last().started) {
        placed(s.drop_last(), x).push(s.last())
    } else {
        s.push(x)
    }
}

/// The candidates by the start of their last delivery, those without one first; equal ones keep
/// their order.
pub open spec fn in_turn(s: Seq<CandidateV>) -> Seq<CandidateV>
    decreases s.len(),
{
    if s.len() == 0 {
        s
    } else {
        placed(in_turn(s.drop_last()), s.last())
    }
}

fn place(v: &mut Vec<Candidate>, x: Candidate)
    ensures
        views(final(v)@) == placed(views(old(v)@), x@),
{
    let ghost s = views(v@);
    let ghost xs = x@;
    let mut i: usize = v.len();
    proof {
        assert(s.take(i as int) =~= s);
        assert(placed(s, xs) =~= placed(s, xs) + s.skip(i as int));
    }
    while i > 0 && is_sooner(x.started, v[i - 1].started)
        invariant
            i <= v@.len(),
            s == views(v@),
            xs == x@,
            placed(s, xs) == placed(s.take(i as int), xs) + s.skip(i as int),
        decreases i,
    {
        proof {
            let t = s.take(i as int);
            assert(t.drop_last() =~= s.take(i - 1));
            assert(t.last() == s[i - 1]);
            assert(placed(t, xs) == placed(t.drop_last(), xs).push(t.last()));
            assert(placed(s, xs) =~= placed(s.take(i - 1), xs) + s.skip(i - 1));
        }
        i -= 1;
    }
    v.insert(i, x);
    proof {
        let t = s.take(i as int);
        assert(placed(t, xs) == t.push(xs));
        assert(views(v@) =~= t.push(xs) + s.skip(i as int));
    }
}

/// When the last delivery to a target began: its timestamp, where it has one that can be read.
pub open spec fn last_start(target: Option<JsonV>) -> Option<Instant> {
    match target {
        Some(t) => match t.at("last_delivery_started_at"@).text() {
            Some(at) => match rfc3339(at) {
                Some((secs, nanos)) => Some(Instant { secs: secs as i64, nanos: nanos as u32 }),
                None => None,
            },
            None => None,
        },
        None => None,
    }
}

fn start_of(target: &Option<Json>) -> (r: Option<Instant>)
    ensures
        r == last_start(
            match *target {
                Some(t) => Some(t@),
                None => None,
            },
        ),
{
    match target {
        Some(t) => match t.text("last_delivery_started_at") {
            Some(at) => read_instant(at),
            None => None,
        },
        None => None,
    }
}

/// An actor as one to be visited.
pub open spec fn candidate(group_id: Text, a: BrowserActorV) -> CandidateV {
    CandidateV { group_id, actor_id: a.id, started: last_start(a.target) }
}

/// The first actors of a group that are delivered to.
pub open spec fn candidates_in(g: BrowserGroupV, n: nat) -> Seq<CandidateV>
    decreases n,
{
    if n == 0 {
        Seq::empty()
    } else if is_delivered_to(g.running, g.state, g.actors[n - 1]) {
        candidates_in(g, (n - 1) as nat).push(candidate(g.group_id, g.actors[n - 1]))
    } else {
        candidates_in(g, (n - 1) as nat)
    }
}

/// The actors of groups that are delivered to, group by group.
pub open spec fn candidates(groups: Seq<BrowserGroupV>) -> Seq<CandidateV>
    decreases groups.len(),
{
    if groups.len() == 0 {
        Seq::empty()
    } else {
        candidates(groups.drop_last()) + candidates_in(groups.last(), groups.last().actors.len())
    }
}

fn gather(g: &BrowserGroup, out: &mut Vec<Candidate>)
    ensures
        views(final(out)@) == views(old(out)@) + candidates_in(g@, g@.actors.len()),
{
    let ghost first = views(out@);
    let mut i: usize = 0;
    proof {
        assert(views(out@) =~= first + candidates_in(g@, 0));
    }
    while i < g.actors.len()
        invariant
            i <= g.actors@.len(),
            views(out@) == first + candidates_in(g@, i as nat),
        decreases g.actors@.len() - i,
    {
        let a = &g.actors[i];
        proof {
            assert(g@.actors[i as int] == a@);
        }
        if group_actor_delivery_enabled(g.running, g.state, a) {
            let c = Candidate {
                group_id: g.group_id.clone(),
                actor_id: a.id.clone(),
                started: start_of(&a.target),
            };
            let ghost b = out@;
            out.push(c);
            proof {
                assert(c@ == candidate(g@.group_id, a@));
                lemma_views_push(b, c);
                assert(views(out@) =~= first + candidates_in(g@, (i + 1) as nat));
            }
        }
        i += 1;
    }
}

fn in_order(found: Vec<Candidate>) -> (r: Vec<Candidate>)
    ensures
        views(r@) == in_turn(views(found@)),
{
    let ghost all = views(found@);
    let mut rest = found;
    let mut r: Vec<Candidate> = Vec::new();
    let mut done: usize = 0;
    let n: usize = rest.len();
    proof {
        assert(views(r@) =~= in_turn(all.take(0)));
        assert(all.skip(0) =~= all);
    }
    while done < n
        invariant
            done <= n,
            n == all.len(),
            rest@.len() == n - done,
            views(rest@) == all.skip(done as int),
            views(r@) == in_turn(all.take(done as int)),
        decreases n - done,
    {
        let ghost before = rest@;
        let x = rest.remove(0);
        proof {
            assert(views(before)[0] == before[0]@);
            assert(x@ == all[done as int]);
            assert(views(rest@) =~= views(before).skip(1));
            assert(views(rest@) =~= all.skip(done + 1));
            assert(all.take(done + 1).drop_last() =~= all.take(done as int));
        }
        place(&mut r, x);
        done += 1;
    }
    proof {
        assert(all.take(n as int) =~= all);
    }
    r
}

/// The actors that are delivered to through the browser, in the order in which they are visited.
pub fn running_browser_actors(groups: &Vec<BrowserGroup>) -> (r: Vec<Candidate>)
    ensures
        views(r@) == in_turn(candidates(views(groups@))),
{
    let ghost all = views(groups@);
    let mut found: Vec<Candidate> = Vec::new();
    let mut i: usize = 0;
    proof {
        assert(views(found@) =~= candidates(all.take(0)));
    }
    while i < groups.len()
        invariant
            i <= groups@.len(),
            all == views(groups@),
            views(found@) == candidates(all.take(i as int)),
        decreases groups@.len() - i,
    {
        gather(&groups[i], &mut found);
        proof {
            assert(all.take(i + 1).drop_last() =~= all.take(i as int));
            assert(all.take(i + 1).last() == groups@[i as int]@);
        }
        i += 1;
    }
    proof {
        assert(all.take(i as int) =~= all);
    }
    in_order(found)
}

/// The arguments with which an actor is reminded of open decisions: the given ones, with the actor
/// as the caller and whether its page is idle.
pub open spec fn reminder_arguments(args: ObjV, actor_id: Text, idle: bool) -> ObjV {
    args.insert("by"@, JsonV::Str(actor_id)).insert("browser_idle"@, JsonV::Bool(idle))
}

/// The arguments with which an actor is reminded of open decisions. A page that cannot be looked at
/// is not taken for idle.
pub fn relay_reminder_args(args: JsonMap, actor_id: &str, idle: Option<bool>) -> (r: JsonMap)
    ensures
        r@ == reminder_arguments(args@, actor_id@, idle == Some(true)),
{
    let mut m = args;
    m.put("by", Json::str(actor_id));
    m.put(
        "browser_idle",
        Json::Bool(
            match idle {
                Some(b) => b,
                None => false,
            },
        ),
    );
    m
}

/// Whether no candidate is sooner than one before it.
pub open spec fn is_in_turn(s: Seq<CandidateV>) -> bool {
    forall|i: int, j: int|
        0 <= i < j < s.len() ==> !sooner(#[trigger] s[j].started, #[trigger] s[i].started)
}

proof fn lemma_placed(s: Seq<CandidateV>, x: CandidateV)
    requires
        is_in_turn(s),
    ensures
        is_in_turn(placed(s, x)),
        placed(s, x).to_multiset() == s.to_multiset().insert(x),
        forall|e: CandidateV| #[trigger] placed(s, x).contains(e) <==> s.contains(e) || e == x,
    decreases s.len(),
{
    broadcast use vstd::seq_lib::group_to_multiset_ensures;

    let r = placed(s, x);
    if s.len() > 0 && sooner(x.started, s.last().started) {
        let d = s.drop_last();
        let w = placed(d, x);
        assert forall|i: int, j: int| 0 <= i < j < d.len() implies !sooner(
            #[trigger] d[j].started,
            #[trigger] d[i].started,
        ) by {
            assert(!sooner(s[j].started, s[i].started));
        }
        lemma_placed(d, x);
        assert(d.push(s.last()) =~= s);
        assert forall|i: int, j: int| 0 <= i < j < r.len() implies !sooner(
            #[trigger] r[j].started,
            #[trigger] r[i].started,
        ) by {
            if j == r.len() - 1 {
                assert(w.contains(w[i]));
                if w[i] != x {
                    let k = choose|k: int| 0 <= k < d.len() && d[k] == w[i];
                    assert(!sooner(s[s.len() - 1].started, s[k].started));
                }
            } else {
                assert(!sooner(w[j].started, w[i].started));
            }
        }
        assert forall|e: CandidateV| #[trigger] r.contains(e) <==> s.contains(e) || e == x by {
            if r.contains(e) {
                let k = choose|k: int| 0 <= k < r.len() && r[k] == e;
                if k < w.len() {
                    assert(w.contains(w[k]));
                    if e != x {
                        let m = choose|m: int| 0 <= m < d.len() && d[m] == e;
                        assert(s[m] == e);
                    }
                } else {
                    assert(s[s.len() - 1] == e);
                }
            }
            if s.contains(e) || e == x {
                if s.contains(e) && e == s.last() {
                    assert(r[r.len() - 1] == e);
                } else {
                    if s.contains(e) {
                        let m = choose|m: int| 0 <= m < s.len() && s[m] == e;
                        assert(d[m] == e);
                        assert(d.contains(e));
                    }
                    assert(w.contains(e));
                    let k = choose|k: int| 0 <= k < w.len() && w[k] == e;
                    assert(r[k] == e);
                }
            }
        }
    } else {
        assert forall|i: int, j: int| 0 <= i < j < r.len() implies !sooner(
            #[trigger] r[j].started,
            #[trigger] r[i].started,
        ) by {
            if j == r.len() - 1 {
                if i < s.len() - 1 {
                    assert(!sooner(s[s.len() - 1].started, s[i].started));
                }
            } else {
                assert(!sooner(s[j].started, s[i].started));
            }
        }
        assert forall|e: CandidateV| #[trigger] r.contains(e) <==> s.contains(e) || e == x by {
            if s.contains(e) {
                let k = choose|k: int| 0 <= k < s.len() && s[k] == e;
                assert(r[k] == e);
            }
            if e == x {
                assert(r[r.len() - 1] == e);
            }
            if r.contains(e) {
                let k = choose|k: int| 0 <= k < r.len() && r[k] == e;
                if k < s.len() {
                    assert(s[k] == e);
                }
            }
        }
    }
}

/// Every candidate is visited once, and one that was never delivered to comes before one that
/// was, one delivered to longer ago before one delivered to later.
pub proof fn everybody_is_visited_in_turn(s: Seq<CandidateV>)
    ensures
        is_in_turn(in_turn(s)),
        in_turn(s).to_multiset() == s.to_multiset(),
    decreases s.len(),
{
    broadcast use vstd::seq_lib::group_to_multiset_ensures;

    if s.len() > 0 {
        let d = s.drop_last();
        everybody_is_visited_in_turn(d);
        lemma_placed(in_turn(d), s.last());
        assert(d.push(s.last()) =~= s);
    }
}

} // verus!
