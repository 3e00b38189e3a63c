//! What is typed into the conversation: the batch, and the session bootstrap where it is due.

use crate::json::{or_empty, Json, JsonMap, JsonV, ObjV};
use crate::lists::{lemma_views, lemma_views_push};
use crate::relay::accept::{strings_at, strings_under};
use crate::relay::ids::{hex_digest, hex_digest_of};
use crate::text::{
    after_last, blank, chars_of, first_chars, head, is_blank, join, joined, string_of, tail_after,
    texts, Text,
};
use vstd::prelude::*;
use vstd::string::*;

verus! {

broadcast use {lemma_views, lemma_views_push};

/// The version of the session bootstrap.
pub const BOOTSTRAP_SEED_VERSION: &'static str = "web-model-bootstrap-normal-system-prompt-v2";

/// What a model is told about a transport-only image.
pub const COMPATIBILITY_IMAGE_NOTE: &'static str = "[CCCC] Compatibility attachment: the blank image is transport-only and carries no task context.";

/// What a model is told about the browser conversation as a transport.
pub const WEB_TRANSPORT_NOTE: &'static str = "[CCCC] Web transport:\n- This browser conversation is the web surface for the actor above.\n- Browser-injected messages are already delivered in chat; do not call cccc_runtime_wait_next_turn for them.\n- Use CCCC MCP tools for visible replies, handoffs, local workspace work, validation, and evidence.\n- A completed member report remains the human-facing output. After reviewing it, call cccc_coordination(action=\"decide\", event_ids=[...], decision=\"continue\"|\"wait_user\"|\"complete\"|\"blocked\") only to record machine responsibility. Keep your normal assistant reply for people and do not repeat the report in summary. Reading or replying alone does not resolve the handoff.\n- continue must include next_actor_id, next_title, and next_text so real work is created and delivered. End this turn only after the decision result says caller_may_idle=true; safe_to_idle tells whether the whole group may be quiet.\n- For non-trivial local development work, default to cccc_code_exec so repo reads, patches, tests, diffs, and reports stay in one focused Codex-style loop; use direct tools only for simple one-step actions.\n- If cccc_coordination is visible but rejects decide as an unavailable action, this conversation cached an older connector schema. Create and bind a new chat; do not substitute add_decision or add_handoff because they do not resolve responsibility.\n- If CCCC MCP tools are not visible in the selected web model, you do not have CCCC local access in this chat; tell the user to switch to a supported session that can see the CCCC connector.\n- Text typed only in this web chat is not delivered to CCCC users or peers.";

/// A failed request to the web surface.
pub enum ApiError {
    /// The request cannot be served as it stands.
    Bad(String),
    /// Something it needs is not available: a code and a message.
    Unavailable(String, String),
}

/// The mathematical value of a failed request.
pub enum ApiErrorV {
    Bad(Text),
    Unavailable(Text, Text),
}

impl View for ApiError {
    type V = ApiErrorV;

    open spec fn view(&self) -> ApiErrorV {
        match self {
            ApiError::Bad(m) => ApiErrorV::Bad(m@),
            ApiError::Unavailable(c, m) => ApiErrorV::Unavailable(c@, m@),
        }
    }
}

/// The value of a result of a request.
pub open spec fn answered<T: View>(r: Result<T, ApiError>) -> Result<T::V, ApiErrorV> {
    match r {
        Ok(x) => Ok(x@),
        Err(e) => Err(e@),
    }
}

/// A member that must be a string that is not blank.
pub open spec fn needed(v: JsonV, key: Text) -> Result<Text, ApiErrorV> {
    match v.at(key).text() {
        Some(t) => if is_blank(t) {
            Err(ApiErrorV::Bad("runtime turn missing "@ + key))
        } else {
            Ok(t)
        },
        None => Err(ApiErrorV::Bad("runtime turn missing "@ + key)),
    }
}

/// A member that must be a string that is not blank.
pub fn required(value: &Json, key: &str) -> (r: Result<String, ApiError>)
    ensures
        answered(r) == needed(value@, key@),
{
    if let Some(t) = value.text(key) {
        if !blank(t) {
            return Ok(t.to_owned());
        }
    }
    let mut m = "runtime turn missing ".to_owned();
    m.append(key);
    Err(ApiError::Bad(m))
}

/// The id of a delivery: the actor, and the part of the turn id behind its last colon.
pub open spec fn delivery_id_text(actor_id: Text, turn_id: Text) -> Text {
    "webdelivery:"@ + actor_id + ":"@ + after_last(turn_id, ':')
}

/// The id of a delivery.
pub fn browser_delivery_id(actor_id: &str, turn_id: &str) -> (r: String)
    ensures
        r@ == delivery_id_text(actor_id@, turn_id@),
{
    let key = tail_after(turn_id, ':');
    let mut r = "webdelivery:".to_owned();
    r.append(actor_id);
    r.append(":");
    r.append(key.as_str());
    r
}

/// The arguments of the call that waits for the next turn of the browser transport.
pub open spec fn wait_args(base: ObjV) -> ObjV {
    base.insert("transport"@, JsonV::Str("web_model_browser"@))
}

/// The arguments of the call that waits for the next turn of the browser transport, on top of
/// those that every call has.
pub fn browser_wait_args(base: &JsonMap) -> (r: JsonMap)
    ensures
        r@ == wait_args(base@),
{
    let mut m = base.copy();
    m.put("transport", Json::str("web_model_browser"));
    m
}

/// The session bootstrap: its text and the digest that it is known by.
pub struct BootstrapSeed {
    pub text: String,
    pub digest: String,
}

/// The mathematical value of a session bootstrap.
pub struct SeedV {
    pub text: Text,
    pub digest: Text,
}

impl View for BootstrapSeed {
    type V = SeedV;

    open spec fn view(&self) -> SeedV {
        SeedV { text: self.text@, digest: self.digest@ }
    }
}

/// The value of an optional session bootstrap.
pub open spec fn opt_seed(o: Option<BootstrapSeed>) -> Option<SeedV> {
    match o {
        Some(s) => Some(s@),
        None => None,
    }
}

/// The digest that a session bootstrap is known by.
pub open spec fn seed_digest(text: Text) -> Text {
    first_chars(hex_digest(text), 20)
}

/// The digest that a session bootstrap is known by.
pub fn bootstrap_seed_digest(seed: &str) -> (r: String)
    ensures
        r@ == seed_digest(seed@),
{
    let h = hex_digest_of(seed);
    head(h.as_str(), 20)
}

/// The text of the session bootstrap for a system prompt.
pub open spec fn seed_text(system_prompt: Text) -> Text {
    "[CCCC] Session bootstrap for this browser chat:\n\n"@ + system_prompt + "\n\n"@
        + WEB_TRANSPORT_NOTE@
}

/// Whether the conversation has already been given this very bootstrap.
pub open spec fn seed_delivered(target: JsonV, target_url: Text, digest: Text) -> bool {
    &&& or_empty(target.at("bootstrap_seed_delivered_at"@).text()).len() > 0
    &&& target.at("bootstrap_seed_version"@).text() == Some(BOOTSTRAP_SEED_VERSION@)
    &&& target.at("bootstrap_seed_digest"@).text() == Some(digest)
    &&& target.at("bootstrap_seed_conversation_url"@).text() == Some(target_url)
}

/// Whether the turn is delivered with a transport-only image.
pub open spec fn wants_image(turn: JsonV) -> bool {
    turn.at("delivery"@).at("web_model_mode"@) == JsonV::Str("image_compat"@)
}

/// Whether the turn is delivered with a transport-only image.
pub fn needs_image(turn: &Json) -> (r: bool)
    ensures
        r == wants_image(turn@),
{
    let d = turn.at("delivery");
    d.is("web_model_mode", "image_compat")
}

/// What is typed for a turn, and the bootstrap in it, if one is due.
pub open spec fn browser_prompt(
    turn: JsonV,
    target: JsonV,
    target_url: Text,
    actor_id: Text,
    delivery_id: Text,
    event_label: Text,
) -> Result<(Text, Option<SeedV>), ApiErrorV> {
    match needed(turn, "coalesced_text"@) {
        Err(e) => Err(e),
        Ok(prompt) => match needed(turn, "system_prompt"@) {
            Err(e) => Err(e),
            Ok(system_prompt) => {
                let text = seed_text(system_prompt);
                let digest = seed_digest(text);
                let seed = if seed_delivered(target, target_url, digest) {
                    None
                } else {
                    Some(SeedV { text, digest })
                };
                let setup = if seed is Some {
                    text + "\n\n"@
                } else {
                    Seq::empty()
                };
                let note = if wants_image(turn) {
                    COMPATIBILITY_IMAGE_NOTE@ + "\n"@
                } else {
                    Seq::empty()
                };
                Ok(
                    (
                        setup + "[cccc] Browser batch "@ + delivery_id + " events="@ + event_label
                            + " actor="@ + actor_id + "\n"@ + note + prompt,
                        seed,
                    ),
                )
            },
        },
    }
}

fn has_seed(target: &Json, target_url: &str, digest: &str) -> (r: bool)
    ensures
        r == seed_delivered(target@, target_url@, digest@),
{
    let at = target.text_or_empty("bootstrap_seed_delivered_at");
    !at.as_str().is_empty() && target.is("bootstrap_seed_version", BOOTSTRAP_SEED_VERSION)
        && target.is("bootstrap_seed_digest", digest) && target.is(
        "bootstrap_seed_conversation_url",
        target_url,
    )
}

/// What is typed for a turn, and the bootstrap in it, if one is due.
pub fn build_browser_prompt(
    turn: &Json,
    target: &Json,
    target_url: &str,
    actor_id: &str,
    delivery_id: &str,
    event_label: &str,
) -> (r: Result<(String, Option<BootstrapSeed>), ApiError>)
    ensures
        match r {
            Ok((t, s)) => browser_prompt(
                turn@,
                target@,
                target_url@,
                actor_id@,
                delivery_id@,
                event_label@,
            ) == Ok::<(Text, Option<SeedV>), ApiErrorV>((t@, opt_seed(s))),
            Err(e) => browser_prompt(
                turn@,
                target@,
                target_url@,
                actor_id@,
                delivery_id@,
                event_label@,
            ) == Err::<(Text, Option<SeedV>), ApiErrorV>(e@),
        },
{
    let prompt = required(turn, "coalesced_text")?;
    let system_prompt = required(turn, "system_prompt")?;
    let mut text = "[CCCC] Session bootstrap for this browser chat:\n\n".to_owned();
    text.append(system_prompt.as_str());
    text.append("\n\n");
    text.append(WEB_TRANSPORT_NOTE);
    let digest = bootstrap_seed_digest(text.as_str());
    let known = has_seed(target, target_url, digest.as_str());
    let mut all = String::new();
    if !known {
        all.append(text.as_str());
        all.append("\n\n");
    }
    proof {
        assert(all@ =~= if known {
            Seq::empty()
        } else {
            text@ + "\n\n"@
        });
    }
    all.append("[cccc] Browser batch ");
    all.append(delivery_id);
    all.append(" events=");
    all.append(event_label);
    all.append(" actor=");
    all.append(actor_id);
    all.append("\n");
    let ghost front = all@;
    if needs_image(turn) {
        all.append(COMPATIBILITY_IMAGE_NOTE);
        all.append("\n");
        proof {
            assert(all@ =~= front + (COMPATIBILITY_IMAGE_NOTE@ + "\n"@));
        }
    } else {
        proof {
            assert(all@ =~= front + Seq::empty());
        }
    }
    all.append(prompt.as_str());
    let seed = if known {
        None
    } else {
        Some(BootstrapSeed { text, digest })
    };
    Ok((all, seed))
}

/// The ids of the events of a turn, with commas between them.
pub open spec fn event_label(v: JsonV, key: Text) -> Text {
    joined(strings_at(v, key), ","@)
}

/// The ids of the events of a turn, with commas between them.
pub fn event_label_of(v: &Json, key: &str) -> (r: String)
    ensures
        r@ == event_label(v@, key@),
{
    let ids = strings_under(v, key);
    join(&ids, ",")
}

/// One message of an older staged prompt.
pub open spec fn legacy_line(event: JsonV, actor_id: Text) -> Text {
    "["@ + or_empty(event.at("by"@).text()) + " -> "@ + actor_id + "] "@ + or_empty(
        event.at("data"@).at("text"@).text(),
    )
}

/// An older staged prompt: its messages with empty lines between them, cut where it is too long.
pub open spec fn legacy_prompt(turn: JsonV) -> Result<Text, ApiErrorV> {
    match needed(turn, "actor_id"@) {
        Err(e) => Err(e),
        Ok(actor_id) => match turn.at("messages"@).list() {
            None => Err(ApiErrorV::Bad("recovered runtime turn missing messages"@)),
            Some(messages) => {
                let all = joined(
                    messages.map_values(|e: JsonV| legacy_line(e, actor_id)),
                    "\n\n"@,
                );
                Ok(
                    if all.len() > 24_000 {
                        all.take(23_920) + "\n\n[cccc] coalesced turn text truncated"@
                    } else {
                        all
                    },
                )
            },
        },
    }
}

fn legacy_line_of(event: &Json, actor_id: &str) -> (r: String)
    ensures
        r@ == legacy_line(event@, actor_id@),
{
    let data = event.at("data");
    let by = event.text_or_empty("by");
    let text = data.text_or_empty("text");
    let mut r = "[".to_owned();
    r.append(by.as_str());
    r.append(" -> ");
    r.append(actor_id);
    r.append("] ");
    r.append(text.as_str());
    r
}

/// An older staged prompt.
pub fn legacy_wmd_staged_prompt(turn: &Json) -> (r: Result<String, ApiError>)
    ensures
        answered(r) == legacy_prompt(turn@),
{
    let actor_id = required(turn, "actor_id")?;
    let messages = match turn.list("messages") {
        Some(v) => v,
        None => {
            return Err(ApiError::Bad("recovered runtime turn missing messages".to_owned()));
        },
    };
    let mut lines: Vec<String> = Vec::new();
    let mut i: usize = 0;
    proof {
        crate::json::lemma_values(messages@);
    }
    while i < messages.len()
        invariant
            i <= messages@.len(),
            lines@.len() == i,
            forall|j: int| 0 <= j < i ==> (#[trigger] lines@[j])@ == legacy_line(
                messages@[j]@,
                actor_id@,
            ),
        decreases messages@.len() - i,
    {
        lines.push(legacy_line_of(&messages[i], actor_id.as_str()));
        i += 1;
    }
    proof {
        assert(texts(lines@) =~= crate::json::values(messages@).map_values(
            |e: JsonV| legacy_line(e, actor_id@),
        ));
    }
    let all = join(&lines, "\n\n");
    let v = chars_of(all.as_str());
    if v.len() > 24_000 {
        let mut cut = string_of(&v, 0, 23_920);
        cut.append("\n\n[cccc] coalesced turn text truncated");
        proof {
            assert(v@.subrange(0, 23_920) =~= all@.take(23_920));
        }
        Ok(cut)
    } else {
        Ok(all)
    }
}

/// A prompt names its delivery, its actor and its events, and ends with the text of the turn.
pub proof fn a_prompt_ends_with_the_text_of_the_turn(
    turn: JsonV,
    target: JsonV,
    target_url: Text,
    actor_id: Text,
    delivery_id: Text,
    label: Text,
)
    ensures
        browser_prompt(turn, target, target_url, actor_id, delivery_id, label) matches Ok((t, s))
            ==> {
            let text = or_empty(turn.at("coalesced_text"@).text());
            t.len() >= text.len() && t.skip(t.len() - text.len()) == text
        },
{
    let r = browser_prompt(turn, target, target_url, actor_id, delivery_id, label);
    if r is Ok {
        let t = r->Ok_0.0;
        let text = or_empty(turn.at("coalesced_text"@).text());
        assert(t.skip(t.len() - text.len()) =~= text);
    }
}

} // verus!
