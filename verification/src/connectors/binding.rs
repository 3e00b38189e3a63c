//! Binding a conversation to a connector with a code that works once and for a limited time.

use crate::connectors::entry::{hash_secret, is_revoked, revoked, Entry, EntryV};
use crate::connectors::store::{collapse_active_duplicates, collapsed, found, stored, Store};
use crate::failure::{failed, Failure, FailureKind, FailureV};
use crate::json::{field, or_null, text_field, text_or_empty, Json, JsonMap, JsonV, ObjV};
use crate::lists::{any_of, lemma_views, lemma_views_push, select, some_match};
use crate::model::{ActorRole, ActorRuntime, GroupDoc, GroupV};
use crate::relay::ids::hex_digest;
use crate::text::{str_eq, trim, trimmed, Text};
use crate::time::{is_instant, read_instant, rfc3339, Instant};
use uuid::Uuid;
use vstd::prelude::*;
use vstd::string::*;

verus! {

broadcast use {lemma_views, lemma_views_push};

/// The value of a group that may have failed to load.
pub open spec fn loaded(group: Result<GroupDoc, Failure>) -> Result<GroupV, FailureV> {
    match group {
        Ok(g) => Ok(g@),
        Err(e) => Err(e@),
    }
}

/// Whether a connector is of the right kind and in use.
pub open spec fn usable(item: ObjV) -> bool {
    text_field(item, "kind"@) == Some("web_model_connector"@) && field(item, "revoked"@) != Some(
        JsonV::Bool(true),
    )
}

fn is_usable(item: &JsonMap) -> (r: bool)
    ensures
        r == usable(item@),
{
    item.is("kind", "web_model_connector") && !is_revoked(item)
}

/// Whether the actor may hold a conversation: enabled, a web model, and the foreman.
pub open spec fn may_converse(g: GroupV, actor_id: Text) -> bool {
    match g.find(actor_id) {
        Some(a) => a.enabled && a.runtime == ActorRuntime::WebModel && a.role
            == ActorRole::Foreman,
        None => false,
    }
}

/// The check that a connector speaks for an actor that may hold a conversation.
pub open spec fn actor_check(item: ObjV, group: Result<GroupV, FailureV>) -> Result<(), FailureV> {
    if text_field(item, "kind"@) != Some("web_model_connector"@) {
        Err(failed(FailureKind::InvalidInput, "invalid_connector_kind"@))
    } else if revoked(item) {
        Err(failed(FailureKind::PermissionDenied, "connector_revoked"@))
    } else {
        match group {
            Err(e) => Err(e),
            Ok(g) => if may_converse(g, text_or_empty(item, "actor_id"@)) {
                Ok(())
            } else {
                Err(failed(FailureKind::PermissionDenied, "connector_actor_unavailable"@))
            },
        }
    }
}

/// The value of a check.
pub open spec fn checked(r: Result<(), Failure>) -> Result<(), FailureV> {
    match r {
        Ok(_) => Ok(()),
        Err(e) => Err(e@),
    }
}

/// Checks that a connector speaks for an actor that may hold a conversation. `group` is the group
/// that the connector names, or why it could not be loaded.
pub fn validate_session_actor(item: &JsonMap, group: &Result<GroupDoc, Failure>) -> (r: Result<
    (),
    Failure,
>)
    ensures
        checked(r) == actor_check(item@, loaded(*group)),
{
    if !item.is("kind", "web_model_connector") {
        return Err(Failure::new(FailureKind::InvalidInput, "invalid_connector_kind"));
    }
    if is_revoked(item) {
        return Err(Failure::new(FailureKind::PermissionDenied, "connector_revoked"));
    }
    match group {
        Err(e) => Err(e.copy()),
        Ok(g) => {
            let actor_id = item.text_or_empty("actor_id");
            let valid = match g.find(actor_id.as_str()) {
                Some(a) => a.enabled && a.runtime == ActorRuntime::WebModel && a.role
                    == ActorRole::Foreman,
                None => false,
            };
            if valid {
                Ok(())
            } else {
                Err(Failure::new(FailureKind::PermissionDenied, "connector_actor_unavailable"))
            }
        },
    }
}

/// Whether a usable connector holds the hash under a key.
pub open spec fn holds_hash(e: EntryV, key: Text, hash: Text) -> bool {
    usable(e.item) && text_field(e.item, key) == Some(hash)
}

/// The usable connectors that hold the hash under a key.
pub open spec fn holders(s: Seq<EntryV>, key: Text, hash: Text) -> Seq<EntryV> {
    s.filter(|e: EntryV| holds_hash(e, key, hash))
}

/// The one usable connector that holds the hash of a secret under a key: none for a blank secret
/// or an unknown one; two are a conflict.
pub open spec fn by_secret(s: Seq<EntryV>, key: Text, raw: Text) -> Result<Option<ObjV>, FailureV> {
    let all = holders(s, key, hex_digest(trimmed(raw)));
    if trimmed(raw).len() == 0 || all.len() == 0 {
        Ok(None)
    } else if all.len() == 1 {
        Ok(Some(all[0].item))
    } else {
        Err(failed(FailureKind::Other, "connector_binding_conflict"@))
    }
}

/// The value of a search that may fail.
pub open spec fn searched(r: Result<Option<JsonMap>, Failure>) -> Result<Option<ObjV>, FailureV> {
    match r {
        Ok(Some(m)) => Ok(Some(m@)),
        Ok(None) => Ok(None),
        Err(e) => Err(e@),
    }
}

fn find_binding_hash(store: &Store, key: &str, raw: &str) -> (r: Result<Option<JsonMap>, Failure>)
    ensures
        searched(r) == by_secret(store@, key@, raw@),
{
    let raw = trim(raw);
    if raw.as_str().is_empty() {
        return Ok(None);
    }
    let wanted = hash_secret(raw.as_str());
    let ghost sp = |e: EntryV| holds_hash(e, key@, wanted@);
    let all = select(
        &store.entries,
        |e: &Entry| -> (b: bool)
            ensures (b == holds_hash(e@, key@, wanted@))
        {
            is_usable(&e.item) && e.item.is(key, wanted.as_str())
        },
        |e: &Entry| -> (c: Entry)
            ensures (c@ == e@)
        {
            e.copy()
        },
        Ghost(sp),
    );
    if all.len() > 1 {
        return Err(Failure::new(FailureKind::Other, "connector_binding_conflict"));
    }
    if all.len() == 0 {
        return Ok(None);
    }
    Ok(Some(all[0].item.copy()))
}

/// The connector that a conversation is bound to, before its actor is checked.
pub fn find_session_route(store: &Store, session: &str) -> (r: Result<Option<JsonMap>, Failure>)
    ensures
        searched(r) == by_secret(store@, "session_hash"@, session@),
{
    find_binding_hash(store, "session_hash", session)
}

/// The connector that a conversation is bound to, where its actor may hold one.
pub open spec fn session_route(
    s: Seq<EntryV>,
    session: Text,
    group: Result<GroupV, FailureV>,
) -> Result<Option<ObjV>, FailureV> {
    match by_secret(s, "session_hash"@, session) {
        Err(e) => Err(e),
        Ok(None) => Ok(None),
        Ok(Some(item)) => match actor_check(item, group) {
            Ok(_) => Ok(Some(item)),
            Err(e) => Err(e),
        },
    }
}

/// The connector that a conversation is bound to. `group` is the group that the connector names,
/// or why it could not be loaded; it is not looked at where there is no such connector.
pub fn find_session(store: &Store, session: &str, group: &Result<GroupDoc, Failure>) -> (r: Result<
    Option<JsonMap>,
    Failure,
>)
    ensures
        searched(r) == session_route(store@, session@, loaded(*group)),
{
    let route = find_binding_hash(store, "session_hash", session)?;
    match route {
        Some(item) => {
            validate_session_actor(&item, group)?;
            Ok(Some(item))
        },
        None => Ok(None),
    }
}

/// The connector that a binding code was issued for. The code is not consumed.
pub fn find_binding_code(store: &Store, code: &str) -> (r: Result<Option<JsonMap>, Failure>)
    ensures
        searched(r) == by_secret(store@, "binding_code_hash"@, code@),
{
    find_binding_hash(store, "binding_code_hash", code)
}

/// Whether the character is a lower-case hexadecimal digit.
pub open spec fn is_hex_char(c: char) -> bool {
    '0' <= c <= '9' || 'a' <= c <= 'f'
}

/// Calls `uuid::Uuid::new_v4` and writes it in the simple format. Claims that the text has 32
/// lower-case hexadecimal digits; which ones is left to chance.
#[verifier::external_body]
fn random_id() -> (r: String)
    ensures
        r@.len() == 32,
        forall|i: int| 0 <= i < r@.len() ==> is_hex_char(#[trigger] r@[i]),
{
    Uuid::new_v4().simple().to_string()
}

/// The instant at which a code issued now stops working: at most an hour from now.
pub open spec fn expiry(now: Instant, ttl_seconds: int) -> Instant {
    Instant {
        secs: (now.secs + if ttl_seconds < 0 {
            0
        } else if ttl_seconds > 3600 {
            3600
        } else {
            ttl_seconds
        }) as i64,
        ..now
    }
}

/// A connector with a binding code: its hash and its expiry, and nothing of the code itself.
pub open spec fn with_code(item: ObjV, code: Text, expires: Text, now: Text) -> ObjV {
    item.insert("binding_code_hash"@, JsonV::Str(hex_digest(code))).insert(
        "binding_expires_at"@,
        JsonV::Str(expires),
    ).insert("updated_at"@, JsonV::Str(now))
}

/// What the issuer of a code is told.
pub open spec fn issued(code: Text, expires: Text) -> ObjV {
    map![
        "code"@ => JsonV::Str(code),
        "binding_expires_at"@ => JsonV::Str(expires),
    ]
}

/// The connector that a code is issued for.
pub open spec fn issuable(
    s: Seq<EntryV>,
    id: Text,
    group: Result<GroupV, FailureV>,
) -> Result<ObjV, FailureV> {
    match found(s, trimmed(id)) {
        None => Err(failed(FailureKind::NotFound, "connector_not_found"@)),
        Some(e) => match actor_check(e.item, group) {
            Err(x) => Err(x),
            Ok(_) => Ok(e.item),
        },
    }
}

/// Issues a code for a connector. The conversation that is bound stays bound; an earlier code
/// stops working. A refusal leaves the store as it was.
pub fn issue_binding(
    store: &mut Store,
    connector_id: &str,
    code: &str,
    ttl_seconds: i64,
    group: &Result<GroupDoc, Failure>,
    now: Instant,
) -> (r: Result<JsonMap, Failure>)
    requires
        old(store).wf(),
        now.secs <= i64::MAX - 3600,
    ensures
        final(store).wf(),
        match r {
            Ok(told) => {
                let item = issuable(old(store)@, connector_id@, loaded(*group))->Ok_0;
                let expires = expiry(now, ttl_seconds as int).text();
                &&& issuable(old(store)@, connector_id@, loaded(*group)) is Ok
                &&& told@ == issued(code@, expires)
                &&& expiry(now, ttl_seconds as int).is_usual() ==> is_instant(
                    expires,
                    expiry(now, ttl_seconds as int),
                )
                &&& final(store)@ == collapsed(
                    stored(
                        old(store)@,
                        trimmed(connector_id@),
                        with_code(item, code@, expires, now.text()),
                    ),
                )
            },
            Err(e) => issuable(old(store)@, connector_id@, loaded(*group)) == Err::<ObjV, FailureV>(
                e@,
            ) && final(store)@ == old(store)@,
        },
{
    let id = trim(connector_id);
    let mut item = match store.get(id.as_str()) {
        None => {
            return Err(Failure::new(FailureKind::NotFound, "connector_not_found"));
        },
        Some(e) => e.item.copy(),
    };
    validate_session_actor(&item, group)?;
    let ttl: i64 = if ttl_seconds < 0 {
        0
    } else if ttl_seconds > 3600 {
        3600
    } else {
        ttl_seconds
    };
    let expires = Instant { secs: now.secs + ttl, nanos: now.nanos };
    let expires_at = expires.stamp();
    let now_text = now.stamp();
    item.put("binding_code_hash", Json::Str(hash_secret(code)));
    item.put("binding_expires_at", Json::str(expires_at.as_str()));
    item.put("updated_at", Json::Str(now_text));
    store.put(id.as_str(), item);
    *store = collapse_active_duplicates(store);
    let mut told = JsonMap::new();
    told.put("code", Json::str(code));
    told.put("binding_expires_at", Json::Str(expires_at));
    Ok(told)
}

/// Whether the text has the form of a binding code.
pub open spec fn is_code(t: Text) -> bool {
    &&& t.len() == 69
    &&& t.take(5) == "cccb_"@
    &&& forall|i: int| 5 <= i < 69 ==> is_hex_char(#[trigger] t[i])
}

/// Issues a random code for a connector. Only the answer holds the code; the store keeps its
/// hash.
pub fn prepare_binding(
    store: &mut Store,
    connector_id: &str,
    ttl_seconds: i64,
    group: &Result<GroupDoc, Failure>,
    now: Instant,
) -> (r: Result<JsonMap, Failure>)
    requires
        old(store).wf(),
        now.secs <= i64::MAX - 3600,
    ensures
        final(store).wf(),
        match r {
            Ok(told) => {
                let item = issuable(old(store)@, connector_id@, loaded(*group))->Ok_0;
                let expires = expiry(now, ttl_seconds as int).text();
                let code = text_or_empty(told@, "code"@);
                &&& issuable(old(store)@, connector_id@, loaded(*group)) is Ok
                &&& is_code(code)
                &&& told@ == issued(code, expires)
                &&& expiry(now, ttl_seconds as int).is_usual() ==> is_instant(
                    expires,
                    expiry(now, ttl_seconds as int),
                )
                &&& final(store)@ == collapsed(
                    stored(
                        old(store)@,
                        trimmed(connector_id@),
                        with_code(item, code, expires, now.text()),
                    ),
                )
            },
            Err(e) => issuable(old(store)@, connector_id@, loaded(*group)) == Err::<ObjV, FailureV>(
                e@,
            ) && final(store)@ == old(store)@,
        },
{
    let mut code = "cccb_".to_owned();
    let a = random_id();
    let b = random_id();
    code.append(a.as_str());
    code.append(b.as_str());
    proof {
        reveal_strlit("cccb_");
        assert("cccb_"@.len() == 5);
        assert(code@.take(5) =~= "cccb_"@);
        assert forall|i: int| 5 <= i < 69 implies is_hex_char(#[trigger] code@[i]) by {
            if i < 37 {
                assert(code@[i] == a@[i - 5]);
            } else {
                assert(code@[i] == b@[i - 37]);
            }
        }
        reveal_strlit("code");
        reveal_strlit("binding_expires_at");
        assert("code"@.len() == 4);
        assert("binding_expires_at"@.len() == 18);
    }
    issue_binding(store, connector_id, code.as_str(), ttl_seconds, group, now)
}

/// Whether a code has expired: it has no readable expiry, or one that is not after now.
pub open spec fn expired(item: ObjV, now: Instant) -> bool {
    match text_field(item, "binding_expires_at"@) {
        None => true,
        Some(t) => match rfc3339(t) {
            None => true,
            Some((s, n)) => !(Instant { secs: s as i64, nanos: n as u32 }).is_after(now),
        },
    }
}

/// Whether another usable connector holds the conversation.
pub open spec fn taken_by_other(s: Seq<EntryV>, id: Text, hash: Text) -> bool {
    some_match(s, |e: EntryV| e.id != id && holds_hash(e, "session_hash"@, hash))
}

/// The connector that a conversation is bound to with a code, or why it is not.
pub open spec fn bindable(
    s: Seq<EntryV>,
    id: Text,
    code: Text,
    session: Text,
    group: Result<GroupV, FailureV>,
    now: Instant,
) -> Result<ObjV, FailureV> {
    if trimmed(session).len() == 0 {
        Err(failed(FailureKind::InvalidInput, "session_binding_required"@))
    } else if trimmed(code).len() == 0 {
        Err(failed(FailureKind::InvalidInput, "session_binding_code_invalid"@))
    } else {
        match found(s, trimmed(id)) {
            None => Err(failed(FailureKind::NotFound, "connector_not_found"@)),
            Some(e) => match actor_check(e.item, group) {
                Err(x) => Err(x),
                Ok(_) => if text_field(e.item, "binding_code_hash"@) != Some(
                    hex_digest(trimmed(code)),
                ) {
                    Err(failed(FailureKind::InvalidInput, "session_binding_code_invalid"@))
                } else if expired(e.item, now) {
                    Err(failed(FailureKind::TimedOut, "session_binding_code_expired"@))
                } else if taken_by_other(s, trimmed(id), hex_digest(trimmed(session))) {
                    Err(failed(FailureKind::AlreadyExists, "session_already_bound"@))
                } else {
                    Ok(e.item)
                },
            },
        }
    }
}

/// A connector bound to a conversation: its code is used up.
pub open spec fn bound_item(item: ObjV, session: Text, now: Text) -> ObjV {
    item.insert("session_hash"@, JsonV::Str(hex_digest(session))).insert(
        "session_bound_at"@,
        JsonV::Str(now),
    ).insert("binding_code_hash"@, JsonV::Str(""@)).insert(
        "binding_expires_at"@,
        JsonV::Str(""@),
    ).insert("updated_at"@, JsonV::Str(now))
}

/// What the caller of a successful binding is told.
pub open spec fn bound_answer(id: Text, item: ObjV) -> ObjV {
    map![
        "bound"@ => JsonV::Bool(true),
        "connector_id"@ => JsonV::Str(id),
        "group_id"@ => or_null(field(item, "group_id"@)),
        "actor_id"@ => or_null(field(item, "actor_id"@)),
    ]
}

fn has_expired(item: &JsonMap, now: Instant) -> (r: bool)
    ensures
        r == expired(item@, now),
{
    match item.text("binding_expires_at") {
        None => true,
        Some(t) => match read_instant(t) {
            None => true,
            Some(at) => !at.after(now),
        },
    }
}

/// Binds a conversation to a connector with a code, which is used up by it. A refusal leaves the
/// store as it was. `group` is the group that the connector names, or why it could not be loaded.
pub fn bind_session(
    store: &mut Store,
    connector_id: &str,
    code: &str,
    session: &str,
    group: &Result<GroupDoc, Failure>,
    now: Instant,
) -> (r: Result<JsonMap, Failure>)
    requires
        old(store).wf(),
    ensures
        final(store).wf(),
        match r {
            Ok(told) => {
                let item = bindable(
                    old(store)@,
                    connector_id@,
                    code@,
                    session@,
                    loaded(*group),
                    now,
                )->Ok_0;
                let bound = bound_item(item, trimmed(session@), now.text());
                &&& bindable(old(store)@, connector_id@, code@, session@, loaded(*group), now) is Ok
                &&& told@ == bound_answer(trimmed(connector_id@), bound)
                &&& final(store)@ == collapsed(
                    stored(old(store)@, trimmed(connector_id@), bound),
                )
            },
            Err(e) => bindable(
                old(store)@,
                connector_id@,
                code@,
                session@,
                loaded(*group),
                now,
            ) == Err::<ObjV, FailureV>(e@) && final(store)@ == old(store)@,
        },
{
    let session = trim(session);
    let code = trim(code);
    if session.as_str().is_empty() {
        return Err(Failure::new(FailureKind::InvalidInput, "session_binding_required"));
    }
    if code.as_str().is_empty() {
        return Err(Failure::new(FailureKind::InvalidInput, "session_binding_code_invalid"));
    }
    let id = trim(connector_id);
    let session_hash = hash_secret(session.as_str());
    let code_hash = hash_secret(code.as_str());
    let mut item = match store.get(id.as_str()) {
        None => {
            return Err(Failure::new(FailureKind::NotFound, "connector_not_found"));
        },
        Some(e) => e.item.copy(),
    };
    validate_session_actor(&item, group)?;
    if !item.is("binding_code_hash", code_hash.as_str()) {
        return Err(Failure::new(FailureKind::InvalidInput, "session_binding_code_invalid"));
    }
    if has_expired(&item, now) {
        return Err(Failure::new(FailureKind::TimedOut, "session_binding_code_expired"));
    }
    let ghost sp = |e: EntryV|
        e.id != id@ && holds_hash(e, "session_hash"@, session_hash@);
    if any_of(
        &store.entries,
        |e: &Entry| -> (b: bool)
            ensures (b == (e@.id != id@ && holds_hash(e@, "session_hash"@, session_hash@)))
        {
            !str_eq(e.id.as_str(), id.as_str()) && is_usable(&e.item) && e.item.is(
                "session_hash",
                session_hash.as_str(),
            )
        },
        Ghost(sp),
    ) {
        return Err(Failure::new(FailureKind::AlreadyExists, "session_already_bound"));
    }
    let stamp = now.stamp();
    item.put("session_hash", Json::Str(session_hash));
    item.put("session_bound_at", Json::str(stamp.as_str()));
    item.put("binding_code_hash", Json::str(""));
    item.put("binding_expires_at", Json::str(""));
    item.put("updated_at", Json::Str(stamp));
    let mut told = JsonMap::new();
    told.put("bound", Json::Bool(true));
    told.put("connector_id", Json::str(id.as_str()));
    told.put("group_id", item.copy_or_null("group_id"));
    told.put("actor_id", item.copy_or_null("actor_id"));
    store.put(id.as_str(), item);
    *store = collapse_active_duplicates(store);
    Ok(told)
}

} // verus!
