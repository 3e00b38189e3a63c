//! One connector: its normal form, its route, and its rank among others.

use crate::json::{flag_field, text_field, text_or_empty, Json, JsonMap, JsonV, ObjV};
use crate::order::{before, str_before};
use crate::relay::ids::{hex_digest, hex_digest_of};
use crate::text::{chars_of, str_eq, string_of, trim, trimmed, Text};
use vstd::prelude::*;
use vstd::string::*;

verus! {

/// The stored form of a secret.
pub fn hash_secret(secret: &str) -> (r: String)
    ensures
        r@ == hex_digest(secret@),
{
    hex_digest_of(secret)
}

/// What may be shown of a secret: nothing of a short one, else its first six and last four
/// characters.
pub open spec fn preview(secret: Text) -> Text {
    if secret.len() <= 10 {
        "****"@
    } else {
        secret.take(6) + "..."@ + secret.skip(secret.len() - 4)
    }
}

/// What may be shown of a secret.
pub fn secret_preview(secret: &str) -> (r: String)
    ensures
        r@ == preview(secret@),
{
    let v = chars_of(secret);
    if v.len() <= 10 {
        return "****".to_owned();
    }
    let mut r = string_of(&v, 0, 6);
    let tail = string_of(&v, v.len() - 4, v.len());
    r.append("...");
    r.append(tail.as_str());
    proof {
        assert(v@.subrange(0, 6) =~= v@.take(6));
        assert(v@.subrange(v@.len() - 4, v@.len() as int) =~= v@.skip(v@.len() - 4));
    }
    r
}

/// The object with a member put in where it has none under that key.
pub open spec fn with_default(m: ObjV, key: Text, x: JsonV) -> ObjV {
    if m.contains_key(key) {
        m
    } else {
        m.insert(key, x)
    }
}

/// The normal form of a connector: trimmed id, group and actor, none of them empty; a stored
/// secret or its hash; a kind and a revocation flag. What is not that is no connector.
pub open spec fn normalized(id: Text, raw: JsonV) -> Option<ObjV> {
    let id = trimmed(id);
    match raw.object() {
        None => None,
        Some(m) => match (text_field(m, "group_id"@), text_field(m, "actor_id"@)) {
            (Some(g), Some(a)) => {
                let group = trimmed(g);
                let actor = trimmed(a);
                let secret = trimmed(text_or_empty(m, "secret"@));
                let hash = trimmed(text_or_empty(m, "secret_hash"@));
                if id.len() == 0 || group.len() == 0 || actor.len() == 0 || (secret.len() == 0
                    && hash.len() == 0) {
                    None
                } else {
                    let m = m.insert("connector_id"@, JsonV::Str(id)).insert(
                        "group_id"@,
                        JsonV::Str(group),
                    ).insert("actor_id"@, JsonV::Str(actor));
                    let m = with_default(m, "kind"@, JsonV::Str("web_model_connector"@));
                    let m = if hash.len() == 0 {
                        m.insert("secret_hash"@, JsonV::Str(hex_digest(secret)))
                    } else {
                        m
                    };
                    let m = if text_or_empty(m, "secret_preview"@).len() == 0 && secret.len() > 0 {
                        m.insert("secret_preview"@, JsonV::Str(preview(secret)))
                    } else {
                        m
                    };
                    Some(with_default(m, "revoked"@, JsonV::Bool(false)))
                }
            },
            _ => None,
        },
    }
}

fn put_default(m: &mut JsonMap, key: &str, x: Json)
    ensures
        final(m)@ == with_default(old(m)@, key@, x@),
{
    if !m.has(key) {
        m.put(key, x);
    }
}

/// The normal form of a connector.
pub fn normalized_entry(connector_id: &str, raw: &Json) -> (r: Option<JsonMap>)
    ensures
        match r {
            Some(m) => normalized(connector_id@, raw@) == Some(m@),
            None => normalized(connector_id@, raw@) is None,
        },
{
    let id = trim(connector_id);
    let item = match raw.as_object() {
        Some(m) => m,
        None => {
            return None;
        },
    };
    let group = match item.text("group_id") {
        Some(t) => trim(t),
        None => {
            return None;
        },
    };
    let actor = match item.text("actor_id") {
        Some(t) => trim(t),
        None => {
            return None;
        },
    };
    let raw_secret = item.text_or_empty("secret");
    let secret = trim(raw_secret.as_str());
    let raw_hash = item.text_or_empty("secret_hash");
    let hash = trim(raw_hash.as_str());
    if id.as_str().is_empty() || group.as_str().is_empty() || actor.as_str().is_empty() || (
    secret.as_str().is_empty() && hash.as_str().is_empty()) {
        return None;
    }
    let mut m = item.copy();
    m.put("connector_id", Json::Str(id));
    m.put("group_id", Json::Str(group));
    m.put("actor_id", Json::Str(actor));
    put_default(&mut m, "kind", Json::str("web_model_connector"));
    if hash.as_str().is_empty() {
        m.put("secret_hash", Json::Str(hash_secret(secret.as_str())));
    }
    let shown = m.text_or_empty("secret_preview");
    if shown.as_str().is_empty() && !secret.as_str().is_empty() {
        m.put("secret_preview", Json::Str(secret_preview(secret.as_str())));
    }
    put_default(&mut m, "revoked", Json::Bool(false));
    Some(m)
}

/// Whether a connector is revoked.
pub open spec fn revoked(m: ObjV) -> bool {
    flag_field(m, "revoked"@) == Some(true)
}

/// Whether a connector is revoked.
pub fn is_revoked(m: &JsonMap) -> (r: bool)
    ensures
        r == revoked(m@),
{
    match m.flag("revoked") {
        Some(b) => b,
        None => false,
    }
}

/// A connector and the id that it is stored under.
pub struct Entry {
    pub id: String,
    pub item: JsonMap,
}

/// The mathematical value of a stored connector.
pub struct EntryV {
    pub id: Text,
    pub item: ObjV,
}

impl View for Entry {
    type V = EntryV;

    open spec fn view(&self) -> EntryV {
        EntryV { id: self.id@, item: self.item@ }
    }
}

impl Entry {
    /// A copy of the entry.
    pub fn copy(&self) -> (r: Entry)
        ensures
            r@ == self@,
    {
        Entry { id: self.id.clone(), item: self.item.copy() }
    }
}

impl EntryV {
    /// Whether the connector is in use.
    pub open spec fn active(self) -> bool {
        !revoked(self.item)
    }

    /// The group that the connector speaks for.
    pub open spec fn group(self) -> Text {
        text_or_empty(self.item, "group_id"@)
    }

    /// The actor that the connector speaks for.
    pub open spec fn actor(self) -> Text {
        text_or_empty(self.item, "actor_id"@)
    }

    /// Whether the connector names a group and an actor.
    pub open spec fn routed(self) -> bool {
        self.group().len() > 0 && self.actor().len() > 0
    }

    /// Whether two connectors speak for the same actor.
    pub open spec fn same_route(self, other: EntryV) -> bool {
        self.group() == other.group() && self.actor() == other.actor()
    }

    /// Whether the other connector is newer: by creation, update and activity time, then by id.
    pub open spec fn outranked_by(self, other: EntryV) -> bool {
        let (a, b) = (self.item, other.item);
        let (c1, c2) = (text_or_empty(a, "created_at"@), text_or_empty(b, "created_at"@));
        let (u1, u2) = (text_or_empty(a, "updated_at"@), text_or_empty(b, "updated_at"@));
        let (l1, l2) = (
            text_or_empty(a, "last_activity_at"@),
            text_or_empty(b, "last_activity_at"@),
        );
        if c1 != c2 {
            before(c1, c2)
        } else if u1 != u2 {
            before(u1, u2)
        } else if l1 != l2 {
            before(l1, l2)
        } else {
            before(self.id, other.id)
        }
    }
}

fn text_order(a: &JsonMap, b: &JsonMap, key: &str) -> (r: Option<bool>)
    ensures
        match r {
            None => text_or_empty(a@, key@) == text_or_empty(b@, key@),
            Some(x) => text_or_empty(a@, key@) != text_or_empty(b@, key@) && x == before(
                text_or_empty(a@, key@),
                text_or_empty(b@, key@),
            ),
        },
{
    let x = a.text_or_empty(key);
    let y = b.text_or_empty(key);
    if str_eq(x.as_str(), y.as_str()) {
        None
    } else {
        Some(str_before(x.as_str(), y.as_str()))
    }
}

/// Whether the other connector is newer.
pub fn outranked(a: &Entry, b: &Entry) -> (r: bool)
    ensures
        r == a@.outranked_by(b@),
{
    if let Some(x) = text_order(&a.item, &b.item, "created_at") {
        return x;
    }
    if let Some(x) = text_order(&a.item, &b.item, "updated_at") {
        return x;
    }
    if let Some(x) = text_order(&a.item, &b.item, "last_activity_at") {
        return x;
    }
    str_before(a.id.as_str(), b.id.as_str())
}

/// Whether two connectors speak for the same actor.
pub fn same_route(a: &Entry, b: &Entry) -> (r: bool)
    ensures
        r == a@.same_route(b@),
{
    let g1 = a.item.text_or_empty("group_id");
    let g2 = b.item.text_or_empty("group_id");
    let a1 = a.item.text_or_empty("actor_id");
    let a2 = b.item.text_or_empty("actor_id");
    str_eq(g1.as_str(), g2.as_str()) && str_eq(a1.as_str(), a2.as_str())
}

/// Whether the connector names a group and an actor.
pub fn is_routed(e: &Entry) -> (r: bool)
    ensures
        r == e@.routed(),
{
    let g = e.item.text_or_empty("group_id");
    let a = e.item.text_or_empty("actor_id");
    !g.as_str().is_empty() && !a.as_str().is_empty()
}

/// Of two connectors with different ids, one is newer; and being newer is transitive.
pub proof fn rank_is_a_total_order(a: EntryV, b: EntryV, c: EntryV)
    ensures
        !a.outranked_by(a),
        a.id != b.id ==> a.outranked_by(b) || b.outranked_by(a),
        !(a.outranked_by(b) && b.outranked_by(a)),
        a.outranked_by(b) && b.outranked_by(c) ==> a.outranked_by(c),
{
    let k1 = "created_at"@;
    let k2 = "updated_at"@;
    let k3 = "last_activity_at"@;
    crate::order::strings_are_totally_ordered(
        text_or_empty(a.item, k1),
        text_or_empty(b.item, k1),
        text_or_empty(c.item, k1),
    );
    crate::order::strings_are_totally_ordered(
        text_or_empty(a.item, k2),
        text_or_empty(b.item, k2),
        text_or_empty(c.item, k2),
    );
    crate::order::strings_are_totally_ordered(
        text_or_empty(a.item, k3),
        text_or_empty(b.item, k3),
        text_or_empty(c.item, k3),
    );
    crate::order::strings_are_totally_ordered(a.id, b.id, c.id);
    crate::order::strings_are_totally_ordered(
        text_or_empty(a.item, k1),
        text_or_empty(b.item, k1),
        text_or_empty(a.item, k1),
    );
    crate::order::strings_are_totally_ordered(
        text_or_empty(a.item, k2),
        text_or_empty(b.item, k2),
        text_or_empty(a.item, k2),
    );
    crate::order::strings_are_totally_ordered(
        text_or_empty(a.item, k3),
        text_or_empty(b.item, k3),
        text_or_empty(a.item, k3),
    );
    crate::order::strings_are_totally_ordered(a.id, b.id, a.id);
}

/// Whether a supplied secret is the connector's: the one it stores, or one with the stored hash.
pub open spec fn opens(item: ObjV, supplied: Text) -> bool {
    text_field(item, "secret"@) == Some(supplied) || text_field(item, "secret_hash"@) == Some(
        hex_digest(supplied),
    )
}

/// Whether a supplied secret is the connector's.
pub fn secret_matches(item: &JsonMap, supplied: &str) -> (r: bool)
    ensures
        r == opens(item@, supplied@),
{
    if item.is("secret", supplied) {
        return true;
    }
    let h = hash_secret(supplied);
    item.is("secret_hash", h.as_str())
}

} // verus!
