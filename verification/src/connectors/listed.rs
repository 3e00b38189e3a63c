//! What is read and what is shown of connectors, told of their members: where they are read from,
//! which of them stay in use, where they are reached, and what an answer about one holds.

use crate::connectors::entry::{normalized, EntryV};
use crate::connectors::outcomes::{is_in_use, lemma_connector_words, same_but};
use crate::connectors::provisioning::{
    base_of, code_answer, creation, listing, newest_first, revocation, shown, shown_secret, wanted,
    without_slashes, CreateErrorV,
};
use crate::connectors::store::{collapsed, from_list, lemma_stored, read_store, sound, stored};
use crate::json::{text_array, text_field, JsonV, ObjV};
use crate::order::before;
use crate::text::{trimmed, Text};
use vstd::prelude::*;

verus! {

/// The text of a member, or nothing.
pub open spec fn member_text(item: ObjV, key: Text) -> Text {
    match text_field(item, key) {
        Some(t) => t,
        None => Seq::empty(),
    }
}

/// Whether a connector came into being after another, or did so at the same time and was changed,
/// or else used, after it.
pub open spec fn is_newer(y: EntryV, x: EntryV) -> bool {
    let (cx, cy) = (member_text(x.item, "created_at"@), member_text(y.item, "created_at"@));
    let (ux, uy) = (member_text(x.item, "updated_at"@), member_text(y.item, "updated_at"@));
    let (lx, ly) = (
        member_text(x.item, "last_activity_at"@),
        member_text(y.item, "last_activity_at"@),
    );
    ||| before(cx, cy)
    ||| cx == cy && before(ux, uy)
    ||| cx == cy && ux == uy && before(lx, ly)
    ||| cx == cy && ux == uy && lx == ly && before(x.id, y.id)
}

/// Whether two connectors are of the same actor of the same group.
pub open spec fn is_of_the_same(x: EntryV, y: EntryV) -> bool {
    member_text(x.item, "group_id"@) == member_text(y.item, "group_id"@) && member_text(
        x.item,
        "actor_id"@,
    ) == member_text(y.item, "actor_id"@)
}

/// Whether a connector in use has to make way: it names no group or no actor, or a newer one of its
/// actor is in use.
pub open spec fn makes_way(s: Seq<EntryV>, x: EntryV) -> bool {
    ||| member_text(x.item, "group_id"@).len() == 0
    ||| member_text(x.item, "actor_id"@).len() == 0
    ||| exists|j: int|
        0 <= j < s.len() && is_in_use((#[trigger] s[j]).item) && is_of_the_same(s[j], x) && is_newer(
            s[j],
            x,
        )
}

/// Settling a store takes out of use those of the connectors in use that have to make way, notes when
/// each was made where it does not say when it was changed, and leaves all else as it is.
pub proof fn settling_takes_out_those_that_make_way(s: Seq<EntryV>, i: int)
    requires
        0 <= i < s.len(),
        forall|a: int, b: int|
            0 <= a < s.len() && 0 <= b < s.len() ==> !(#[trigger] before(s[a].id, s[b].id) && before(
                s[b].id,
                s[a].id,
            )),
    ensures
        collapsed(s).len() == s.len(),
        ({
            let (x, y) = (s[i], collapsed(s)[i]);
            let out = is_in_use(x.item) && makes_way(s, x);
            &&& y.id == x.id
            &&& !out ==> y == x
            &&& out ==> {
                &&& !is_in_use(y.item)
                &&& same_but(x.item, y.item, set!["revoked"@, "updated_at"@])
                &&& member_text(x.item, "updated_at"@).len() > 0 ==> y.item["updated_at"@]
                    == x.item["updated_at"@]
                &&& member_text(x.item, "updated_at"@).len() == 0 ==> y.item.contains_key(
                    "updated_at"@,
                ) && y.item["updated_at"@] == if x.item.contains_key("created_at"@) {
                    x.item["created_at"@]
                } else {
                    JsonV::Null
                }
            }
        }),
{
    lemma_connector_words();
    let x = s[i];
    if x.routed() {
        let p = |other: EntryV| other.active() && other.same_route(x) && x.outranked_by(other);
        if exists|j: int|
            0 <= j < s.len() && is_in_use((#[trigger] s[j]).item) && is_of_the_same(s[j], x)
                && is_newer(s[j], x) {
            let j = choose|j: int|
                0 <= j < s.len() && is_in_use((#[trigger] s[j]).item) && is_of_the_same(s[j], x)
                    && is_newer(s[j], x);
            crate::connectors::entry::rank_is_a_total_order(x, s[j], x);
            lemma_newer(x, s[j]);
            assert(p(s[j]));
        }
        if crate::lists::some_match(s, p) {
            let j = choose|j: int| 0 <= j < s.len() && p(#[trigger] s[j]);
            lemma_newer(x, s[j]);
            assert(is_in_use(s[j].item) && is_of_the_same(s[j], x) && is_newer(s[j], x));
        }
    }
}

proof fn lemma_newer(x: EntryV, y: EntryV)
    ensures
        x.outranked_by(y) <==> is_newer(y, x),
{
    crate::order::strings_are_totally_ordered(
        member_text(x.item, "created_at"@),
        member_text(y.item, "created_at"@),
        Seq::empty(),
    );
    crate::order::strings_are_totally_ordered(
        member_text(x.item, "updated_at"@),
        member_text(y.item, "updated_at"@),
        Seq::empty(),
    );
    crate::order::strings_are_totally_ordered(
        member_text(x.item, "last_activity_at"@),
        member_text(y.item, "last_activity_at"@),
        Seq::empty(),
    );
}

/// The id that an item of a list goes by.
pub open spec fn listed_id(item: JsonV) -> Text {
    match item.at("connector_id"@) {
        JsonV::Str(t) => t,
        _ => Seq::empty(),
    }
}

proof fn lemma_from_list(items: Seq<JsonV>)
    ensures
        sound(from_list(items)),
        forall|e: EntryV| #[trigger]
            from_list(items).contains(e) <==> exists|i: int|
                is_the_last_with_its_id(items, i, e.id) && normalized(listed_id(#[trigger] items[i]), items[i])
                    == Some(e.item),
    decreases items.len(),
{
    if items.len() > 0 {
        let d = items.drop_last();
        let n = items.len() - 1;
        let last = items.last();
        let s = from_list(d);
        let r = from_list(items);
        lemma_from_list(d);
        let known = normalized(listed_id(last), last);
        if let Some(item) = known {
            lemma_stored(s, trimmed(listed_id(last)), item);
        }
        assert(last == items[n]);
        assert forall|e: EntryV| #[trigger] r.contains(e) <==> exists|i: int|
            is_the_last_with_its_id(items, i, e.id) && normalized(
                listed_id(#[trigger] items[i]),
                items[i],
            ) == Some(e.item) by {
            if r.contains(e) {
                if known is Some && e == (EntryV { id: trimmed(listed_id(last)), item: known->0 }) {
                    assert(is_the_last_with_its_id(items, n, e.id));
                } else {
                    assert(s.contains(e));
                    let i = choose|i: int|
                        is_the_last_with_its_id(d, i, e.id) && normalized(
                            listed_id(#[trigger] d[i]),
                            d[i],
                        ) == Some(e.item);
                    assert(d[i] == items[i]);
                    assert(is_the_last_with_its_id(items, i, e.id)) by {
                        assert forall|j: int| i < j < items.len() implies !is_a_connector(
                            #[trigger] items[j],
                            e.id,
                        ) by {
                            if j < n {
                                assert(d[j] == items[j]);
                            }
                        }
                    }
                }
            }
            if exists|i: int|
                is_the_last_with_its_id(items, i, e.id) && normalized(
                    listed_id(#[trigger] items[i]),
                    items[i],
                ) == Some(e.item) {
                let i = choose|i: int|
                    is_the_last_with_its_id(items, i, e.id) && normalized(
                        listed_id(#[trigger] items[i]),
                        items[i],
                    ) == Some(e.item);
                if i < n {
                    assert(d[i] == items[i]);
                    assert(!is_a_connector(items[n], e.id));
                    assert(is_the_last_with_its_id(d, i, e.id)) by {
                        assert forall|j: int| i < j < d.len() implies !is_a_connector(
                            #[trigger] d[j],
                            e.id,
                        ) by {
                            assert(d[j] == items[j]);
                        }
                    }
                    assert(s.contains(e));
                }
            }
        }
    }
}

/// Whether an item of a list is read as a connector with an id.
pub open spec fn is_a_connector(item: JsonV, id: Text) -> bool {
    normalized(listed_id(item), item) is Some && trimmed(listed_id(item)) == id
}

/// Whether an item of a list is the last that is read as a connector with an id.
pub open spec fn is_the_last_with_its_id(items: Seq<JsonV>, i: int, id: Text) -> bool {
    &&& 0 <= i < items.len()
    &&& is_a_connector(items[i], id)
    &&& forall|j: int| i < j < items.len() ==> !is_a_connector(#[trigger] items[j], id)
}

/// A store that is a list is read item by item: of those with the same id the last counts, in its
/// form, and those that are no connectors are left out. What was read is settled.
pub proof fn a_list_is_read_item_by_item(items: Seq<JsonV>)
    ensures
        read_store(JsonV::Arr(items)) == collapsed(from_list(items)),
        forall|e: EntryV| #[trigger]
            from_list(items).contains(e) <==> exists|i: int|
                is_the_last_with_its_id(items, i, e.id) && normalized(listed_id(#[trigger] items[i]), items[i])
                    == Some(e.item),
{
    lemma_from_list(items);
}

/// A store is the object under `connectors`, where there is one, and else the whole; what is neither
/// an object nor a list holds no connectors.
pub proof fn a_store_stands_under_its_name(root: ObjV, m: ObjV, raw: JsonV)
    ensures
        root.contains_key("connectors"@) && root["connectors"@] == JsonV::Obj(m) && !(
        m.contains_key("connectors"@) && m["connectors"@] is Obj) ==> read_store(JsonV::Obj(root))
            == read_store(JsonV::Obj(m)),
        !(raw is Obj) && !(raw is Arr) ==> read_store(raw).len() == 0,
{
}

proof fn lemma_slashes(t: Text, slashes: Text)
    requires
        t.len() > 0 ==> t.last() != '/',
        forall|i: int| 0 <= i < slashes.len() ==> #[trigger] slashes[i] == '/',
    ensures
        without_slashes(t + slashes) == t,
    decreases slashes.len(),
{
    if slashes.len() == 0 {
        assert(t + slashes =~= t);
    } else {
        let d = slashes.drop_last();
        assert((t + slashes).drop_last() =~= t + d);
        assert((t + slashes).last() == slashes[slashes.len() - 1]);
        lemma_slashes(t, d);
    }
}

/// The base of the addresses is the public address without the space around it, without slashes at
/// its end, and then without the page `/ui`.
pub proof fn an_address_is_cut_to_its_base(public_url: Text, t: Text, slashes: Text)
    requires
        t.len() > 0 ==> t.last() != '/',
        forall|i: int| 0 <= i < slashes.len() ==> #[trigger] slashes[i] == '/',
        trimmed(public_url) == t + slashes,
    ensures
        forall|base: Text| t == #[trigger] (base + "/ui"@) ==> base_of(public_url) == base,
        (forall|base: Text| t != #[trigger] (base + "/ui"@)) ==> base_of(public_url) == t,
{
    reveal_strlit("/ui");
    lemma_slashes(t, slashes);
    assert("/ui"@.len() == 3);
    assert forall|base: Text| t == #[trigger] (base + "/ui"@) implies base_of(public_url)
        == base by {
        assert(t.skip(t.len() - 3) =~= "/ui"@);
        assert(t.take(t.len() - 3) =~= base);
    }
    if t.len() >= 3 && t.skip(t.len() - 3) == "/ui"@ {
        assert(t =~= t.take(t.len() - 3) + "/ui"@);
    }
}

/// A listing shows every connector, the newest first.
pub proof fn a_listing_shows_every_connector(connectors: Seq<ObjV>, base: Text)
    ensures
        listing(connectors, base).contains_key("connectors"@),
        listing(connectors, base)["connectors"@] matches JsonV::Arr(all) && {
            &&& all.len() == newest_first(connectors).len()
            &&& forall|i: int|
                0 <= i < all.len() ==> #[trigger] all[i] == JsonV::Obj(
                    shown(newest_first(connectors)[i], base),
                )
        },
{
}

/// What is shown of a secret is the preview that was stored, and else what may be seen of the secret.
pub proof fn a_stored_preview_is_shown(item: ObjV, base: Text)
    ensures
        ({
            let stored = member_text(item, "secret_preview"@);
            let preview = shown(item, base)["secret_preview"@];
            &&& stored.len() > 0 ==> preview == JsonV::Str(stored)
            &&& stored.len() == 0 ==> match text_field(item, "secret"@) {
                Some(secret) => preview == JsonV::Str(shown_secret(secret)),
                None => preview == JsonV::Str(Seq::empty()),
            }
        }),
{
    lemma_connector_words();
}

/// A connector is asked for by its provider, ChatGPT where none is named, and its label.
pub proof fn a_connector_is_asked_for(body: JsonV)
    ensures
        wanted(body).0 == match body.at("provider"@) {
            JsonV::Str(p) => p,
            _ => "chatgpt"@,
        },
        wanted(body).1 == match body.at("label"@) {
            JsonV::Str(t) => t,
            _ => Seq::empty(),
        },
{
}

/// The answer to a creation shows the connector, tells its secret once and names those replaced; the
/// answer to a revocation names the connector, and one that is not there is not found.
pub proof fn an_answer_tells_the_connector(
    item: ObjV,
    base: Text,
    replaced: Seq<Text>,
    revoked: bool,
    id: Text,
)
    ensures
        ({
            let m = creation(item, base, replaced);
            &&& m["connector"@] == JsonV::Obj(shown(item, base))
            &&& m["secret"@] == if item.contains_key("secret"@) {
                item["secret"@]
            } else {
                JsonV::Null
            }
            &&& m["replaced_connector_ids"@] == text_array(replaced)
        }),
        revoked ==> (revocation(revoked, id) matches Ok(m) && m["revoked"@] == JsonV::Bool(true)
            && m["connector_id"@] == JsonV::Str(id)),
        !revoked ==> revocation(revoked, id) matches Err(CreateErrorV::NotFound(_)),
{
    reveal_strlit("connector");
    reveal_strlit("secret");
    reveal_strlit("replaced_connector_ids");
    reveal_strlit("revoked");
    reveal_strlit("connector_id");
    assert("connector"@.len() == 9);
    assert("secret"@.len() == 6);
    assert("replaced_connector_ids"@.len() == 22);
    assert("revoked"@.len() == 7);
    assert("connector_id"@.len() == 12);
}

/// The answer that brings a code tells which actor of which group the connector is of, and whether a
/// conversation is bound to it already; what else is told stands as it was.
pub proof fn a_code_is_told_with_its_connector(told: ObjV, item: ObjV)
    ensures
        ({
            let m = code_answer(told, item);
            &&& m["group_id"@] == if item.contains_key("group_id"@) {
                item["group_id"@]
            } else {
                JsonV::Null
            }
            &&& m["actor_id"@] == if item.contains_key("actor_id"@) {
                item["actor_id"@]
            } else {
                JsonV::Null
            }
            &&& m["session_bound"@] == JsonV::Bool(member_text(item, "session_hash"@).len() > 0)
            &&& same_but(told, m, set!["group_id"@, "actor_id"@, "session_bound"@])
        }),
{
    lemma_connector_words();
    reveal_strlit("session_bound");
    assert("session_bound"@.len() == 13);
}

} // verus!
