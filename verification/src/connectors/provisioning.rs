//! What the control plane shows of a connector, and who may get one.

use crate::delivery::prompt::{ApiError, ApiErrorV};
use crate::failure::Failure;
use crate::json::{
    field, lemma_values, objects, or_empty, or_null, text_array, text_field,
    text_or_empty, values, Json, JsonMap, JsonV, ObjV,
};
use crate::json_access::json_texts;
use crate::lists::{lemma_views, lemma_views_push};
use crate::model::{ActorRuntime, GroupDoc, GroupV};
use crate::order::{before, str_before};
use crate::text::{chars_of, string_of, texts, trim, trimmed, Text};
use vstd::prelude::*;
use vstd::string::*;
use vstd::utf8::*;

verus! {

broadcast use {lemma_views, lemma_views_push};

/// The text without the slashes at its end.
pub open spec fn without_slashes(t: Text) -> Text
    decreases t.len(),
{
    if t.len() > 0 && t.last() == '/' {
        without_slashes(t.drop_last())
    } else {
        t
    }
}

/// The text without a suffix, where it has it.
pub open spec fn without_suffix(t: Text, s: Text) -> Text {
    if s.len() <= t.len() && t.skip(t.len() - s.len()) == s {
        t.take(t.len() - s.len())
    } else {
        t
    }
}

/// The base of connector addresses: the public address without slashes at its end and without the
/// path of the user interface.
pub open spec fn base_of(public_url: Text) -> Text {
    without_suffix(without_slashes(trimmed(public_url)), "/ui"@)
}

/// The base of connector addresses, for a configured public address.
pub fn connector_base_url(public_url: &str) -> (r: String)
    ensures
        r@ == base_of(public_url@),
{
    let t = trim(public_url);
    let v = chars_of(t.as_str());
    let mut n: usize = v.len();
    proof {
        assert(v@.take(n as int) =~= v@);
    }
    while n > 0 && v[n - 1] == '/'
        invariant
            n <= v@.len(),
            without_slashes(v@) == without_slashes(v@.take(n as int)),
        decreases n,
    {
        proof {
            assert(v@.take(n as int).drop_last() =~= v@.take(n - 1));
        }
        n -= 1;
    }
    let ghost base = v@.take(n as int);
    proof {
        reveal_strlit("/ui");
        assert("/ui"@.len() == 3);
        assert("/ui"@ =~= seq!['/', 'u', 'i']);
        if n >= 3 {
            let tail = base.skip(n - 3);
            assert(tail =~= seq![v@[n - 3], v@[n - 2], v@[n - 1]]);
            assert(tail[0] == v@[n - 3] && tail[1] == v@[n - 2] && tail[2] == v@[n - 1]);
            assert("/ui"@[0] == '/' && "/ui"@[1] == 'u' && "/ui"@[2] == 'i');
        }
    }
    if n >= 3 && v[n - 3] == '/' && v[n - 2] == 'u' && v[n - 1] == 'i' {
        proof {
            assert(base.skip(n - 3) == "/ui"@);
            assert(v@.subrange(0, n - 3) =~= base.take(n - 3));
        }
        string_of(&v, 0, n - 3)
    } else {
        proof {
            assert(v@.subrange(0, n as int) =~= base);
            if n >= 3 {
                assert(base.skip(n - 3) != "/ui"@);
            }
        }
        string_of(&v, 0, n)
    }
}

/// What is shown of a secret that has no preview: nothing of a short one, else its first six and
/// last four bytes.
pub open spec fn shown_secret(secret: Text) -> Text {
    let b = encode_utf8(secret);
    if b.len() <= 10 {
        "****"@
    } else {
        decode_utf8(b.subrange(0, 6)) + "..."@ + decode_utf8(
            b.subrange(b.len() - 4, b.len() as int),
        )
    }
}

/// Whether a secret can be cut where its preview cuts it.
pub open spec fn can_be_shown(secret: Text) -> bool {
    let b = encode_utf8(secret);
    b.len() > 10 ==> is_char_boundary(b, 6) && is_char_boundary(b, b.len() - 4)
}

fn show_secret(secret: &str) -> (r: String)
    requires
        can_be_shown(secret@),
    ensures
        r@ == shown_secret(secret@),
{
    let bytes = secret.as_bytes();
    let n: usize = bytes.len();
    if n <= 10 {
        return "****".to_owned();
    }
    let (a, _) = secret.split_at(6);
    let (_, b) = secret.split_at(n - 4);
    proof {
        encode_utf8_decode_utf8(a@);
        encode_utf8_decode_utf8(b@);
    }
    let mut r = a.to_owned();
    r.append("...");
    r.append(b);
    r
}

/// Whether a connector is in use and bound to a conversation.
pub open spec fn is_bound(item: ObjV) -> bool {
    text_or_empty(item, "session_hash"@).len() > 0 && field(item, "revoked"@) != Some(
        JsonV::Bool(true),
    )
}

/// The address of a connector.
pub open spec fn address(base_url: Text, id: Text) -> Text {
    base_url + "/mcp/web-model/"@ + id
}

/// The secret that a connector stores.
pub open spec fn stored_secret(item: ObjV) -> Option<Text> {
    text_field(item, "secret"@)
}

/// The preview of a connector: its own, else one made from its secret, else none.
pub open spec fn preview_of(item: ObjV) -> Text {
    let own = text_or_empty(item, "secret_preview"@);
    if own.len() > 0 {
        own
    } else {
        match stored_secret(item) {
            Some(s) => shown_secret(s),
            None => Seq::empty(),
        }
    }
}

/// What is shown of a connector: its own members without the private ones, whether it is bound,
/// and its addresses.
pub open spec fn shown(item: ObjV, base_url: Text) -> ObjV {
    let url = address(base_url, text_or_empty(item, "connector_id"@));
    let secret = or_empty(stored_secret(item));
    item.remove("secret"@).remove("secret_hash"@).insert(
        "session_bound"@,
        JsonV::Bool(is_bound(item)),
    ).insert("session_bound_at"@, or_null(field(item, "session_bound_at"@))).remove(
        "session_hash"@,
    ).remove("previous_session_hash"@).remove("binding_code_hash"@).insert(
        "secret_available"@,
        JsonV::Bool(stored_secret(item) is Some),
    ).insert("secret_preview"@, JsonV::Str(preview_of(item))).insert(
        "connector_url"@,
        JsonV::Str(url),
    ).insert("connector_url_path_token"@, JsonV::Str(url + "/token/"@ + secret)).insert(
        "connector_url_with_token"@,
        JsonV::Str(url + "?token="@ + secret),
    )
}

/// Whether a connector can be shown: it has a preview of its secret, or one can be cut from it.
pub open spec fn is_showable(item: ObjV) -> bool {
    text_or_empty(item, "secret_preview"@).len() == 0 ==> (stored_secret(item) matches Some(s)
        ==> can_be_shown(s))
}

/// Whether a connector can be shown.
pub fn can_show(item: &JsonMap) -> (r: bool)
    ensures
        r == is_showable(item@),
{
    let own = item.text_or_empty("secret_preview");
    if !own.as_str().is_empty() {
        return true;
    }
    match item.text("secret") {
        None => true,
        Some(s) => {
            let n: usize = s.as_bytes().len();
            n <= 10 || (s.is_char_boundary(6) && s.is_char_boundary(n - 4))
        },
    }
}

/// What is shown of a connector.
pub fn public(item: &JsonMap, base_url: &str) -> (r: JsonMap)
    requires
        is_showable(item@),
    ensures
        r@ == shown(item@, base_url@),
{
    let secret = match item.text("secret") {
        Some(s) => Some(s.to_owned()),
        None => None,
    };
    let hash = item.text_or_empty("session_hash");
    let revoked = match item.get("revoked") {
        Some(v) => match v {
            Json::Bool(b) => *b,
            _ => false,
        },
        None => false,
    };
    let own = item.text_or_empty("secret_preview");
    let preview = if !own.as_str().is_empty() {
        own
    } else {
        match &secret {
            Some(s) => show_secret(s.as_str()),
            None => String::new(),
        }
    };
    let id = item.text_or_empty("connector_id");
    let mut url = base_url.to_owned();
    url.append("/mcp/web-model/");
    url.append(id.as_str());
    let available = secret.is_some();
    let token = match secret {
        Some(s) => s,
        None => String::new(),
    };
    let mut path_token = url.clone();
    path_token.append("/token/");
    path_token.append(token.as_str());
    let mut with_token = url.clone();
    with_token.append("?token=");
    with_token.append(token.as_str());
    let mut m = item.copy();
    m.drop_key("secret");
    m.drop_key("secret_hash");
    m.put("session_bound", Json::Bool(!hash.as_str().is_empty() && !revoked));
    m.put("session_bound_at", item.copy_or_null("session_bound_at"));
    m.drop_key("session_hash");
    m.drop_key("previous_session_hash");
    m.drop_key("binding_code_hash");
    m.put("secret_available", Json::Bool(available));
    m.put("secret_preview", Json::Str(preview));
    m.put("connector_url", Json::Str(url));
    m.put("connector_url_path_token", Json::Str(path_token));
    m.put("connector_url_with_token", Json::Str(with_token));
    m
}

/// What is shown of a connector holds none of its private members.
pub proof fn private_members_are_never_shown(item: ObjV, base_url: Text)
    ensures
        !shown(item, base_url).contains_key("secret"@),
        !shown(item, base_url).contains_key("secret_hash"@),
        !shown(item, base_url).contains_key("session_hash"@),
        !shown(item, base_url).contains_key("previous_session_hash"@),
        !shown(item, base_url).contains_key("binding_code_hash"@),
{
    reveal_strlit("secret");
    reveal_strlit("secret_hash");
    reveal_strlit("session_hash");
    reveal_strlit("previous_session_hash");
    reveal_strlit("binding_code_hash");
    reveal_strlit("session_bound");
    reveal_strlit("session_bound_at");
    reveal_strlit("secret_available");
    reveal_strlit("secret_preview");
    reveal_strlit("connector_url");
    reveal_strlit("connector_url_path_token");
    reveal_strlit("connector_url_with_token");
    assert("secret"@.len() == 6);
    assert("secret_hash"@.len() == 11);
    assert("session_hash"@.len() == 12);
    assert("previous_session_hash"@.len() == 21);
    assert("binding_code_hash"@.len() == 17);
    assert("session_bound"@.len() == 13);
    assert("session_bound_at"@.len() == 16);
    assert("secret_available"@.len() == 16);
    assert("secret_preview"@.len() == 14);
    assert("connector_url"@.len() == 13);
    assert("connector_url_path_token"@.len() == 24);
    assert("connector_url_with_token"@.len() == 24);
}

/// The creation time of a connector.
pub open spec fn created(item: ObjV) -> Option<Text> {
    text_field(item, "created_at"@)
}

/// Whether one creation time is before another; none is before all others.
pub open spec fn older(a: Option<Text>, b: Option<Text>) -> bool {
    match (a, b) {
        (None, None) => false,
        (None, Some(_)) => true,
        (Some(_), None) => false,
        (Some(x), Some(y)) => before(x, y),
    }
}

/// The list with a connector put in behind all that are not older than it.
pub open spec fn placed(s: Seq<ObjV>, x: ObjV) -> Seq<ObjV>
    decreases s.len(),
{
    if s.len() > 0 && older(created(s.last()), created(x)) {
        placed(s.drop_last(), x).push(s.last())
    } else {
        s.push(x)
    }
}

/// The connectors from the newest to the oldest; equal ones keep their order.
pub open spec fn newest_first(s: Seq<ObjV>) -> Seq<ObjV>
    decreases s.len(),
{
    if s.len() == 0 {
        s
    } else {
        placed(newest_first(s.drop_last()), s.last())
    }
}

fn is_older(a: &JsonMap, b: &JsonMap) -> (r: bool)
    ensures
        r == older(created(a@), created(b@)),
{
    match (a.text("created_at"), b.text("created_at")) {
        (None, None) => false,
        (None, Some(_)) => true,
        (Some(_), None) => false,
        (Some(x), Some(y)) => str_before(x, y),
    }
}

fn place(v: &mut Vec<JsonMap>, x: JsonMap)
    ensures
        objects(final(v)@) == placed(objects(old(v)@), x@),
{
    let ghost s = objects(v@);
    let ghost xs = x@;
    let mut i: usize = v.len();
    proof {
        assert(s.take(i as int) =~= s);
        assert(placed(s, xs) =~= placed(s, xs) + s.skip(i as int));
    }
    while i > 0 && is_older(&v[i - 1], &x)
        invariant
            i <= v@.len(),
            s == objects(v@),
            xs == x@,
            placed(s, xs) == placed(s.take(i as int), xs) + s.skip(i as int),
        decreases i,
    {
        proof {
            let t = s.take(i as int);
            assert(t.drop_last() =~= s.take(i - 1));
            assert(t.last() == s[i - 1]);
            assert(placed(t, xs) == placed(t.drop_last(), xs).push(t.last()));
            assert(placed(s, xs) =~= placed(s.take(i - 1), xs) + s.skip(i - 1));
        }
        i -= 1;
    }
    v.insert(i, x);
    proof {
        let t = s.take(i as int);
        assert(placed(t, xs) == t.push(xs));
        assert(objects(v@) =~= t.push(xs) + s.skip(i as int));
    }
}

/// The connectors from the newest to the oldest.
pub fn list(connectors: &Vec<JsonMap>) -> (r: Vec<JsonMap>)
    ensures
        objects(r@) == newest_first(objects(connectors@)),
{
    let ghost all = objects(connectors@);
    let mut r: Vec<JsonMap> = Vec::new();
    let mut i: usize = 0;
    proof {
        assert(objects(r@) =~= newest_first(all.take(0)));
    }
    while i < connectors.len()
        invariant
            i <= connectors@.len(),
            all == objects(connectors@),
            objects(r@) == newest_first(all.take(i as int)),
        decreases connectors@.len() - i,
    {
        proof {
            assert(all.take(i + 1).drop_last() =~= all.take(i as int));
        }
        place(&mut r, connectors[i].copy());
        i += 1;
    }
    proof {
        assert(all.take(i as int) =~= all);
    }
    r
}

proof fn lemma_placed_holds(s: Seq<ObjV>, x: ObjV, e: ObjV)
    ensures
        placed(s, x).contains(e) ==> s.contains(e) || e == x,
    decreases s.len(),
{
    let r = placed(s, x);
    if r.contains(e) {
        let k = choose|k: int| 0 <= k < r.len() && r[k] == e;
        if s.len() > 0 && r == placed(s.drop_last(), x).push(s.last()) {
            let w = placed(s.drop_last(), x);
            lemma_placed_holds(s.drop_last(), x, e);
            if k < w.len() {
                assert(w.contains(w[k]));
                if e != x {
                    let m = choose|m: int| 0 <= m < s.drop_last().len() && s.drop_last()[m] == e;
                    assert(s[m] == e);
                }
            } else {
                assert(s[s.len() - 1] == e);
            }
        } else if k < s.len() {
            assert(s[k] == e);
        }
    }
}

proof fn lemma_newest_first_holds(s: Seq<ObjV>, e: ObjV)
    ensures
        newest_first(s).contains(e) ==> s.contains(e),
    decreases s.len(),
{
    if s.len() > 0 {
        lemma_newest_first_holds(s.drop_last(), e);
        lemma_placed_holds(newest_first(s.drop_last()), s.last(), e);
        if newest_first(s).contains(e) && e != s.last() {
            let m = choose|m: int| 0 <= m < s.drop_last().len() && s.drop_last()[m] == e;
            assert(s[m] == e);
        }
        if e == s.last() {
            assert(s[s.len() - 1] == e);
        }
    }
}

/// The answer to a request for all connectors: what may be shown of each, the newest first.
pub open spec fn listing(connectors: Seq<ObjV>, base_url: Text) -> ObjV {
    map![
        "connectors"@ => JsonV::Arr(
            newest_first(connectors).map_values(|c: ObjV| JsonV::Obj(shown(c, base_url))),
        ),
    ]
}

/// The answer to a request for all connectors.
pub fn list_answer(connectors: &Vec<JsonMap>, base_url: &str) -> (r: JsonMap)
    requires
        forall|i: int| 0 <= i < connectors@.len() ==> is_showable(#[trigger] connectors@[i]@),
    ensures
        r@ == listing(objects(connectors@), base_url@),
{
    let sorted = list(connectors);
    let ghost want = objects(sorted@).map_values(|c: ObjV| JsonV::Obj(shown(c, base_url@)));
    let mut all: Vec<Json> = Vec::new();
    let mut i: usize = 0;
    while i < sorted.len()
        invariant
            i <= sorted@.len(),
            all@.len() == i,
            objects(sorted@) == newest_first(objects(connectors@)),
            forall|k: int| 0 <= k < connectors@.len() ==> is_showable(#[trigger] connectors@[k]@),
            forall|k: int|
                0 <= k < i ==> (#[trigger] all@[k])@ == JsonV::Obj(
                    shown(sorted@[k]@, base_url@),
                ),
        decreases sorted@.len() - i,
    {
        proof {
            let e = sorted@[i as int]@;
            assert(objects(sorted@)[i as int] == e);
            assert(newest_first(objects(connectors@)).contains(e));
            lemma_newest_first_holds(objects(connectors@), e);
            let m = choose|m: int|
                0 <= m < objects(connectors@).len() && objects(connectors@)[m] == e;
            assert(is_showable(connectors@[m]@));
        }
        let one = public(&sorted[i], base_url);
        all.push(Json::Obj(one));
        i += 1;
    }
    proof {
        lemma_values(all@);
        assert forall|k: int| 0 <= k < all@.len() implies #[trigger] values(all@)[k] == want[k] by {
            assert(all@[k]@ == JsonV::Obj(shown(sorted@[k]@, base_url@)));
            assert(objects(sorted@)[k] == sorted@[k]@);
        }
        assert(values(all@) =~= want);
    }
    let mut m = JsonMap::new();
    m.put("connectors", Json::Arr(all));
    m
}

/// The provider and the label that a request for a connector names: ChatGPT and no label where it
/// names none.
pub open spec fn wanted(body: JsonV) -> (Text, Text) {
    (
        match body.at("provider"@).text() {
            Some(p) => p,
            None => "chatgpt"@,
        },
        or_empty(body.at("label"@).text()),
    )
}

/// The provider and the label that a request for a connector names.
pub fn read_wanted(body: &Json) -> (r: (String, String))
    ensures
        (r.0@, r.1@) == wanted(body@),
{
    let provider = match body.text("provider") {
        Some(p) => p.to_owned(),
        None => "chatgpt".to_owned(),
    };
    (provider, body.text_or_empty("label"))
}

/// The answer to a request for a connector: what may be shown of it, its secret, and the ids of
/// the connectors that it replaces.
pub open spec fn creation(connector: ObjV, base_url: Text, replaced: Seq<Text>) -> ObjV {
    map![
        "connector"@ => JsonV::Obj(shown(connector, base_url)),
        "secret"@ => or_null(field(connector, "secret"@)),
        "replaced_connector_ids"@ => text_array(replaced),
    ]
}

/// The answer to a request for a connector.
pub fn create_answer(connector: &JsonMap, base_url: &str, replaced: &Vec<String>) -> (r: JsonMap)
    requires
        is_showable(connector@),
    ensures
        r@ == creation(connector@, base_url@, texts(replaced@)),
{
    let one = public(connector, base_url);
    let mut m = JsonMap::new();
    m.put("connector", Json::Obj(one));
    m.put("secret", connector.copy_or_null("secret"));
    m.put("replaced_connector_ids", json_texts(replaced));
    m
}

/// A reason why a connector is not created.
pub enum CreateError {
    NotFound(String),
    Bad(String),
}

/// The mathematical value of a reason why a connector is not created.
pub enum CreateErrorV {
    NotFound(Text),
    Bad(Text),
}

impl View for CreateError {
    type V = CreateErrorV;

    open spec fn view(&self) -> CreateErrorV {
        match self {
            CreateError::NotFound(m) => CreateErrorV::NotFound(m@),
            CreateError::Bad(m) => CreateErrorV::Bad(m@),
        }
    }
}

/// The check that a connector may be created for an actor: its group and the actor exist, and the
/// actor is a web model.
pub open spec fn creatable(
    group: Option<GroupV>,
    group_id: Text,
    actor_id: Text,
) -> Result<(), CreateErrorV> {
    match group {
        None => Err(CreateErrorV::NotFound("group not found: "@ + group_id)),
        Some(g) => match g.find(actor_id) {
            None => Err(CreateErrorV::NotFound("actor not found: "@ + actor_id)),
            Some(a) => if a.runtime == ActorRuntime::WebModel {
                Ok(())
            } else {
                Err(
                    CreateErrorV::Bad(
                        "web-model connectors require an actor with runtime=web_model"@,
                    ),
                )
            },
        },
    }
}

/// Checks that a connector may be created for an actor. `group` is the group, if it could be
/// loaded.
pub fn create(group: &Option<GroupDoc>, group_id: &str, actor_id: &str) -> (r: Result<
    (),
    CreateError,
>)
    ensures
        match r {
            Ok(_) => creatable(
                match *group {
                    Some(g) => Some(g@),
                    None => None,
                },
                group_id@,
                actor_id@,
            ) == Ok::<(), CreateErrorV>(()),
            Err(e) => creatable(
                match *group {
                    Some(g) => Some(g@),
                    None => None,
                },
                group_id@,
                actor_id@,
            ) == Err::<(), CreateErrorV>(e@),
        },
{
    match group {
        None => {
            let mut m = "group not found: ".to_owned();
            m.append(group_id);
            Err(CreateError::NotFound(m))
        },
        Some(g) => match g.find(actor_id) {
            None => {
                let mut m = "actor not found: ".to_owned();
                m.append(actor_id);
                Err(CreateError::NotFound(m))
            },
            Some(a) => if a.runtime == ActorRuntime::WebModel {
                Ok(())
            } else {
                Err(
                    CreateError::Bad(
                        "web-model connectors require an actor with runtime=web_model".to_owned(),
                    ),
                )
            },
        },
    }
}

/// The answer to a request that a connector be revoked.
pub open spec fn revocation(revoked: bool, connector_id: Text) -> Result<ObjV, CreateErrorV> {
    if revoked {
        Ok(
            map![
                "revoked"@ => JsonV::Bool(true),
                "connector_id"@ => JsonV::Str(connector_id),
            ],
        )
    } else {
        Err(CreateErrorV::NotFound("web-model connector not found"@))
    }
}

/// The answer to a request that a connector be revoked. `revoked` says whether there was one.
pub fn revoke_answer(revoked: bool, connector_id: &str) -> (r: Result<JsonMap, CreateError>)
    ensures
        match r {
            Ok(m) => revocation(revoked, connector_id@) == Ok::<ObjV, CreateErrorV>(m@),
            Err(e) => revocation(revoked, connector_id@) == Err::<ObjV, CreateErrorV>(e@),
        },
{
    if !revoked {
        return Err(CreateError::NotFound("web-model connector not found".to_owned()));
    }
    let mut m = JsonMap::new();
    m.put("revoked", Json::Bool(true));
    m.put("connector_id", Json::str(connector_id));
    Ok(m)
}

/// The answer to a request for a binding code: the code and its expiry, and for whom it is.
pub open spec fn code_answer(told: ObjV, connector: ObjV) -> ObjV {
    told.insert("group_id"@, or_null(field(connector, "group_id"@))).insert(
        "actor_id"@,
        or_null(field(connector, "actor_id"@)),
    ).insert(
        "session_bound"@,
        JsonV::Bool(text_or_empty(connector, "session_hash"@).len() > 0),
    )
}

/// The answer to a request for a binding code.
pub fn binding_answer(told: &JsonMap, connector: &JsonMap) -> (r: JsonMap)
    ensures
        r@ == code_answer(told@, connector@),
{
    let hash = connector.text_or_empty("session_hash");
    let mut m = told.copy();
    m.put("group_id", connector.copy_or_null("group_id"));
    m.put("actor_id", connector.copy_or_null("actor_id"));
    m.put("session_bound", Json::Bool(!hash.as_str().is_empty()));
    m
}

/// What is shown at a connector about a delivery through the browser.
pub struct Activity {
    pub method: String,
    pub tool_name: String,
    pub call_status: String,
    pub wait_status: String,
    pub turn_id: String,
    pub error: String,
}

/// What is shown at a connector about a delivery through the browser.
pub fn record_connector(status: &str, turn_id: &str, error: &str) -> (r: Activity)
    ensures
        r.method@ == "browser/delivery"@,
        r.tool_name@.len() == 0,
        r.call_status@ == status@,
        r.wait_status@ == status@,
        r.turn_id@ == turn_id@,
        r.error@ == error@,
{
    Activity {
        method: "browser/delivery".to_owned(),
        tool_name: String::new(),
        call_status: status.to_owned(),
        wait_status: status.to_owned(),
        turn_id: turn_id.to_owned(),
        error: error.to_owned(),
    }
}

/// The failure of a request whose files could not be read or written.
pub fn io_error(error: &Failure) -> (r: ApiError)
    ensures
        r@ == ApiErrorV::Bad(error@.message),
{
    ApiError::Bad(error.message.clone())
}

} // verus!
