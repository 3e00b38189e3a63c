//! What the gateway lets through, told of the calls themselves: which calls a bound conversation may
//! make, which way a call takes, and who it is made for.

use crate::connectors::outcomes::speaks_for;
use crate::gateway::{
    authorized, bind_tool, bound_to, create_tool, group_tool, on_request, opened_by_code, own_check,
    route, RequestActionV, RouteV,
};
use crate::json::{text_field, JsonV, ObjV};
use crate::lists::some_match;
use crate::text::{has_prefix, trimmed, Text};
use vstd::prelude::*;

verus! {

/// The words of the gateway differ.
pub(crate) proof fn lemma_gateway_words()
    ensures
        "name"@.len() == 4,
        "description"@.len() == 11,
        "inputSchema"@.len() == 11,
        "annotations"@.len() == 11,
        "type"@.len() == 4,
        "properties"@.len() == 10,
        "required"@.len() == 8,
        "additionalProperties"@.len() == 20,
        "session"@.len() == 7,
        "by"@.len() == 2,
        "code"@.len() == 4,
        "path"@.len() == 4,
        "title"@.len() == 5,
        "chat_url"@.len() == 8,
        "group"@.len() == 5,
        "cccc_group_create"@.len() == 17,
        "cccc_group_bind"@.len() == 15,
        "cccc_session_bind"@.len() == 17,
        "tools/list"@.len() == 10,
        "tools/call"@.len() == 10,
        "name"@[0] == 'n',
        "type"@[0] == 't',
        "code"@[0] == 'c',
        "path"@[0] == 'p',
        "description"@[0] == 'd',
        "inputSchema"@[0] == 'i',
        "annotations"@[0] == 'a',
        "properties"@[0] == 'p',
        "tools/list"@[0] == 't',
        "tools/call"@[0] == 't',
        "required"@[0] == 'r',
        "chat_url"@[0] == 'c',
        "title"@[0] == 't',
        "group"@[0] == 'g',
        "cccc_group_create"@[5] == 'g',
        "cccc_session_bind"@[5] == 's',
        "tools/list"@[6] == 'l',
        "tools/call"@[6] == 'c',
{
    reveal_strlit("name");
    reveal_strlit("description");
    reveal_strlit("inputSchema");
    reveal_strlit("annotations");
    reveal_strlit("type");
    reveal_strlit("properties");
    reveal_strlit("required");
    reveal_strlit("additionalProperties");
    reveal_strlit("session");
    reveal_strlit("by");
    reveal_strlit("code");
    reveal_strlit("path");
    reveal_strlit("title");
    reveal_strlit("chat_url");
    reveal_strlit("group");
    reveal_strlit("cccc_group_create");
    reveal_strlit("cccc_group_bind");
    reveal_strlit("cccc_session_bind");
    reveal_strlit("tools/list");
    reveal_strlit("tools/call");
}

/// Whether an argument names no group but one: it is missing, null, blank, or that group.
pub open spec fn names_only(arguments: ObjV, key: Text, group_id: Text) -> bool {
    !arguments.contains_key(key) || match arguments[key] {
        JsonV::Null => true,
        JsonV::Str(t) => trimmed(t).len() == 0 || trimmed(t) == group_id,
        _ => false,
    }
}

/// Whether a call stays in a group: it names no other, administers no more than a group, and neither
/// makes, finds nor changes to another.
pub open spec fn stays_in(name: Text, arguments: ObjV, group_id: Text) -> bool {
    &&& names_only(arguments, "group_id"@, group_id)
    &&& names_only(arguments, "dst_group_id"@, group_id)
    &&& !has_prefix(name, "cccc_remote_"@)
    &&& name != "cccc_im_bind"@
    &&& name != "cccc_capability_import"@
    &&& name != "cccc_capability_uninstall"@
    &&& name == "cccc_group"@ ==> text_field(arguments, "action"@) != Some("create"@) && text_field(
        arguments,
        "action"@,
    ) != Some("resolve"@) && text_field(arguments, "action"@) != Some("use"@)
}

/// The arguments of the call that another carries; none where they are no object.
pub open spec fn inner_arguments(arguments: ObjV) -> Option<ObjV> {
    let given = if arguments.contains_key("tool_arguments"@) {
        arguments["tool_arguments"@]
    } else if arguments.contains_key("arguments"@) {
        arguments["arguments"@]
    } else {
        JsonV::Null
    };
    match given {
        JsonV::Null => Some(Map::empty()),
        JsonV::Obj(m) => Some(m),
        _ => None,
    }
}

/// A call through the gateway is let through exactly where its conversation is bound to the very
/// actor and group that it is made for, and the call stays in that group, along with the call that
/// it carries, which is no further carrier. A call that does not come through the gateway is not
/// held up here.
pub proof fn a_call_is_let_through_where_it_belongs(
    connector: Option<ObjV>,
    name: Text,
    arguments: ObjV,
    group_id: Text,
    actor_id: Text,
)
    ensures
        authorized(false, connector, name, arguments, group_id, actor_id) is Ok,
        ({
            let nested = match text_field(arguments, "tool_name"@) {
                Some(t) => t,
                None => Seq::empty(),
            };
            authorized(true, connector, name, arguments, group_id, actor_id) is Ok <==> {
                &&& connector matches Some(c) && speaks_for(c, group_id, actor_id)
                &&& stays_in(name, arguments, group_id)
                &&& name == "cccc_capability_use"@ && nested.len() > 0 ==> nested
                    != "cccc_capability_use"@ && (inner_arguments(arguments) matches Some(inner)
                    && stays_in(nested, inner, group_id))
            }
        }),
        !(connector matches Some(c) && speaks_for(c, group_id, actor_id)) ==> (authorized(
            true,
            connector,
            name,
            arguments,
            group_id,
            actor_id,
        ) matches Err(e) && e.code == "session_binding_required"@),
{
    lemma_own_check(name, arguments, group_id);
    if let Some(inner) = inner_arguments(arguments) {
        let nested = match text_field(arguments, "tool_name"@) {
            Some(t) => t,
            None => Seq::empty(),
        };
        lemma_own_check(nested, inner, group_id);
    }
}

proof fn lemma_own_check(name: Text, arguments: ObjV, group_id: Text)
    ensures
        own_check(name, arguments, group_id) is Ok <==> stays_in(name, arguments, group_id),
{
}

/// A call to join a group is made by the daemon for the session of the transport: arguments that
/// claim an identity are refused, and the session is the one that the transport names. A code alone
/// binds the conversation. Any other call is one of the actor that the conversation is bound to.
pub proof fn a_call_takes_its_way(name: Text, arguments: ObjV, session: Text)
    ensures
        ({
            let r = route(name, arguments, session);
            let joins = name == "cccc_group_create"@ || name == "cccc_group_bind"@;
            let claims = arguments.contains_key("session"@) || arguments.contains_key("by"@);
            &&& joins && claims ==> (r matches RouteV::Refused(e) && e.code == "invalid_request"@)
            &&& joins && !claims ==> (r matches RouteV::Daemon(op, m) && {
                &&& op == if name == "cccc_group_create"@ {
                    "web_model_chat_create"@
                } else {
                    "web_model_chat_bind"@
                }
                &&& text_field(m, "session"@) == Some(session)
                &&& text_field(m, "by"@) == Some("user"@)
                &&& forall|k: Text|
                    k != "session"@ && k != "by"@ ==> (#[trigger] m.contains_key(k)
                        <==> arguments.contains_key(k)) && (m.contains_key(k) ==> m[k]
                        == arguments[k])
            })
            &&& name == "cccc_session_bind"@ ==> match r {
                RouteV::Bind(code) => arguments.dom().len() == 1 && code.len() > 0 && (text_field(
                    arguments,
                    "code"@,
                ) matches Some(t) && trimmed(t) == code),
                RouteV::Refused(_) => arguments.dom().len() != 1 || (text_field(
                    arguments,
                    "code"@,
                ) matches Some(t) ==> trimmed(t).len() == 0),
                _ => false,
            }
            &&& !joins && name != "cccc_session_bind"@ ==> r == RouteV::Bound
        }),
{
    lemma_gateway_words();
    if text_field(arguments, "code"@) is None {
        crate::text::trimming_twice_is_trimming_once(Seq::<char>::empty());
        assert(trimmed(Seq::<char>::empty()) =~= Seq::<char>::empty());
    }
}

/// Whether a tool of a list has a name.
pub open spec fn is_offered(tools: Seq<JsonV>, name: Text) -> bool {
    exists|k: int| 0 <= k < tools.len() && (#[trigger] tools[k]).at("name"@) == JsonV::Str(name)
}

/// A request to list is listed, and one to call is taken for a call where it names a tool that is
/// offered and its arguments are an object; the conversation is the one that the transport tells.
/// Anything else that is not a call is handed on.
pub proof fn a_request_is_taken_for_what_it_is(request: JsonV, tools: Seq<JsonV>)
    ensures
        ({
            let r = on_request(request, tools);
            let method = request.at("method"@);
            let params = request.at("params"@);
            &&& method == JsonV::Str("tools/list"@) ==> r == RequestActionV::List
            &&& method != JsonV::Str("tools/list"@) && method != JsonV::Str("tools/call"@) ==> r
                == RequestActionV::Forward
            &&& method == JsonV::Str("tools/call"@) ==> match r {
                RequestActionV::Call(name, arguments, session) => {
                    &&& params.at("name"@) == JsonV::Str(name)
                    &&& name.len() > 0
                    &&& is_offered(tools, name)
                    &&& params.get("arguments"@) matches Some(a) ==> a == JsonV::Obj(arguments)
                    &&& params.get("arguments"@) is None ==> arguments == Map::<
                        Text,
                        JsonV,
                    >::empty()
                    &&& session == match params.at("_meta"@).at("openai/session"@) {
                        JsonV::Str(t) => if trimmed(t).len() > 0 {
                            Some(trimmed(t))
                        } else {
                            None
                        },
                        _ => None,
                    }
                },
                RequestActionV::Invalid(code, _) => code == -32602 && (!(params is Obj) || !(
                params.at("name"@) matches JsonV::Str(n) && n.len() > 0 && is_offered(tools, n))
                    || (params.get("arguments"@) matches Some(a) && !(a is Obj))),
                _ => false,
            }
        }),
{
    lemma_gateway_words();
    if let JsonV::Str(name) = request.at("params"@).at("name"@) {
        let p = |t: JsonV| t.at("name"@) == JsonV::Str(name);
        if some_match(tools, p) {
            let k = choose|k: int| 0 <= k < tools.len() && p(#[trigger] tools[k]);
            assert(tools[k].at("name"@) == JsonV::Str(name));
        }
        if is_offered(tools, name) {
            let k = choose|k: int|
                0 <= k < tools.len() && (#[trigger] tools[k]).at("name"@) == JsonV::Str(name);
            assert(p(tools[k]));
        }
    }
}

/// What a conversation is bound to is the group and the actor that its connector names, and what a
/// code opens is the connector that was found for it.
pub proof fn a_conversation_acts_as_its_connector(found: Option<ObjV>)
    ensures
        bound_to(found) matches Ok((g, a)) ==> (found matches Some(c) && speaks_for(c, g, a)),
        (found matches Some(c) && text_field(c, "group_id"@) is Some && text_field(c, "actor_id"@)
            is Some) ==> bound_to(found) is Ok,
        bound_to(found) matches Err(e) ==> e.code == "session_binding_required"@,
        opened_by_code(found) matches Ok(id) ==> (found matches Some(c) && text_field(
            c,
            "connector_id"@,
        ) == Some(id)),
        found is None ==> (opened_by_code(found) matches Err(e) && e.code
            == "session_binding_code_invalid"@),
        (found matches Some(c) && text_field(c, "connector_id"@) is Some) ==> opened_by_code(found)
            is Ok,
{
}

/// The tools that the gateway adds are told by their names, and take what they need and nothing that
/// they do not know.
pub proof fn the_gateway_offers_its_own_tools()
    ensures
        bind_tool().at("name"@) == JsonV::Str("cccc_session_bind"@),
        create_tool().at("name"@) == JsonV::Str("cccc_group_create"@),
        group_tool().at("name"@) == JsonV::Str("cccc_group_bind"@),
        bind_tool().at("inputSchema"@).at("required"@) == JsonV::Arr(seq![JsonV::Str("code"@)]),
        create_tool().at("inputSchema"@).at("required"@) == JsonV::Arr(seq![JsonV::Str("path"@)]),
        group_tool().at("inputSchema"@).at("required"@) == JsonV::Arr(seq![JsonV::Str("group"@)]),
        bind_tool().at("inputSchema"@).at("additionalProperties"@) == JsonV::Bool(false),
        create_tool().at("inputSchema"@).at("additionalProperties"@) == JsonV::Bool(false),
        group_tool().at("inputSchema"@).at("additionalProperties"@) == JsonV::Bool(false),
{
    lemma_gateway_words();
}

} // verus!
