//! The gateway of a trusted conversation tunnel: which tools it offers, and which calls a bound
//! conversation may make. The conversation's identity comes from the transport, never from the
//! arguments of a call.

use crate::failure::Failure;
use crate::json::{
    field, lemma_values_are_views, lemma_values_push, or_null, text_field, text_or_empty, values,
    Json, JsonMap, JsonV, ObjV,
};
use crate::lists::{any_of, lemma_views, lemma_views_push, select, some_match};
use crate::relay::decide::one_text;
use crate::text::{has_prefix, has_text, opt_text, starts_with, str_eq, texts, trim, trimmed, Text};
use vstd::prelude::*;
use vstd::string::*;

verus! {

broadcast use {lemma_views, lemma_views_push};

/// A refused tool call.
pub struct ToolError {
    pub code: String,
    pub message: String,
}

/// The mathematical value of a refused tool call.
pub struct ToolErrorV {
    pub code: Text,
    pub message: Text,
}

impl View for ToolError {
    type V = ToolErrorV;

    open spec fn view(&self) -> ToolErrorV {
        ToolErrorV { code: self.code@, message: self.message@ }
    }
}

/// A refused tool call.
pub open spec fn refused(code: Text, message: Text) -> ToolErrorV {
    ToolErrorV { code, message }
}

fn refuse(code: &str, message: &str) -> (r: ToolError)
    ensures
        r@ == refused(code@, message@),
{
    ToolError { code: code.to_owned(), message: message.to_owned() }
}

/// The refusal of a call whose conversation cannot be looked up: the failure as a code, where it
/// is one.
pub open spec fn lookup_refusal(failure: Text, is_code: bool) -> ToolErrorV {
    refused(
        if is_code {
            failure
        } else {
            "session_binding_failed"@
        },
        "The local conversation binding is unavailable or invalid."@,
    )
}

/// The refusal of a call whose conversation cannot be looked up. `is_code` says whether the message
/// of the failure has the form of a code.
pub fn binding_error(failure: &Failure, is_code: bool) -> (r: ToolError)
    ensures
        r@ == lookup_refusal(failure@.message, is_code),
{
    refuse(
        if is_code {
            failure.message.as_str()
        } else {
            "session_binding_failed"
        },
        "The local conversation binding is unavailable or invalid.",
    )
}

/// The refusal of a call from a conversation that is not bound.
pub open spec fn unbound() -> ToolErrorV {
    refused(
        "session_binding_required"@,
        "This conversation is not bound. Use a locally issued connection code with cccc_session_bind. A group_id argument cannot select a group."@,
    )
}

/// The refusal of a call from a conversation that is not bound.
pub fn required_binding() -> (r: ToolError)
    ensures
        r@ == unbound(),
{
    refuse(
        "session_binding_required",
        "This conversation is not bound. Use a locally issued connection code with cccc_session_bind. A group_id argument cannot select a group.",
    )
}

/// Whether a tool is among the core tools.
pub open spec fn is_core(tool: JsonV, core: Seq<Text>) -> bool {
    tool.at("name"@).text() matches Some(n) && core.contains(n)
}

/// The core tools among all tools.
pub fn core_tools(tools: &Vec<Json>, core: &Vec<String>) -> (r: Vec<Json>)
    ensures
        values(r@) == values(tools@).filter(|t: JsonV| is_core(t, texts(core@))),
{
    let ghost sp = |t: JsonV| is_core(t, texts(core@));
    proof {
        lemma_values_are_views(tools@);
    }
    let r = select(
        tools,
        |t: &Json| -> (b: bool)
            ensures (b == is_core(t@, texts(core@)))
        {
            match t.text("name") {
                Some(n) => has_text(core, n),
                None => false,
            }
        },
        |t: &Json| -> (c: Json)
            ensures (c@ == t@)
        {
            t.copy()
        },
        Ghost(sp),
    );
    proof {
        lemma_values_are_views(r@);
    }
    r
}

/// A property that is a string.
pub open spec fn string_type() -> JsonV {
    JsonV::Obj(map!["type"@ => JsonV::Str("string"@)])
}

/// What a tool may be expected to do.
pub open spec fn annotations(destructive: bool, idempotent: bool) -> JsonV {
    JsonV::Obj(
        map![
            "readOnlyHint"@ => JsonV::Bool(false),
            "destructiveHint"@ => JsonV::Bool(destructive),
            "idempotentHint"@ => JsonV::Bool(idempotent),
            "openWorldHint"@ => JsonV::Bool(false),
        ],
    )
}

/// The schema of a tool's arguments.
pub open spec fn schema(properties: ObjV, required: Text) -> JsonV {
    JsonV::Obj(
        map![
            "type"@ => JsonV::Str("object"@),
            "properties"@ => JsonV::Obj(properties),
            "required"@ => JsonV::Arr(seq![JsonV::Str(required)]),
            "additionalProperties"@ => JsonV::Bool(false),
        ],
    )
}

/// A tool.
pub open spec fn tool(name: Text, description: Text, input: JsonV, notes: JsonV) -> JsonV {
    JsonV::Obj(
        map![
            "name"@ => JsonV::Str(name),
            "description"@ => JsonV::Str(description),
            "inputSchema"@ => input,
            "annotations"@ => notes,
        ],
    )
}

/// The tool that binds a conversation with a code.
pub open spec fn bind_tool() -> JsonV {
    tool(
        "cccc_session_bind"@,
        "Bind this ChatGPT conversation to the group selected by a one-use connection code. The code is issued locally; conversation identity is supplied by ChatGPT, never by tool arguments."@,
        schema(
            map![
                "code"@ => JsonV::Obj(
                    map!["type"@ => JsonV::Str("string"@), "minLength"@ => JsonV::Int(1)],
                ),
            ],
            "code"@,
        ),
        annotations(true, false),
    )
}

/// The tool that creates a group from a conversation.
pub open spec fn create_tool() -> JsonV {
    tool(
        "cccc_group_create"@,
        "Create a group from this ChatGPT conversation and bind its web Foreman. Retries reuse the same group. Supply this chat's URL for browser return messages; a missing URL does not prevent local dispatch."@,
        schema(
            map![
                "path"@ => string_type(),
                "title"@ => string_type(),
                "chat_url"@ => string_type(),
            ],
            "path"@,
        ),
        annotations(false, true),
    )
}

/// The tool that binds a conversation to a group that is there.
pub open spec fn group_tool() -> JsonV {
    tool(
        "cccc_group_bind"@,
        "Bind this Chat to an existing unowned group, or update the callback URL of its own group. A different Chat must use a freshly issued connection code to replace a binding; local Foremen are never silently replaced."@,
        schema(
            map!["group"@ => string_type(), "chat_url"@ => string_type()],
            "group"@,
        ),
        annotations(false, true),
    )
}

fn string_type_of() -> (r: Json)
    ensures
        r@ == string_type(),
{
    let mut m = JsonMap::new();
    m.put("type", Json::str("string"));
    Json::Obj(m)
}

fn tool_of(
    name: &str,
    description: &str,
    properties: JsonMap,
    required: &str,
    destructive: bool,
    idempotent: bool,
) -> (r: Json)
    ensures
        r@ == tool(
            name@,
            description@,
            schema(properties@, required@),
            annotations(destructive, idempotent),
        ),
{
    let mut input = JsonMap::new();
    input.put("type", Json::str("object"));
    input.put("properties", Json::Obj(properties));
    input.put("required", one_text(required));
    input.put("additionalProperties", Json::Bool(false));
    let mut notes = JsonMap::new();
    notes.put("readOnlyHint", Json::Bool(false));
    notes.put("destructiveHint", Json::Bool(destructive));
    notes.put("idempotentHint", Json::Bool(idempotent));
    notes.put("openWorldHint", Json::Bool(false));
    let mut m = JsonMap::new();
    m.put("name", Json::str(name));
    m.put("description", Json::str(description));
    m.put("inputSchema", Json::Obj(input));
    m.put("annotations", Json::Obj(notes));
    Json::Obj(m)
}

/// The tools that the gateway offers: the given ones, and those that bind a conversation.
pub fn catalog(tools: Vec<Json>) -> (r: Vec<Json>)
    ensures
        values(r@) == values(tools@) + seq![bind_tool(), create_tool(), group_tool()],
{
    let ghost start = values(tools@);
    let mut r = tools;
    let mut code = JsonMap::new();
    code.put("type", Json::str("string"));
    code.put("minLength", Json::Int(1));
    let mut p = JsonMap::new();
    p.put("code", Json::Obj(code));
    let a = tool_of(
        "cccc_session_bind",
        "Bind this ChatGPT conversation to the group selected by a one-use connection code. The code is issued locally; conversation identity is supplied by ChatGPT, never by tool arguments.",
        p,
        "code",
        true,
        false,
    );
    let mut p = JsonMap::new();
    p.put("path", string_type_of());
    p.put("title", string_type_of());
    p.put("chat_url", string_type_of());
    let b = tool_of(
        "cccc_group_create",
        "Create a group from this ChatGPT conversation and bind its web Foreman. Retries reuse the same group. Supply this chat's URL for browser return messages; a missing URL does not prevent local dispatch.",
        p,
        "path",
        false,
        true,
    );
    let mut p = JsonMap::new();
    p.put("group", string_type_of());
    p.put("chat_url", string_type_of());
    let c = tool_of(
        "cccc_group_bind",
        "Bind this Chat to an existing unowned group, or update the callback URL of its own group. A different Chat must use a freshly issued connection code to replace a binding; local Foremen are never silently replaced.",
        p,
        "group",
        false,
        true,
    );
    proof {
        lemma_values_push(r@, a);
        lemma_values_push(r@.push(a), b);
        lemma_values_push(r@.push(a).push(b), c);
    }
    r.push(a);
    r.push(b);
    r.push(c);
    proof {
        assert(values(r@) =~= start + seq![bind_tool(), create_tool(), group_tool()]);
    }
    r
}

/// What the gateway does with a request.
pub enum Request {
    /// List the tools.
    List,
    /// Hand it on as it is.
    Forward,
    /// Answer with a protocol error: its code and its message.
    Invalid(i64, String),
    /// Call a tool, for a conversation if the transport names one.
    Call(String, JsonMap, Option<String>),
}

/// The mathematical value of what the gateway does with a request.
pub enum RequestActionV {
    List,
    Forward,
    Invalid(int, Text),
    Call(Text, ObjV, Option<Text>),
}

impl View for Request {
    type V = RequestActionV;

    open spec fn view(&self) -> RequestActionV {
        match self {
            Request::List => RequestActionV::List,
            Request::Forward => RequestActionV::Forward,
            Request::Invalid(c, m) => RequestActionV::Invalid(*c as int, m@),
            Request::Call(n, a, s) => RequestActionV::Call(n@, a@, opt_text(*s)),
        }
    }
}

/// The conversation that the transport names, trimmed.
pub open spec fn conversation(params: ObjV) -> Option<Text> {
    match or_null(field(params, "_meta"@)).at("openai/session"@).text() {
        Some(t) => if trimmed(t).len() > 0 {
            Some(trimmed(t))
        } else {
            None
        },
        None => None,
    }
}

/// Whether a tool is offered under a name.
pub open spec fn offers(tools: Seq<JsonV>, name: Text) -> bool {
    some_match(tools, |t: JsonV| t.at("name"@) == JsonV::Str(name))
}

/// What the gateway does with the call of a tool.
pub open spec fn on_call(params: Option<ObjV>, tools: Seq<JsonV>) -> RequestActionV {
    match params {
        None => RequestActionV::Invalid(-32602, "tools/call params must be an object"@),
        Some(p) => {
            let name = text_or_empty(p, "name"@);
            let arguments = match field(p, "arguments"@) {
                None => Some(Map::<Text, JsonV>::empty()),
                Some(v) => v.object(),
            };
            if name.len() == 0 {
                RequestActionV::Invalid(-32602, "tools/call name must be a non-empty string"@)
            } else {
                match arguments {
                    None => RequestActionV::Invalid(
                        -32602,
                        "tools/call arguments must be an object"@,
                    ),
                    Some(a) => if !offers(tools, name) {
                        RequestActionV::Invalid(-32602, "Unknown gateway tool"@)
                    } else {
                        RequestActionV::Call(name, a, conversation(p))
                    },
                }
            }
        },
    }
}

/// What the gateway does with a request.
pub open spec fn on_request(request: JsonV, tools: Seq<JsonV>) -> RequestActionV {
    let method = request.at("method"@).text();
    if method == Some("tools/list"@) {
        RequestActionV::List
    } else if method == Some("tools/call"@) {
        on_call(request.at("params"@).object(), tools)
    } else {
        RequestActionV::Forward
    }
}

fn conversation_of(params: &JsonMap) -> (r: Option<String>)
    ensures
        opt_text(r) == conversation(params@),
{
    let meta = params.copy_or_null("_meta");
    match meta.text("openai/session") {
        Some(t) => {
            let s = trim(t);
            if s.as_str().is_empty() {
                None
            } else {
                Some(s)
            }
        },
        None => None,
    }
}

/// What the gateway does with a request. `tools` are the tools that it offers.
pub fn handle(request: &Json, tools: &Vec<Json>) -> (r: Request)
    ensures
        r@ == on_request(request@, values(tools@)),
{
    if request.is("method", "tools/list") {
        return Request::List;
    }
    if !request.is("method", "tools/call") {
        return Request::Forward;
    }
    let given = request.at("params");
    let params = match given.as_object() {
        Some(p) => p,
        None => {
            return Request::Invalid(-32602, "tools/call params must be an object".to_owned());
        },
    };
    let name = params.text_or_empty("name");
    if name.as_str().is_empty() {
        return Request::Invalid(-32602, "tools/call name must be a non-empty string".to_owned());
    }
    let arguments = match params.get("arguments") {
        None => JsonMap::new(),
        Some(v) => match v.as_object() {
            Some(m) => m.copy(),
            None => {
                return Request::Invalid(
                    -32602,
                    "tools/call arguments must be an object".to_owned(),
                );
            },
        },
    };
    let ghost sp = |t: JsonV| t.at("name"@) == JsonV::Str(name@);
    proof {
        lemma_values_are_views(tools@);
    }
    let offered = any_of(
        tools,
        |t: &Json| -> (b: bool)
            ensures (b == (t@.at("name"@) == JsonV::Str(name@)))
        {
            t.is("name", name.as_str())
        },
        Ghost(sp),
    );
    if !offered {
        return Request::Invalid(-32602, "Unknown gateway tool".to_owned());
    }
    let session = conversation_of(params);
    Request::Call(name, arguments, session)
}

/// How a call is carried out.
pub enum Route {
    /// By an operation of the daemon with these arguments.
    Daemon(String, JsonMap),
    /// By binding the conversation with this code.
    Bind(String),
    /// By the shared dispatch, for the actor that the conversation is bound to.
    Bound,
    /// Not at all.
    Refused(ToolError),
}

/// The mathematical value of how a call is carried out.
pub enum RouteV {
    Daemon(Text, ObjV),
    Bind(Text),
    Bound,
    Refused(ToolErrorV),
}

impl View for Route {
    type V = RouteV;

    open spec fn view(&self) -> RouteV {
        match self {
            Route::Daemon(op, args) => RouteV::Daemon(op@, args@),
            Route::Bind(code) => RouteV::Bind(code@),
            Route::Bound => RouteV::Bound,
            Route::Refused(e) => RouteV::Refused(e@),
        }
    }
}

/// How a call of a conversation is carried out. The identity that goes with an onboarding is the
/// transport's: arguments that claim one are refused.
pub open spec fn route(name: Text, arguments: ObjV, session: Text) -> RouteV {
    if name == "cccc_group_create"@ || name == "cccc_group_bind"@ {
        if arguments.contains_key("session"@) || arguments.contains_key("by"@) {
            RouteV::Refused(
                refused("invalid_request"@, "identity is supplied by the ChatGPT transport"@),
            )
        } else {
            RouteV::Daemon(
                if name == "cccc_group_create"@ {
                    "web_model_chat_create"@
                } else {
                    "web_model_chat_bind"@
                },
                arguments.insert("session"@, JsonV::Str(session)).insert(
                    "by"@,
                    JsonV::Str("user"@),
                ),
            )
        }
    } else if name == "cccc_session_bind"@ {
        if arguments.dom().len() != 1 {
            RouteV::Refused(refused("invalid_args"@, "cccc_session_bind accepts only code"@))
        } else if trimmed(text_or_empty(arguments, "code"@)).len() == 0 {
            RouteV::Refused(
                refused("session_binding_code_invalid"@, "code must be a non-empty string"@),
            )
        } else {
            RouteV::Bind(trimmed(text_or_empty(arguments, "code"@)))
        }
    } else {
        RouteV::Bound
    }
}

fn member_count(m: &JsonMap) -> (r: usize)
    ensures
        r == m@.dom().len(),
{
    let keys = crate::json_write::keys_in_order(m);
    proof {
        let s = texts(keys@);
        assert(m@.dom() =~= s.to_set()) by {
            assert forall|k: Text| m@.dom().contains(k) <==> s.to_set().contains(k) by {
                assert(s.contains(k) <==> m@.contains_key(k));
            }
        }
        crate::order::lemma_increasing_no_duplicates(s);
        s.unique_seq_to_set();
    }
    keys.len()
}

/// How a call of a conversation is carried out.
pub fn call(name: &str, arguments: &JsonMap, session: &str) -> (r: Route)
    ensures
        r@ == route(name@, arguments@, session@),
{
    proof {
        assert(crate::text::trimmed_start(Seq::<char>::empty()) =~= Seq::empty());
        assert(trimmed(Seq::<char>::empty()) =~= Seq::empty());
    }
    let creates = str_eq(name, "cccc_group_create");
    if creates || str_eq(name, "cccc_group_bind") {
        if arguments.has("session") || arguments.has("by") {
            return Route::Refused(
                refuse("invalid_request", "identity is supplied by the ChatGPT transport"),
            );
        }
        let mut args = arguments.copy();
        args.put("session", Json::str(session));
        args.put("by", Json::str("user"));
        let op = if creates {
            "web_model_chat_create"
        } else {
            "web_model_chat_bind"
        };
        return Route::Daemon(op.to_owned(), args);
    }
    if str_eq(name, "cccc_session_bind") {
        if member_count(arguments) != 1 {
            return Route::Refused(refuse("invalid_args", "cccc_session_bind accepts only code"));
        }
        let given = arguments.text_or_empty("code");
        let code = trim(given.as_str());
        if code.as_str().is_empty() {
            return Route::Refused(
                refuse("session_binding_code_invalid", "code must be a non-empty string"),
            );
        }
        return Route::Bind(code);
    }
    Route::Bound
}

/// The connector that a code opens: the looked up one, by its id.
pub open spec fn opened_by_code(found: Option<ObjV>) -> Result<Text, ToolErrorV> {
    match found {
        None => Err(
            refused(
                "session_binding_code_invalid"@,
                "connection code is invalid or already used"@,
            ),
        ),
        Some(c) => match text_field(c, "connector_id"@) {
            Some(id) => Ok(id),
            None => Err(refused("session_binding_failed"@, "connector has no identity"@)),
        },
    }
}

/// The id of the connector that a code opens. `found` is the connector that holds the code.
pub fn connector_for_code(found: Option<&JsonMap>) -> (r: Result<String, ToolError>)
    ensures
        match r {
            Ok(id) => opened_by_code(crate::json::opt_obj(found)) == Ok::<Text, ToolErrorV>(id@),
            Err(e) => opened_by_code(crate::json::opt_obj(found)) == Err::<Text, ToolErrorV>(e@),
        },
{
    match found {
        None => Err(
            refuse("session_binding_code_invalid", "connection code is invalid or already used"),
        ),
        Some(c) => match c.text("connector_id") {
            Some(id) => Ok(id.to_owned()),
            None => Err(refuse("session_binding_failed", "connector has no identity")),
        },
    }
}

/// The group and the actor that a conversation is bound to.
pub open spec fn bound_to(found: Option<ObjV>) -> Result<(Text, Text), ToolErrorV> {
    match found {
        None => Err(unbound()),
        Some(c) => match (text_field(c, "group_id"@), text_field(c, "actor_id"@)) {
            (Some(g), Some(a)) => Ok((g, a)),
            _ => Err(unbound()),
        },
    }
}

/// The group and the actor that a conversation is bound to. `found` is the connector that holds
/// the conversation.
pub fn bound_context(found: Option<&JsonMap>) -> (r: Result<(String, String), ToolError>)
    ensures
        match r {
            Ok((g, a)) => bound_to(crate::json::opt_obj(found)) == Ok::<(Text, Text), ToolErrorV>(
                (g@, a@),
            ),
            Err(e) => bound_to(crate::json::opt_obj(found)) == Err::<(Text, Text), ToolErrorV>(e@),
        },
{
    match found {
        None => Err(required_binding()),
        Some(c) => match (c.text("group_id"), c.text("actor_id")) {
            (Some(g), Some(a)) => Ok((g.to_owned(), a.to_owned())),
            _ => Err(required_binding()),
        },
    }
}

/// Whether an argument that names a group names another one: it must be a string, null, or absent.
pub open spec fn group_argument(arguments: ObjV, key: Text, group_id: Text) -> Result<(), ToolErrorV> {
    match field(arguments, key) {
        None => Ok(()),
        Some(JsonV::Null) => Ok(()),
        Some(v) => match v.text() {
            None => Err(refused("invalid_args"@, "group identifiers must be strings"@)),
            Some(t) => if trimmed(t).len() > 0 && trimmed(t) != group_id {
                Err(
                    refused(
                        "group_scope_mismatch"@,
                        "this conversation can only access its bound group"@,
                    ),
                )
            } else {
                Ok(())
            },
        },
    }
}

/// Whether a tool administers more than a group.
pub open spec fn is_global(name: Text) -> bool {
    has_prefix(name, "cccc_remote_"@) || name == "cccc_im_bind"@ || name
        == "cccc_capability_import"@ || name == "cccc_capability_uninstall"@
}

/// Whether a call searches or changes groups.
pub open spec fn leaves_group(name: Text, arguments: ObjV) -> bool {
    let action = text_field(arguments, "action"@);
    name == "cccc_group"@ && (action == Some("create"@) || action == Some("resolve"@) || action
        == Some("use"@))
}

/// The check of a call by itself, whatever it carries inside.
pub open spec fn own_check(name: Text, arguments: ObjV, group_id: Text) -> Result<(), ToolErrorV> {
    match group_argument(arguments, "group_id"@, group_id) {
        Err(e) => Err(e),
        Ok(_) => match group_argument(arguments, "dst_group_id"@, group_id) {
            Err(e) => Err(e),
            Ok(_) => if is_global(name) {
                Err(
                    refused(
                        "group_scope_mismatch"@,
                        "global and remote administration is not available to a bound conversation"@,
                    ),
                )
            } else if leaves_group(name, arguments) {
                Err(
                    refused(
                        "group_scope_mismatch"@,
                        "this operation changes or searches outside the bound group"@,
                    ),
                )
            } else {
                Ok(())
            },
        },
    }
}

/// The arguments of the call that a capability call carries.
pub open spec fn carried(arguments: ObjV) -> Result<ObjV, ToolErrorV> {
    let given = match field(arguments, "tool_arguments"@) {
        Some(v) => Some(v),
        None => field(arguments, "arguments"@),
    };
    match given {
        None => Ok(Map::<Text, JsonV>::empty()),
        Some(JsonV::Null) => Ok(Map::<Text, JsonV>::empty()),
        Some(JsonV::Obj(m)) => Ok(m),
        Some(_) => Err(refused("invalid_args"@, "tool_arguments must be an object"@)),
    }
}

/// The check of a call of a bound conversation: it stays in its group, and so does the call that
/// it carries, which may not carry another.
pub open spec fn call_check(name: Text, arguments: ObjV, group_id: Text) -> Result<(), ToolErrorV> {
    match own_check(name, arguments, group_id) {
        Err(e) => Err(e),
        Ok(_) => {
            let nested = text_or_empty(arguments, "tool_name"@);
            if name != "cccc_capability_use"@ || nested.len() == 0 {
                Ok(())
            } else if nested == "cccc_capability_use"@ {
                Err(
                    refused(
                        "capability_use_invalid_tool"@,
                        "cccc_capability_use cannot recursively call itself"@,
                    ),
                )
            } else {
                match carried(arguments) {
                    Err(e) => Err(e),
                    Ok(inner) => own_check(nested, inner, group_id),
                }
            }
        },
    }
}

/// The value of a check of a call.
pub open spec fn verdict_of(r: Result<(), ToolError>) -> Result<(), ToolErrorV> {
    match r {
        Ok(_) => Ok(()),
        Err(e) => Err(e@),
    }
}

fn check_group_argument(arguments: &JsonMap, key: &str, group_id: &str) -> (r: Result<
    (),
    ToolError,
>)
    ensures
        verdict_of(r) == group_argument(arguments@, key@, group_id@),
{
    match arguments.get(key) {
        None => Ok(()),
        Some(v) => match v {
            Json::Null => Ok(()),
            _ => match v.as_str() {
                None => Err(refuse("invalid_args", "group identifiers must be strings")),
                Some(t) => {
                    let t = trim(t);
                    if !t.as_str().is_empty() && !str_eq(t.as_str(), group_id) {
                        Err(
                            refuse(
                                "group_scope_mismatch",
                                "this conversation can only access its bound group",
                            ),
                        )
                    } else {
                        Ok(())
                    }
                },
            },
        },
    }
}

fn check_own(name: &str, arguments: &JsonMap, group_id: &str) -> (r: Result<(), ToolError>)
    ensures
        verdict_of(r) == own_check(name@, arguments@, group_id@),
{
    check_group_argument(arguments, "group_id", group_id)?;
    check_group_argument(arguments, "dst_group_id", group_id)?;
    if starts_with(name, "cccc_remote_") || str_eq(name, "cccc_im_bind") || str_eq(
        name,
        "cccc_capability_import",
    ) || str_eq(name, "cccc_capability_uninstall") {
        return Err(
            refuse(
                "group_scope_mismatch",
                "global and remote administration is not available to a bound conversation",
            ),
        );
    }
    if str_eq(name, "cccc_group") && (arguments.is("action", "create") || arguments.is(
        "action",
        "resolve",
    ) || arguments.is("action", "use")) {
        return Err(
            refuse(
                "group_scope_mismatch",
                "this operation changes or searches outside the bound group",
            ),
        );
    }
    Ok(())
}

/// Checks a call of a bound conversation.
pub fn check_call(name: &str, arguments: &JsonMap, group_id: &str) -> (r: Result<(), ToolError>)
    ensures
        verdict_of(r) == call_check(name@, arguments@, group_id@),
{
    check_own(name, arguments, group_id)?;
    if !str_eq(name, "cccc_capability_use") {
        return Ok(());
    }
    let nested = arguments.text_or_empty("tool_name");
    if nested.as_str().is_empty() {
        return Ok(());
    }
    if str_eq(nested.as_str(), "cccc_capability_use") {
        return Err(
            refuse(
                "capability_use_invalid_tool",
                "cccc_capability_use cannot recursively call itself",
            ),
        );
    }
    let given = match arguments.get("tool_arguments") {
        Some(v) => Some(v),
        None => arguments.get("arguments"),
    };
    match given {
        None => check_own(nested.as_str(), &JsonMap::new(), group_id),
        Some(v) => match v {
            Json::Null => check_own(nested.as_str(), &JsonMap::new(), group_id),
            Json::Obj(m) => check_own(nested.as_str(), m, group_id),
            _ => Err(refuse("invalid_args", "tool_arguments must be an object")),
        },
    }
}

/// The check of a call at the shared dispatch: one that comes through the gateway must come from a
/// conversation that is still bound to the group and the actor it is made for.
pub open spec fn authorized(
    gateway: bool,
    connector: Option<ObjV>,
    name: Text,
    arguments: ObjV,
    group_id: Text,
    actor_id: Text,
) -> Result<(), ToolErrorV> {
    if !gateway {
        Ok(())
    } else {
        match connector {
            None => Err(unbound()),
            Some(c) => if text_field(c, "group_id"@) != Some(group_id) || text_field(
                c,
                "actor_id"@,
            ) != Some(actor_id) {
                Err(unbound())
            } else {
                call_check(name, arguments, group_id)
            },
        }
    }
}

/// Checks a call at the shared dispatch. `gateway` says whether it comes through the gateway;
/// `connector` is what its conversation is bound to now.
pub fn authorize_call(
    gateway: bool,
    connector: Option<&JsonMap>,
    name: &str,
    arguments: &JsonMap,
    group_id: &str,
    actor_id: &str,
) -> (r: Result<(), ToolError>)
    ensures
        verdict_of(r) == authorized(
            gateway,
            crate::json::opt_obj(connector),
            name@,
            arguments@,
            group_id@,
            actor_id@,
        ),
{
    if !gateway {
        return Ok(());
    }
    match connector {
        None => Err(required_binding()),
        Some(c) => {
            if !c.is("group_id", group_id) || !c.is("actor_id", actor_id) {
                return Err(required_binding());
            }
            check_call(name, arguments, group_id)
        },
    }
}

/// A call that is let through stays in its group: no argument of it, or of the call that it
/// carries, names another group, and neither of them administers more than a group.
pub proof fn an_authorized_call_stays_in_its_group(
    connector: Option<ObjV>,
    name: Text,
    arguments: ObjV,
    group_id: Text,
    actor_id: Text,
    key: Text,
)
    requires
        authorized(true, connector, name, arguments, group_id, actor_id) is Ok,
        key == "group_id"@ || key == "dst_group_id"@,
    ensures
        connector is Some,
        !is_global(name),
        text_field(arguments, key) matches Some(t) ==> trimmed(t).len() == 0 || trimmed(t)
            == group_id,
        name == "cccc_capability_use"@ && text_or_empty(arguments, "tool_name"@).len() > 0 ==> {
            &&& text_or_empty(arguments, "tool_name"@) != "cccc_capability_use"@
            &&& !is_global(text_or_empty(arguments, "tool_name"@))
            &&& carried(arguments) matches Ok(inner) && (text_field(inner, key) matches Some(t)
                ==> trimmed(t).len() == 0 || trimmed(t) == group_id)
        },
{
}

} // verus!
