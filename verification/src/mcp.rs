use vstd::prelude::*;

use crate::json::{
    Json, JsonV, jstr, lookup_member, member, member_or_null, object, push_member, str_at,
    str_of, text, view_entries,
};
use crate::text::str_eq;
use crate::tools::{list, tool_list_of};

verus! {

/// What the server does with one request line.
pub enum Route {
    /// Send nothing back.
    Ignore,
    /// Send back this response.
    Respond(Json),
    /// Run the tool `name` with `args`, and answer request `id` with its result.
    CallTool { id: Json, name: String, args: Json },
}

/// The mathematical value of a route.
pub enum RouteV {
    Ignore,
    Respond(JsonV),
    CallTool(JsonV, Seq<char>, JsonV),
}

impl View for Route {
    type V = RouteV;

    open spec fn view(&self) -> RouteV {
        match self {
            Route::Ignore => RouteV::Ignore,
            Route::Respond(j) => RouteV::Respond(j@),
            Route::CallTool { id, name, args } => RouteV::CallTool(id@, name@, args@),
        }
    }
}

/// A JSON-RPC response that carries a result.
pub open spec fn result_response_of(id: JsonV, result: JsonV) -> JsonV {
    JsonV::Object(seq![("jsonrpc"@, jstr("2.0"@)), ("id"@, id), ("result"@, result)])
}

/// The result of `initialize`.
pub open spec fn init_result_of() -> JsonV {
    JsonV::Object(
        seq![
            ("protocolVersion"@, jstr("2024-11-05"@)),
            ("capabilities"@, JsonV::Object(seq![("tools"@, JsonV::Object(Seq::empty()))])),
            ("serverInfo"@, JsonV::Object(
                seq![("name"@, jstr("email-mcp"@)), ("version"@, jstr("0.1.0"@))],
            )),
        ],
    )
}

/// The error response to an unknown method.
pub open spec fn not_found_response_of(id: JsonV) -> JsonV {
    JsonV::Object(
        seq![
            ("jsonrpc"@, jstr("2.0"@)),
            ("id"@, id),
            ("error"@, JsonV::Object(
                seq![("code"@, JsonV::Number("-32601"@)), ("message"@, jstr("method not found"@))],
            )),
        ],
    )
}

/// What the server does with a request: `initialize`, `ping` and
/// `tools/list` (with the whole tool list) are answered at once,
/// `notifications/initialized` is not
/// answered, `tools/call` runs a tool (its arguments are `{}` when absent),
/// and other methods are answered with an error. A request without a string
/// method, or a tool call without a string tool name, is not answered.
pub open spec fn route_of(req: JsonV) -> RouteV {
    let id = member(req, "id"@);
    match str_of(member(req, "method"@)) {
        None => RouteV::Ignore,
        Some(m) => if m == "initialize"@ {
            RouteV::Respond(result_response_of(id, init_result_of()))
        } else if m == "notifications/initialized"@ {
            RouteV::Ignore
        } else if m == "ping"@ {
            RouteV::Respond(result_response_of(id, JsonV::Object(Seq::empty())))
        } else if m == "tools/list"@ {
            RouteV::Respond(result_response_of(id, tools_result_of()))
        } else if m == "tools/call"@ {
            let params = member(req, "params"@);
            match str_of(member(params, "name"@)) {
                None => RouteV::Ignore,
                Some(name) => RouteV::CallTool(
                    id,
                    name,
                    match lookup_member(params, "arguments"@) {
                        Some(a) => a,
                        None => JsonV::Object(Seq::empty()),
                    },
                ),
            }
        } else {
            RouteV::Respond(not_found_response_of(id))
        }
    }
}

/// The result of `tools/list`: the object holding the tool list.
pub open spec fn tools_result_of() -> JsonV {
    JsonV::Object(seq![("tools"@, tool_list_of())])
}

fn result_response(id: Json, result: Json) -> (r: Json)
    ensures
        r@ == result_response_of(id@, result@),
{
    let ghost iv = id@;
    let ghost rv = result@;
    let mut es: Vec<(String, Json)> = Vec::new();
    push_member(&mut es, "jsonrpc", text("2.0"));
    push_member(&mut es, "id", id);
    push_member(&mut es, "result", result);
    assert(view_entries(es@) =~= result_response_of(iv, rv)->Object_0);
    object(es)
}

fn empty_object() -> (r: Json)
    ensures
        r@ == JsonV::Object(Seq::empty()),
{
    let es: Vec<(String, Json)> = Vec::new();
    assert(view_entries(es@) =~= Seq::<(Seq<char>, JsonV)>::empty());
    object(es)
}

fn init_result() -> (r: Json)
    ensures
        r@ == init_result_of(),
{
    let mut caps: Vec<(String, Json)> = Vec::new();
    push_member(&mut caps, "tools", empty_object());
    let mut info: Vec<(String, Json)> = Vec::new();
    push_member(&mut info, "name", text("email-mcp"));
    push_member(&mut info, "version", text("0.1.0"));
    let mut es: Vec<(String, Json)> = Vec::new();
    push_member(&mut es, "protocolVersion", text("2024-11-05"));
    let ghost cv = view_entries(caps@);
    let ghost iv = view_entries(info@);
    push_member(&mut es, "capabilities", object(caps));
    push_member(&mut es, "serverInfo", object(info));
    assert(cv =~= seq![("tools"@, JsonV::Object(Seq::empty()))]);
    assert(iv =~= seq![("name"@, jstr("email-mcp"@)), ("version"@, jstr("0.1.0"@))]);
    assert(view_entries(es@) =~= init_result_of()->Object_0);
    object(es)
}

fn not_found_response(id: Json) -> (r: Json)
    ensures
        r@ == not_found_response_of(id@),
{
    let ghost iv = id@;
    let mut err: Vec<(String, Json)> = Vec::new();
    push_member(&mut err, "code", Json::Number(crate::text::copy_str("-32601")));
    push_member(&mut err, "message", text("method not found"));
    let ghost ev = view_entries(err@);
    let mut es: Vec<(String, Json)> = Vec::new();
    push_member(&mut es, "jsonrpc", text("2.0"));
    push_member(&mut es, "id", id);
    push_member(&mut es, "error", object(err));
    assert(ev =~= seq![("code"@, JsonV::Number("-32601"@)), ("message"@, jstr("method not found"@))]);
    assert(view_entries(es@) =~= not_found_response_of(iv)->Object_0);
    object(es)
}

/// What the server does with a request line that parsed as `req`.
pub fn route_request(req: &Json) -> (r: Route)
    ensures
        r@ == route_of(req@),
{
    let id = member_or_null(req, "id");
    let method = match str_at(req, "method") {
        Some(m) => m,
        None => {
            return Route::Ignore;
        },
    };
    if str_eq(method, "initialize") {
        Route::Respond(result_response(id, init_result()))
    } else if str_eq(method, "notifications/initialized") {
        Route::Ignore
    } else if str_eq(method, "ping") {
        Route::Respond(result_response(id, empty_object()))
    } else if str_eq(method, "tools/list") {
        let tools = list();
        let mut res: Vec<(String, Json)> = Vec::new();
        push_member(&mut res, "tools", tools);
        assert(view_entries(res@) =~= tools_result_of()->Object_0);
        Route::Respond(result_response(id, object(res)))
    } else if str_eq(method, "tools/call") {
        let params = match req.get("params") {
            Some(p) => p,
            None => {
                return Route::Ignore;
            },
        };
        let name = match str_at(params, "name") {
            Some(n) => crate::text::copy_str(n),
            None => {
                return Route::Ignore;
            },
        };
        let args = match params.get("arguments") {
            Some(a) => a.copy(),
            None => empty_object(),
        };
        Route::CallTool { id, name, args }
    } else {
        Route::Respond(not_found_response(id))
    }
}

/// The response to a tool call `id` whose result is `result`.
pub fn tool_response(id: Json, result: Json) -> (r: Json)
    ensures
        r@ == result_response_of(id@, result@),
{
    result_response(id, result)
}

}
