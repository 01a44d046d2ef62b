//! The dispatcher: resolves a tool name, validates the call's arguments,
//! runs the handler, and wraps the result into a canonical response.
//!
//! Every failure is a structured response — an unknown tool, a validation
//! fault list, a handler fault, or an exceeded deadline — never an
//! unhandled fault. Handlers are pure; a caller that runs a handler under
//! a wall clock reports the elapsed time to `complete`, which decides
//! whether the deadline was kept.

use vstd::prelude::*;
use vstd::string::StringExecFns;

use crate::registry::{spec_find_tool, HandlerKind, Registry};
use crate::text::{lemma_join_push, spec_dec_digits, spec_join, u64_to_string};
use crate::validate::{render_faults, spec_fault_list, spec_violations, validate};
use crate::value::{
    arr_value, bool_value, int_value, obj_get, obj_model, obj_value, spec_obj_get, str_value,
    string_value, Value, VValue,
};

verus! {

/// A canonical inbound call, already decoded from its transport framing.
#[derive(Debug)]
pub struct Request {
    /// Opaque correlation token; echoed into the response.
    pub id: String,
    /// The tool to invoke.
    pub tool: String,
    /// The argument object.
    pub arguments: Vec<(String, Value)>,
    /// The originating session, where the transport has one.
    pub session: Option<u64>,
}

/// The model of a `Request`.
pub struct VRequest {
    pub id: Seq<char>,
    pub tool: Seq<char>,
    pub arguments: Seq<(Seq<char>, VValue)>,
    pub session: Option<u64>,
}

impl Request {
    pub open spec fn view(self) -> VRequest {
        VRequest {
            id: self.id@,
            tool: self.tool@,
            arguments: obj_model(self.arguments@),
            session: self.session,
        }
    }
}

/// The error taxonomy of the canonical protocol.
#[derive(Debug, Clone, Copy, PartialEq, Eq, Structural)]
pub enum ErrorKind {
    UnknownTool,
    ValidationError,
    Timeout,
    HandlerError,
    UnknownSession,
    TransportError,
}

/// The wire name of an error kind.
pub open spec fn spec_kind_name(k: ErrorKind) -> Seq<char> {
    match k {
        ErrorKind::UnknownTool => "UnknownTool"@,
        ErrorKind::ValidationError => "ValidationError"@,
        ErrorKind::Timeout => "Timeout"@,
        ErrorKind::HandlerError => "HandlerError"@,
        ErrorKind::UnknownSession => "UnknownSession"@,
        ErrorKind::TransportError => "TransportError"@,
    }
}

/// The wire name of an error kind.
pub fn kind_name(k: ErrorKind) -> (r: &'static str)
    ensures
        r@ == spec_kind_name(k),
{
    match k {
        ErrorKind::UnknownTool => "UnknownTool",
        ErrorKind::ValidationError => "ValidationError",
        ErrorKind::Timeout => "Timeout",
        ErrorKind::HandlerError => "HandlerError",
        ErrorKind::UnknownSession => "UnknownSession",
        ErrorKind::TransportError => "TransportError",
    }
}

/// How a call ended: a result value, or a structured failure.
#[derive(Debug, PartialEq, Eq)]
pub enum Outcome {
    Success(Value),
    Failure(ErrorKind, String),
}

/// The model of an `Outcome`.
#[verifier::ext_equal]
pub enum VOutcome {
    Success(VValue),
    Failure(ErrorKind, Seq<char>),
}

impl Outcome {
    pub open spec fn view(self) -> VOutcome {
        match self {
            Outcome::Success(v) => VOutcome::Success(v.view()),
            Outcome::Failure(k, m) => VOutcome::Failure(k, m@),
        }
    }
}

/// A canonical response, correlated to its request by id.
#[derive(Debug, PartialEq, Eq)]
pub struct Response {
    pub id: String,
    pub outcome: Outcome,
}

/// The model of a `Response`.
#[verifier::ext_equal]
pub struct VResponse {
    pub id: Seq<char>,
    pub outcome: VOutcome,
}

impl Response {
    pub open spec fn view(self) -> VResponse {
        VResponse { id: self.id@, outcome: self.outcome.view() }
    }
}

/// A failure response.
pub open spec fn spec_fail(id: Seq<char>, kind: ErrorKind, msg: Seq<char>) -> VResponse {
    VResponse { id, outcome: VOutcome::Failure(kind, msg) }
}

/// The model of a handler's raw result.
pub open spec fn handler_res_model(r: Result<Value, String>) -> Result<VValue, Seq<char>> {
    match r {
        Ok(v) => Ok(v.view()),
        Err(m) => Err(m@),
    }
}

/// The character content of a string value; empty for any other value.
pub open spec fn spec_get_str(v: VValue) -> Seq<char> {
    match v {
        VValue::Str(s) => s,
        _ => Seq::empty(),
    }
}

/// One formatted greeting line: an optional one-based number, the prefix,
/// the name, and punctuation.
pub open spec fn spec_greet_line(i: int, prefix: Seq<char>, numbered: bool, name: Seq<char>) -> Seq<
    char,
> {
    (if numbered {
        spec_dec_digits((i + 1) as nat) + ". "@
    } else {
        Seq::empty()
    }) + prefix + ", "@ + name + "!"@
}

/// The structured description of this server.
pub open spec fn spec_server_info() -> VValue {
    VValue::Obj(
        seq![
            ("server"@, VValue::Str("Aurora OS MCP Demo Server"@)),
            ("version"@, VValue::Str("0.1.0"@)),
            ("description"@, VValue::Str("A demonstration MCP server for Aurora OS integration"@)),
            ("platform"@, VValue::Str("Aurora OS"@)),
            ("protocol_version"@, VValue::Str("2024-11-05"@)),
            (
                "transports"@,
                VValue::Arr(
                    seq![VValue::Str("stdio"@), VValue::Str("http"@), VValue::Str("sse"@)],
                ),
            ),
            (
                "tools"@,
                VValue::Arr(
                    seq![
                        VValue::Str("hello_world() - Returns a greeting message from Aurora OS"@),
                        VValue::Str("get_usa_president() - Return current usa president"@),
                        VValue::Str("get_server_info() - Returns detailed server information"@),
                        VValue::Str("health_check() - Returns server health status"@),
                        VValue::Str(
                            "batch_greeting() - Generate personalized greetings for multiple names"@,
                        ),
                    ],
                ),
            ),
            (
                "capabilities"@,
                VValue::Arr(
                    seq![
                        VValue::Str("tools"@),
                        VValue::Str("stdio transport"@),
                        VValue::Str("http transport"@),
                        VValue::Str("sse transport"@),
                    ],
                ),
            ),
        ],
    )
}

/// The health report carrying the supplied timestamp.
pub open spec fn spec_health(now: Seq<char>) -> VValue {
    VValue::Obj(
        seq![
            ("status"@, VValue::Str("healthy"@)),
            ("timestamp"@, VValue::Str(now)),
            ("server"@, VValue::Str("Aurora OS MCP Demo Server"@)),
            ("version"@, VValue::Str("0.1.0"@)),
            ("uptime_seconds"@, VValue::Int(0)),
            ("transport_mode"@, VValue::Str("multi-mode (stdio/http/sse)"@)),
            ("tools_available"@, VValue::Int(4)),
        ],
    )
}

/// What each handler returns, as a function of the argument object and —
/// for the health report — of the supplied timestamp.
pub open spec fn spec_run_handler(
    h: HandlerKind,
    args: Seq<(Seq<char>, VValue)>,
    now: Seq<char>,
) -> Result<VValue, Seq<char>> {
    match h {
        HandlerKind::Echo => match spec_obj_get(args, "text"@) {
            Some(VValue::Str(s)) => Ok(VValue::Str(s)),
            _ => Err("missing or invalid field 'text'"@),
        },
        HandlerKind::HelloWorld => Ok(
            VValue::Str("Hello, World! from Aurora OS MCP Server 🌟"@),
        ),
        HandlerKind::UsaPresident => Ok(
            VValue::Str("В 2025 году президентом США является Дональд Трамп или Агент Краснов"@),
        ),
        HandlerKind::ServerInfo => Ok(spec_server_info()),
        HandlerKind::HealthCheck => Ok(spec_health(now)),
        HandlerKind::BatchGreeting => spec_batch_greeting(args),
    }
}

/// The batch-greeting handler: one greeting per name, optionally numbered,
/// joined into a text or wrapped into a structured object.
pub open spec fn spec_batch_greeting(args: Seq<(Seq<char>, VValue)>) -> Result<
    VValue,
    Seq<char>,
> {
    match spec_obj_get(args, "names"@) {
        Some(VValue::Arr(names)) => {
            let prefix = match spec_obj_get(args, "prefix"@) {
                Some(VValue::Str(p)) => p,
                _ => "Hello"@,
            };
            let numbered = match spec_obj_get(args, "include_numbers"@) {
                Some(VValue::Bool(b)) => b,
                _ => false,
            };
            let as_json = match spec_obj_get(args, "as_json"@) {
                Some(VValue::Bool(b)) => b,
                _ => false,
            };
            if names.len() == 0 {
                Err("Error: At least one name must be provided"@)
            } else if !(forall|i: int| 0 <= i < names.len() ==> (#[trigger] names[i]) is Str) {
                Err("Error: every name must be a string"@)
            } else if names.len() > 0x7fff_ffff_ffff_ffff {
                Err("Error: too many names"@)
            } else {
                let greetings = Seq::new(
                    names.len(),
                    |i: int| spec_greet_line(i, prefix, numbered, spec_get_str(names[i])),
                );
                if as_json {
                    Ok(
                        VValue::Obj(
                            seq![
                                (
                                    "greetings"@,
                                    VValue::Arr(
                                        Seq::new(
                                            greetings.len(),
                                            |i: int| VValue::Str(greetings[i]),
                                        ),
                                    ),
                                ),
                                ("count"@, VValue::Int(names.len() as int)),
                                ("prefix"@, VValue::Str(prefix)),
                                ("include_numbers"@, VValue::Bool(numbered)),
                            ],
                        ),
                    )
                } else {
                    Ok(VValue::Str(spec_join(greetings, "\n"@)))
                }
            }
        },
        _ => Err("missing or invalid field 'names'"@),
    }
}

/// Builds the structured server description.
pub fn server_info_value() -> (v: Value)
    ensures
        v.view() == spec_server_info(),
{
    let mut transports: Vec<Value> = Vec::new();
    transports.push(str_value("stdio"));
    transports.push(str_value("http"));
    transports.push(str_value("sse"));
    let mut tools: Vec<Value> = Vec::new();
    tools.push(str_value("hello_world() - Returns a greeting message from Aurora OS"));
    tools.push(str_value("get_usa_president() - Return current usa president"));
    tools.push(str_value("get_server_info() - Returns detailed server information"));
    tools.push(str_value("health_check() - Returns server health status"));
    tools.push(str_value("batch_greeting() - Generate personalized greetings for multiple names"));
    let mut caps: Vec<Value> = Vec::new();
    caps.push(str_value("tools"));
    caps.push(str_value("stdio transport"));
    caps.push(str_value("http transport"));
    caps.push(str_value("sse transport"));
    let mut pairs: Vec<(String, Value)> = Vec::new();
    pairs.push((String::from_str("server"), str_value("Aurora OS MCP Demo Server")));
    pairs.push((String::from_str("version"), str_value("0.1.0")));
    pairs.push(
        (
            String::from_str("description"),
            str_value("A demonstration MCP server for Aurora OS integration"),
        ),
    );
    pairs.push((String::from_str("platform"), str_value("Aurora OS")));
    pairs.push((String::from_str("protocol_version"), str_value("2024-11-05")));
    let tv = arr_value(transports);
    proof {
        assert(tv.view()->Arr_0 =~~= spec_server_info()->Obj_0[5].1->Arr_0);
    }
    pairs.push((String::from_str("transports"), tv));
    let lv = arr_value(tools);
    proof {
        assert(lv.view()->Arr_0 =~~= spec_server_info()->Obj_0[6].1->Arr_0);
    }
    pairs.push((String::from_str("tools"), lv));
    let cv = arr_value(caps);
    proof {
        assert(cv.view()->Arr_0 =~~= spec_server_info()->Obj_0[7].1->Arr_0);
    }
    pairs.push((String::from_str("capabilities"), cv));
    let v = obj_value(pairs);
    proof {
        assert(obj_model(pairs@) =~~= spec_server_info()->Obj_0);
        assert(v.view() == spec_server_info());
    }
    v
}

/// Builds the health report for the supplied timestamp.
pub fn health_value(now: &String) -> (v: Value)
    ensures
        v.view() == spec_health(now@),
{
    let mut pairs: Vec<(String, Value)> = Vec::new();
    pairs.push((String::from_str("status"), str_value("healthy")));
    pairs.push((String::from_str("timestamp"), string_value(now)));
    pairs.push((String::from_str("server"), str_value("Aurora OS MCP Demo Server")));
    pairs.push((String::from_str("version"), str_value("0.1.0")));
    pairs.push((String::from_str("uptime_seconds"), int_value(0)));
    pairs.push((String::from_str("transport_mode"), str_value("multi-mode (stdio/http/sse)")));
    pairs.push((String::from_str("tools_available"), int_value(4)));
    let v = obj_value(pairs);
    proof {
        assert(obj_model(pairs@) =~~= spec_health(now@)->Obj_0);
        assert(v.view() == spec_health(now@));
    }
    v
}

/// The usage text handed to clients when a connection is initialized.
pub open spec fn spec_instructions() -> Seq<char> {
    "Aurora OS MCP Demo Server\n\nThis is a demonstration MCP (Model Context Protocol) server designed specifically for Aurora OS integration.\n\nAvailable Tools:\n• hello_world: Returns a greeting message from Aurora OS\n• get_server_info: Returns detailed server information\n• health_check: Returns server health status\n• batch_greeting: Generate personalized greetings for multiple names\n\nAvailable Transports:\n• stdio: Standard MCP communication mode\n• http: REST API mode with JSON-RPC endpoint\n• sse: Real-time Server-Sent Events mode\n\nThis server showcases basic MCP tool implementation using the Rust SDK and demonstrates how Aurora OS can integrate with AI assistants through the Model Context Protocol."@
}

/// The usage text handed to clients when a connection is initialized.
pub fn server_instructions() -> (r: String)
    ensures
        r@ == spec_instructions(),
{
    String::from_str(
        "Aurora OS MCP Demo Server\n\nThis is a demonstration MCP (Model Context Protocol) server designed specifically for Aurora OS integration.\n\nAvailable Tools:\n• hello_world: Returns a greeting message from Aurora OS\n• get_server_info: Returns detailed server information\n• health_check: Returns server health status\n• batch_greeting: Generate personalized greetings for multiple names\n\nAvailable Transports:\n• stdio: Standard MCP communication mode\n• http: REST API mode with JSON-RPC endpoint\n• sse: Real-time Server-Sent Events mode\n\nThis server showcases basic MCP tool implementation using the Rust SDK and demonstrates how Aurora OS can integrate with AI assistants through the Model Context Protocol.",
    )
}

/// The echo handler: the `text` argument, unchanged.
fn run_echo(args: &Vec<(String, Value)>) -> (r: Result<Value, String>)
    ensures
        handler_res_model(r) == spec_run_handler(HandlerKind::Echo, obj_model(args@), Seq::empty()),
{
    match obj_get(args, &String::from_str("text")) {
        Some(Value::Str(s)) => Ok(Value::Str(s.clone())),
        _ => Err(String::from_str("missing or invalid field 'text'")),
    }
}

/// The batch-greeting handler.
fn run_batch_greeting(args: &Vec<(String, Value)>) -> (r: Result<Value, String>)
    ensures
        handler_res_model(r) == spec_batch_greeting(obj_model(args@)),
{
    let ghost am = obj_model(args@);
    let names_vec: &Vec<Value> = match obj_get(args, &String::from_str("names")) {
        Some(Value::Arr(ns)) => ns,
        _ => {
            return Err(String::from_str("missing or invalid field 'names'"));
        },
    };
    let ghost vnames = spec_obj_get(am, "names"@)->Some_0->Arr_0;
    proof {
        assert(vnames =~= Seq::new(names_vec@.len(), |i: int| names_vec@[i].view()));
    }

    let prefix: String = match obj_get(args, &String::from_str("prefix")) {
        Some(Value::Str(p)) => p.clone(),
        _ => String::from_str("Hello"),
    };
    proof {
        assert(prefix@ == (match spec_obj_get(am, "prefix"@) {
            Some(VValue::Str(p)) => p,
            _ => "Hello"@,
        }));
    }
    let numbered: bool = match obj_get(args, &String::from_str("include_numbers")) {
        Some(Value::Bool(b)) => *b,
        _ => false,
    };
    proof {
        assert(numbered == (match spec_obj_get(am, "include_numbers"@) {
            Some(VValue::Bool(b)) => b,
            _ => false,
        }));
    }
    let as_json: bool = match obj_get(args, &String::from_str("as_json")) {
        Some(Value::Bool(b)) => *b,
        _ => false,
    };
    proof {
        assert(as_json == (match spec_obj_get(am, "as_json"@) {
            Some(VValue::Bool(b)) => b,
            _ => false,
        }));
    }

    let n = names_vec.len();
    if n == 0 {
        return Err(String::from_str("Error: At least one name must be provided"));
    }
    for i in 0..n
        invariant
            n == names_vec.len(),
            n > 0,
            am == obj_model(args@),
            vnames == spec_obj_get(am, "names"@)->Some_0->Arr_0,
            spec_obj_get(am, "names"@) matches Some(v) && v is Arr,
            vnames == Seq::new(names_vec@.len(), |k: int| names_vec@[k].view()),
            forall|k: int| 0 <= k < i ==> (#[trigger] vnames[k]) is Str,
    {
        match &names_vec[i] {
            Value::Str(_) => {},
            _ => {
                proof {
                    assert(!(vnames[i as int] is Str));
                    assert(!(forall|k: int|
                        0 <= k < vnames.len() ==> (#[trigger] vnames[k]) is Str));
                }
                return Err(String::from_str("Error: every name must be a string"));
            },
        }
    }
    if (n as u64) > 0x7fff_ffff_ffff_ffffu64 {
        return Err(String::from_str("Error: too many names"));
    }

    let ghost glines = Seq::new(
        vnames.len(),
        |i: int| spec_greet_line(i, prefix@, numbered, spec_get_str(vnames[i])),
    );
    let mut greets: Vec<String> = Vec::new();
    for i in 0..n
        invariant
            n == names_vec.len(),
            n <= 0x7fff_ffff_ffff_ffff,
            vnames == Seq::new(names_vec@.len(), |k: int| names_vec@[k].view()),
            forall|k: int| 0 <= k < n ==> (#[trigger] vnames[k]) is Str,
            glines == Seq::new(
                vnames.len(),
                |k: int| spec_greet_line(k, prefix@, numbered, spec_get_str(vnames[k])),
            ),
            greets@.len() == i,
            forall|k: int| 0 <= k < i ==> (#[trigger] greets@[k])@ == glines[k],
    {
        let mut g = String::new();
        if numbered {
            g.append(u64_to_string((i as u64) + 1).as_str());
            g.append(". ");
        }
        g.append(prefix.as_str());
        g.append(", ");
        match &names_vec[i] {
            Value::Str(s) => g.append(s.as_str()),
            _ => {
                proof {
                    assert(vnames[i as int] is Str);
                    assert(false);
                }
            },
        }
        g.append("!");
        proof {
            assert(g@ =~= glines[i as int]);
        }
        greets.push(g);
    }

    if as_json {
        let mut gvals: Vec<Value> = Vec::new();
        for i in 0..n
            invariant
                n == greets.len(),
                forall|k: int| 0 <= k < n ==> (#[trigger] greets@[k])@ == glines[k],
                gvals@.len() == i,
                forall|k: int|
                    0 <= k < i ==> (#[trigger] gvals@[k]).view() == VValue::Str(glines[k]),
        {
            gvals.push(Value::Str(greets[i].clone()));
        }
        let mut pairs: Vec<(String, Value)> = Vec::new();
        let ghost gm = Seq::new(glines.len(), |i: int| VValue::Str(glines[i]));
        let gv = arr_value(gvals);
        proof {
            assert(gv.view()->Arr_0 =~~= gm);
        }
        pairs.push((String::from_str("greetings"), gv));
        pairs.push((String::from_str("count"), int_value(n as i64)));
        pairs.push((String::from_str("prefix"), string_value(&prefix)));
        pairs.push((String::from_str("include_numbers"), bool_value(numbered)));
        let v = obj_value(pairs);
        proof {
            let expected = VValue::Obj(
                seq![
                    ("greetings"@, VValue::Arr(gm)),
                    ("count"@, VValue::Int(vnames.len() as int)),
                    ("prefix"@, VValue::Str(prefix@)),
                    ("include_numbers"@, VValue::Bool(numbered)),
                ],
            );
            assert(obj_model(pairs@) =~~= expected->Obj_0);
            assert(v.view() == expected);
            assert(spec_batch_greeting(am) =~~= Ok::<VValue, Seq<char>>(expected));
        }
        Ok(v)
    } else {
        let mut out = String::new();
        proof {
            assert(glines.take(0) =~= Seq::<Seq<char>>::empty());
        }
        for i in 0..n
            invariant
                n == greets.len(),
                glines.len() == n,
                forall|k: int| 0 <= k < n ==> (#[trigger] greets@[k])@ == glines[k],
                out@ == spec_join(glines.take(i as int), "\n"@),
        {
            if i > 0 {
                out.append("\n");
            }
            out.append(greets[i].as_str());
            proof {
                lemma_join_push(glines.take(i as int), "\n"@, glines[i as int]);
                assert(glines.take(i + 1) =~= glines.take(i as int).push(glines[i as int]));
                assert(out@ =~= spec_join(glines.take(i + 1), "\n"@));
            }
        }
        proof {
            assert(glines.take(n as int) =~= glines);
            assert(spec_batch_greeting(am) =~~= Ok::<VValue, Seq<char>>(
                VValue::Str(spec_join(glines, "\n"@)),
            ));
        }
        Ok(Value::Str(out))
    }
}

/// Runs handler `h` on `args`; the health handler stamps `now` into its
/// report.
pub fn run_handler(h: HandlerKind, args: &Vec<(String, Value)>, now: &String) -> (r: Result<
    Value,
    String,
>)
    ensures
        handler_res_model(r) == spec_run_handler(h, obj_model(args@), now@),
{
    match h {
        HandlerKind::Echo => run_echo(args),
        HandlerKind::HelloWorld => Ok(str_value("Hello, World! from Aurora OS MCP Server 🌟")),
        HandlerKind::UsaPresident => Ok(
            str_value("В 2025 году президентом США является Дональд Трамп или Агент Краснов"),
        ),
        HandlerKind::ServerInfo => Ok(server_info_value()),
        HandlerKind::HealthCheck => Ok(health_value(now)),
        HandlerKind::BatchGreeting => run_batch_greeting(args),
    }
}

/// What `invoke` returns: resolution, validation, and the handler's
/// result, each failure mapped to its structured kind.
pub open spec fn spec_invoke(
    tools: Seq<crate::registry::VToolSpec>,
    req: VRequest,
    now: Seq<char>,
) -> VResponse {
    match spec_find_tool(tools, req.tool) {
        None => spec_fail(req.id, ErrorKind::UnknownTool, "unknown tool '"@ + req.tool + "'"@),
        Some(t) => {
            let faults = spec_violations(t.schema, req.arguments);
            if faults.len() > 0 {
                spec_fail(
                    req.id,
                    ErrorKind::ValidationError,
                    "invalid arguments: "@ + spec_fault_list(faults),
                )
            } else {
                match spec_run_handler(t.handler, req.arguments, now) {
                    Ok(v) => VResponse { id: req.id, outcome: VOutcome::Success(v) },
                    Err(m) => spec_fail(req.id, ErrorKind::HandlerError, m),
                }
            }
        },
    }
}

/// Resolves, validates and runs `req` against `reg`. `now` is the
/// timestamp stamped into a health report.
pub fn invoke(reg: &Registry, req: Request, now: &String) -> (resp: Response)
    ensures
        resp.view() == spec_invoke(reg.view(), req.view(), now@),
{
    match reg.lookup(&req.tool) {
        None => {
            let mut msg = String::from_str("unknown tool '");
            msg.append(req.tool.as_str());
            msg.append("'");
            Response { id: req.id, outcome: Outcome::Failure(ErrorKind::UnknownTool, msg) }
        },
        Some(t) => {
            let handler = t.handler;
            let ghost vt = t.view();
            match validate(&t.schema, &req.arguments) {
                Err(faults) => {
                    let mut msg = String::from_str("invalid arguments: ");
                    msg.append(render_faults(&faults).as_str());
                    Response {
                        id: req.id,
                        outcome: Outcome::Failure(ErrorKind::ValidationError, msg),
                    }
                },
                Ok(()) => match run_handler(handler, &req.arguments, now) {
                    Ok(v) => Response { id: req.id, outcome: Outcome::Success(v) },
                    Err(m) => Response {
                        id: req.id,
                        outcome: Outcome::Failure(ErrorKind::HandlerError, m),
                    },
                },
            }
        },
    }
}

/// What `complete` returns: the deadline decision over a finished
/// handler's raw result and its elapsed wall-clock time.
pub open spec fn spec_complete(
    id: Seq<char>,
    timeout_ms: u64,
    elapsed_ms: u64,
    outcome: Result<VValue, Seq<char>>,
) -> VResponse {
    if elapsed_ms > timeout_ms {
        spec_fail(id, ErrorKind::Timeout, "handler exceeded the configured timeout"@)
    } else {
        match outcome {
            Ok(v) => VResponse { id, outcome: VOutcome::Success(v) },
            Err(m) => spec_fail(id, ErrorKind::HandlerError, m),
        }
    }
}

/// Wraps a finished handler run into a response: a handler that took
/// longer than the deadline yields a timeout failure and its result is
/// dropped; otherwise its result or fault is wrapped as in `invoke`.
pub fn complete(id: String, timeout_ms: u64, elapsed_ms: u64, outcome: Result<Value, String>) -> (
    resp: Response)
    ensures
        resp.view() == spec_complete(id@, timeout_ms, elapsed_ms, handler_res_model(outcome)),
{
    if elapsed_ms > timeout_ms {
        Response {
            id,
            outcome: Outcome::Failure(
                ErrorKind::Timeout,
                String::from_str("handler exceeded the configured timeout"),
            ),
        }
    } else {
        match outcome {
            Ok(v) => Response { id, outcome: Outcome::Success(v) },
            Err(m) => Response { id, outcome: Outcome::Failure(ErrorKind::HandlerError, m) },
        }
    }
}

} // verus!

