//! The tool registry: the set of invocable operations and their schemas.
//!
//! Registration happens once, at startup; after that the registry is only
//! read. A tool name is registered at most once: a duplicate registration
//! fails, and lookup resolves a name to the spec that was registered for it.

use vstd::prelude::*;
use vstd::string::StringExecFns;

use crate::value::FieldType;

verus! {

/// One declared input field of a tool.
#[derive(Debug)]
pub struct FieldSpec {
    pub name: String,
    pub ty: FieldType,
    pub required: bool,
}

/// The model of a `FieldSpec`.
#[verifier::ext_equal]
pub struct VFieldSpec {
    pub name: Seq<char>,
    pub ty: FieldType,
    pub required: bool,
}

impl FieldSpec {
    pub open spec fn view(self) -> VFieldSpec {
        VFieldSpec { name: self.name@, ty: self.ty, required: self.required }
    }
}

/// The structural description of a tool's accepted arguments.
#[derive(Debug)]
pub struct Schema {
    pub fields: Vec<FieldSpec>,
    /// Whether fields beyond the declared ones are accepted.
    pub allow_extra: bool,
}

/// The model of a `Schema`.
#[verifier::ext_equal]
pub struct VSchema {
    pub fields: Seq<VFieldSpec>,
    pub allow_extra: bool,
}

impl Schema {
    pub open spec fn view(self) -> VSchema {
        VSchema {
            fields: Seq::new(self.fields@.len(), |i: int| self.fields@[i].view()),
            allow_extra: self.allow_extra,
        }
    }
}

/// The behaviour of a registered tool. Handlers are pure: each is a
/// function of the validated arguments (and, for the health report, of a
/// timestamp the caller supplies).
#[derive(Debug, Clone, Copy, PartialEq, Eq, Structural)]
pub enum HandlerKind {
    /// Returns the `text` argument unchanged.
    Echo,
    /// Returns a fixed greeting line.
    HelloWorld,
    /// Returns a fixed line naming the current head of state.
    UsaPresident,
    /// Returns a structured description of the server.
    ServerInfo,
    /// Returns a health report carrying the supplied timestamp.
    HealthCheck,
    /// Formats one greeting per supplied name.
    BatchGreeting,
}

/// A named, schema-described callable operation.
#[derive(Debug)]
pub struct ToolSpec {
    pub name: String,
    pub schema: Schema,
    pub handler: HandlerKind,
}

/// The model of a `ToolSpec`.
#[verifier::ext_equal]
pub struct VToolSpec {
    pub name: Seq<char>,
    pub schema: VSchema,
    pub handler: HandlerKind,
}

impl ToolSpec {
    pub open spec fn view(self) -> VToolSpec {
        VToolSpec { name: self.name@, schema: self.schema.view(), handler: self.handler }
    }
}

/// First tool named `name`, if any.
pub open spec fn spec_find_tool(tools: Seq<VToolSpec>, name: Seq<char>) -> Option<VToolSpec>
    decreases tools.len(),
{
    if tools.len() == 0 {
        None
    } else if tools[0].name == name {
        Some(tools[0])
    } else {
        spec_find_tool(tools.drop_first(), name)
    }
}

/// Failure of a registration.
#[derive(Debug, PartialEq, Eq, Structural)]
pub enum RegistryError {
    DuplicateName,
}

/// The registry itself: tools in registration order.
#[derive(Debug)]
pub struct Registry {
    tools: Vec<ToolSpec>,
}

impl Registry {
    /// The model: the registered tools, in registration order.
    pub closed spec fn view(self) -> Seq<VToolSpec> {
        Seq::new(self.tools@.len(), |i: int| self.tools@[i].view())
    }

    /// No two registered tools share a name.
    pub open spec fn wf(self) -> bool {
        forall|i: int, j: int|
            0 <= i < j < self.view().len() ==> self.view()[i].name != self.view()[j].name
    }

    /// An empty registry.
    pub fn new() -> (r: Registry)
        ensures
            r.view() == Seq::<VToolSpec>::empty(),
            r.wf(),
    {
        let r = Registry { tools: Vec::new() };
        proof {
            assert(r.view() =~= Seq::<VToolSpec>::empty());
        }
        r
    }

    /// Adds `spec` unless its name is taken. Registration order is kept.
    pub fn register(&mut self, spec: ToolSpec) -> (r: Result<(), RegistryError>)
        ensures
            match r {
                Ok(()) => {
                    &&& spec_find_tool(old(self).view(), spec.view().name) is None
                    &&& final(self).view() == old(self).view().push(spec.view())
                },
                Err(RegistryError::DuplicateName) => {
                    &&& spec_find_tool(old(self).view(), spec.view().name) is Some
                    &&& *final(self) == *old(self)
                },
            },
            old(self).wf() ==> final(self).wf(),
    {
        let taken = self.contains_name(&spec.name);
        if taken {
            Err(RegistryError::DuplicateName)
        } else {
            proof {
                lemma_find_tool_none_no_match(self.view(), spec.view().name);
                assert(self.view().push(spec.view()) =~= Seq::new(
                    self.tools@.push(spec).len(),
                    |i: int| self.tools@.push(spec)[i].view(),
                ));
            }
            self.tools.push(spec);
            Ok(())
        }
    }

    /// Whether a tool named `name` is registered.
    pub fn contains_name(&self, name: &String) -> (r: bool)
        ensures
            r == (spec_find_tool(self.view(), name@) is Some),
    {
        match self.lookup(name) {
            Some(_) => true,
            None => false,
        }
    }

    /// The first (and, in a well-formed registry, only) tool named `name`.
    pub fn lookup<'a>(&'a self, name: &String) -> (r: Option<&'a ToolSpec>)
        ensures
            match r {
                Some(t) => spec_find_tool(self.view(), name@) == Some(t.view()),
                None => spec_find_tool(self.view(), name@) is None,
            },
    {
        let ghost m = self.view();
        proof {
            assert(m.skip(0) =~= m);
        }
        let n = self.tools.len();
        for i in 0..n
            invariant
                n == self.tools.len(),
                m == self.view(),
                spec_find_tool(m, name@) == spec_find_tool(m.skip(i as int), name@),
        {
            proof {
                assert(m.skip(i as int)[0] == m[i as int]);
                assert(m.skip(i as int).drop_first() =~= m.skip(i + 1));
            }
            if self.tools[i].name == *name {
                return Some(&self.tools[i]);
            }
        }
        proof {
            assert(m.skip(n as int).len() == 0);
        }
        None
    }

    /// All registered tools, in registration order, for introspection.
    pub fn list_all(&self) -> (r: &Vec<ToolSpec>)
        ensures
            r@.len() == self.view().len(),
            forall|i: int| 0 <= i < r@.len() ==> (#[trigger] r@[i].view()) == self.view()[i],
    {
        &self.tools
    }
}

/// When no tool in `tools` is named `name`, no entry carries that name.
proof fn lemma_find_tool_none_no_match(tools: Seq<VToolSpec>, name: Seq<char>)
    requires
        spec_find_tool(tools, name) is None,
    ensures
        forall|i: int| 0 <= i < tools.len() ==> (#[trigger] tools[i].name) != name,
    decreases tools.len(),
{
    if tools.len() > 0 {
        lemma_find_tool_none_no_match(tools.drop_first(), name);
        assert forall|i: int| 0 <= i < tools.len() implies (#[trigger] tools[i].name) != name by {
            if i > 0 {
                assert(tools.drop_first()[i - 1] == tools[i]);
            }
        }
    }
}

/// A name found by `spec_find_tool` is carried by some entry, and a name
/// carried by some entry is found.
pub proof fn lemma_find_tool_some_iff(tools: Seq<VToolSpec>, name: Seq<char>)
    ensures
        (spec_find_tool(tools, name) is Some) <==> (exists|i: int|
            0 <= i < tools.len() && (#[trigger] tools[i].name) == name),
    decreases tools.len(),
{
    if tools.len() > 0 {
        lemma_find_tool_some_iff(tools.drop_first(), name);
        if tools[0].name == name {
        } else if spec_find_tool(tools.drop_first(), name) is Some {
            let i = choose|i: int|
                0 <= i < tools.drop_first().len() && (#[trigger] tools.drop_first()[i].name)
                    == name;
            assert(tools[i + 1].name == name);
        } else {
            assert forall|i: int|
                0 <= i < tools.len() implies (#[trigger] tools[i].name) != name by {
                if i > 0 {
                    assert(tools.drop_first()[i - 1] == tools[i]);
                }
            }
        }
    }
}

/// The model of the schema that declares no fields and allows no extras.
pub open spec fn spec_empty_schema() -> VSchema {
    VSchema { fields: Seq::empty(), allow_extra: false }
}

/// A schema that declares no fields and allows no extras.
pub fn empty_schema() -> (s: Schema)
    ensures
        s.view() == spec_empty_schema(),
{
    let s = Schema { fields: Vec::new(), allow_extra: false };
    proof {
        assert(s.view().fields =~= Seq::<VFieldSpec>::empty());
        assert(s.view() =~~= spec_empty_schema());
    }
    s
}

/// The model of the echo tool: one required string field, `text`.
pub open spec fn spec_echo_tool() -> VToolSpec {
    VToolSpec {
        name: "echo"@,
        schema: VSchema {
            fields: seq![VFieldSpec { name: "text"@, ty: FieldType::Str, required: true }],
            allow_extra: false,
        },
        handler: HandlerKind::Echo,
    }
}

/// The echo tool: returns its required string field `text` unchanged.
pub fn echo_tool() -> (t: ToolSpec)
    ensures
        t.view() == spec_echo_tool(),
{
    let mut fields: Vec<FieldSpec> = Vec::new();
    fields.push(FieldSpec { name: String::from_str("text"), ty: FieldType::Str, required: true });
    let t = ToolSpec {
        name: String::from_str("echo"),
        schema: Schema { fields, allow_extra: false },
        handler: HandlerKind::Echo,
    };
    proof {
        assert(t.view().schema.fields =~~= spec_echo_tool().schema.fields);
        assert(t.view() =~~= spec_echo_tool());
    }
    t
}

/// The models of the built-in tools, in registration order.
pub open spec fn spec_default_tools() -> Seq<VToolSpec> {
    seq![
        VToolSpec {
            name: "hello_world"@,
            schema: spec_empty_schema(),
            handler: HandlerKind::HelloWorld,
        },
        VToolSpec {
            name: "get_usa_president"@,
            schema: spec_empty_schema(),
            handler: HandlerKind::UsaPresident,
        },
        VToolSpec {
            name: "get_server_info"@,
            schema: spec_empty_schema(),
            handler: HandlerKind::ServerInfo,
        },
        VToolSpec {
            name: "health_check"@,
            schema: spec_empty_schema(),
            handler: HandlerKind::HealthCheck,
        },
        VToolSpec {
            name: "batch_greeting"@,
            schema: VSchema {
                fields: seq![
                    VFieldSpec { name: "names"@, ty: FieldType::Arr, required: true },
                    VFieldSpec { name: "prefix"@, ty: FieldType::Str, required: false },
                    VFieldSpec { name: "include_numbers"@, ty: FieldType::Bool, required: false },
                    VFieldSpec { name: "as_json"@, ty: FieldType::Bool, required: false },
                ],
                allow_extra: false,
            },
            handler: HandlerKind::BatchGreeting,
        },
    ]
}

/// The registry of the built-in tools, in their fixed order.
pub fn default_registry() -> (r: Registry)
    ensures
        r.view() == spec_default_tools(),
        r.wf(),
{
    let mut tools: Vec<ToolSpec> = Vec::new();
    tools.push(
        ToolSpec {
            name: String::from_str("hello_world"),
            schema: empty_schema(),
            handler: HandlerKind::HelloWorld,
        },
    );
    tools.push(
        ToolSpec {
            name: String::from_str("get_usa_president"),
            schema: empty_schema(),
            handler: HandlerKind::UsaPresident,
        },
    );
    tools.push(
        ToolSpec {
            name: String::from_str("get_server_info"),
            schema: empty_schema(),
            handler: HandlerKind::ServerInfo,
        },
    );
    tools.push(
        ToolSpec {
            name: String::from_str("health_check"),
            schema: empty_schema(),
            handler: HandlerKind::HealthCheck,
        },
    );
    let mut bfields: Vec<FieldSpec> = Vec::new();
    bfields.push(FieldSpec { name: String::from_str("names"), ty: FieldType::Arr, required: true });
    bfields.push(
        FieldSpec { name: String::from_str("prefix"), ty: FieldType::Str, required: false },
    );
    bfields.push(
        FieldSpec { name: String::from_str("include_numbers"), ty: FieldType::Bool, required: false },
    );
    bfields.push(
        FieldSpec { name: String::from_str("as_json"), ty: FieldType::Bool, required: false },
    );
    let bschema = Schema { fields: bfields, allow_extra: false };
    proof {
        assert(bschema.view().fields =~~= spec_default_tools()[4].schema.fields);
    }
    tools.push(
        ToolSpec {
            name: String::from_str("batch_greeting"),
            schema: bschema,
            handler: HandlerKind::BatchGreeting,
        },
    );
    let r = Registry { tools };
    proof {
        assert(r.view() =~~= spec_default_tools());
        reveal_strlit("hello_world");
        reveal_strlit("get_usa_president");
        reveal_strlit("get_server_info");
        reveal_strlit("health_check");
        reveal_strlit("batch_greeting");
        assert("hello_world"@.len() == 11);
        assert("get_usa_president"@.len() == 17);
        assert("get_server_info"@.len() == 15);
        assert("health_check"@.len() == 12);
        assert("batch_greeting"@.len() == 14);
        assert forall|i: int, j: int|
            0 <= i < j < r.view().len() implies (#[trigger] r.view()[i]).name != (
        #[trigger] r.view()[j]).name by {
            assert(r.view()[i].name.len() != r.view()[j].name.len());
        }
        assert(r.wf());
    }
    r
}

/// The law of registration and lookup: after registering a fresh name, the
/// registry resolves that name to exactly the registered spec, and a second
/// registration of the same name is the duplicate case.
pub proof fn lemma_register_then_lookup(tools: Seq<VToolSpec>, t: VToolSpec)
    requires
        spec_find_tool(tools, t.name) is None,
    ensures
        spec_find_tool(tools.push(t), t.name) == Some(t),
    decreases tools.len(),
{
    if tools.len() == 0 {
        assert(tools.push(t)[0] == t);
    } else {
        lemma_register_then_lookup(tools.drop_first(), t);
        assert(tools.push(t)[0] == tools[0]);
        assert(tools.push(t).drop_first() =~= tools.drop_first().push(t));
    }
}

} // verus!
