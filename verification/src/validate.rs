//! The request validator: checks an argument object against a tool's schema.
//!
//! Validation reports every violated field, not only the first: a missing
//! required field, a present field of the wrong runtime type, and — unless
//! the schema allows extension fields — a field the schema does not
//! declare. A call with an empty fault list is valid; the arguments are
//! read only, never transformed, so a successful validation hands the
//! caller the argument values unchanged.

use vstd::prelude::*;
use vstd::string::StringExecFns;

use crate::registry::{Schema, VFieldSpec, VSchema};
use crate::text::{lemma_join_push, spec_join};
use crate::value::{obj_get, obj_model, spec_has_type, spec_obj_get, Value, VValue};

verus! {

/// How a field violates the schema.
#[derive(Debug, Clone, Copy, PartialEq, Eq, Structural)]
pub enum FaultKind {
    /// A required field is absent.
    Missing,
    /// A present field has a runtime type other than the declared one.
    WrongType,
    /// A present field is not declared and the schema allows no extras.
    Unexpected,
}

/// One violated field.
#[derive(Debug)]
pub struct FieldFault {
    pub field: String,
    pub kind: FaultKind,
}

/// The model of a `FieldFault`.
pub struct VFieldFault {
    pub field: Seq<char>,
    pub kind: FaultKind,
}

impl FieldFault {
    pub open spec fn view(self) -> VFieldFault {
        VFieldFault { field: self.field@, kind: self.kind }
    }
}

/// The model of a list of faults.
pub open spec fn faults_model(s: Seq<FieldFault>) -> Seq<VFieldFault> {
    Seq::new(s.len(), |i: int| s[i].view())
}

/// The fault, if any, that declared field `f` raises against `args`.
pub open spec fn spec_field_fault(args: Seq<(Seq<char>, VValue)>, f: VFieldSpec) -> Option<
    VFieldFault,
> {
    match spec_obj_get(args, f.name) {
        Option::None => if f.required {
            Some(VFieldFault { field: f.name, kind: FaultKind::Missing })
        } else {
            None
        },
        Option::Some(v) => if spec_has_type(v, f.ty) {
            None
        } else {
            Some(VFieldFault { field: f.name, kind: FaultKind::WrongType })
        },
    }
}

/// An optional fault as a sequence of zero or one faults.
pub open spec fn opt_fault_seq(o: Option<VFieldFault>) -> Seq<VFieldFault> {
    match o {
        Some(f) => seq![f],
        None => Seq::empty(),
    }
}

/// The faults the declared fields raise, in declaration order.
pub open spec fn spec_schema_faults(
    fields: Seq<VFieldSpec>,
    args: Seq<(Seq<char>, VValue)>,
) -> Seq<VFieldFault>
    decreases fields.len(),
{
    if fields.len() == 0 {
        Seq::empty()
    } else {
        opt_fault_seq(spec_field_fault(args, fields[0])) + spec_schema_faults(
            fields.drop_first(),
            args,
        )
    }
}

/// Whether some declared field is named `name`.
pub open spec fn spec_declared(fields: Seq<VFieldSpec>, name: Seq<char>) -> bool {
    exists|i: int| 0 <= i < fields.len() && (#[trigger] fields[i].name) == name
}

/// The faults that undeclared argument fields raise, in argument order.
pub open spec fn spec_extra_faults(
    fields: Seq<VFieldSpec>,
    args: Seq<(Seq<char>, VValue)>,
) -> Seq<VFieldFault>
    decreases args.len(),
{
    if args.len() == 0 {
        Seq::empty()
    } else {
        (if spec_declared(fields, args[0].0) {
            Seq::empty()
        } else {
            seq![VFieldFault { field: args[0].0, kind: FaultKind::Unexpected }]
        }) + spec_extra_faults(fields, args.drop_first())
    }
}

/// Every fault `args` raises against schema `s`, in a fixed order:
/// declared-field faults first, then undeclared-field faults.
pub open spec fn spec_violations(s: VSchema, args: Seq<(Seq<char>, VValue)>) -> Seq<VFieldFault> {
    spec_schema_faults(s.fields, args) + if s.allow_extra {
        Seq::empty()
    } else {
        spec_extra_faults(s.fields, args)
    }
}

/// Whether `args` satisfies schema `s`: every declared field is satisfied
/// and, unless extras are allowed, every argument field is declared.
pub open spec fn spec_conforms(s: VSchema, args: Seq<(Seq<char>, VValue)>) -> bool {
    &&& forall|i: int|
        0 <= i < s.fields.len() ==> spec_field_fault(args, #[trigger] s.fields[i]) is None
    &&& (s.allow_extra || forall|j: int|
        0 <= j < args.len() ==> spec_declared(s.fields, (#[trigger] args[j]).0))
}

/// Appending a declared field appends its fault, if any.
proof fn lemma_schema_faults_push(
    fields: Seq<VFieldSpec>,
    f: VFieldSpec,
    args: Seq<(Seq<char>, VValue)>,
)
    ensures
        spec_schema_faults(fields.push(f), args) == spec_schema_faults(fields, args)
            + opt_fault_seq(spec_field_fault(args, f)),
    decreases fields.len(),
{
    if fields.len() == 0 {
        reveal_with_fuel(spec_schema_faults, 2);
        assert(fields.push(f)[0] == f);
        assert(fields.push(f).drop_first() =~= Seq::<VFieldSpec>::empty());
        assert(spec_schema_faults(fields.push(f), args) =~= spec_schema_faults(fields, args)
            + opt_fault_seq(spec_field_fault(args, f)));
    } else {
        lemma_schema_faults_push(fields.drop_first(), f, args);
        let head = opt_fault_seq(spec_field_fault(args, fields[0]));
        let tail = spec_schema_faults(fields.drop_first(), args);
        let last = opt_fault_seq(spec_field_fault(args, f));
        assert(fields.push(f)[0] == fields[0]);
        assert(fields.push(f).drop_first() =~= fields.drop_first().push(f));
        assert(spec_schema_faults(fields.push(f), args) == head + spec_schema_faults(
            fields.drop_first().push(f),
            args,
        ));
        assert(spec_schema_faults(fields, args) == head + tail);
        assert(head + (tail + last) =~= (head + tail) + last);
    }
}

/// Appending an argument field appends its undeclared-field fault, if any.
proof fn lemma_extra_faults_push(
    fields: Seq<VFieldSpec>,
    args: Seq<(Seq<char>, VValue)>,
    p: (Seq<char>, VValue),
)
    ensures
        spec_extra_faults(fields, args.push(p)) == spec_extra_faults(fields, args) + (if
        spec_declared(fields, p.0) {
            Seq::<VFieldFault>::empty()
        } else {
            seq![VFieldFault { field: p.0, kind: FaultKind::Unexpected }]
        }),
    decreases args.len(),
{
    if args.len() == 0 {
        reveal_with_fuel(spec_extra_faults, 2);
        assert(args.push(p)[0] == p);
        assert(args.push(p).drop_first() =~= Seq::<(Seq<char>, VValue)>::empty());
        assert(spec_extra_faults(fields, args.push(p)) =~= spec_extra_faults(fields, args) + (if
        spec_declared(fields, p.0) {
            Seq::<VFieldFault>::empty()
        } else {
            seq![VFieldFault { field: p.0, kind: FaultKind::Unexpected }]
        }));
    } else {
        lemma_extra_faults_push(fields, args.drop_first(), p);
        let head = if spec_declared(fields, args[0].0) {
            Seq::<VFieldFault>::empty()
        } else {
            seq![VFieldFault { field: args[0].0, kind: FaultKind::Unexpected }]
        };
        let tail = spec_extra_faults(fields, args.drop_first());
        let last = if spec_declared(fields, p.0) {
            Seq::<VFieldFault>::empty()
        } else {
            seq![VFieldFault { field: p.0, kind: FaultKind::Unexpected }]
        };
        assert(args.push(p)[0] == args[0]);
        assert(args.push(p).drop_first() =~= args.drop_first().push(p));
        assert(spec_extra_faults(fields, args.push(p)) == head + spec_extra_faults(
            fields,
            args.drop_first().push(p),
        ));
        assert(spec_extra_faults(fields, args) == head + tail);
        assert(head + (tail + last) =~= (head + tail) + last);
    }
}

/// Whether some field declared by `schema` is named `name`.
fn is_declared(schema: &Schema, name: &String) -> (r: bool)
    ensures
        r == spec_declared(schema.view().fields, name@),
{
    let ghost m = schema.view().fields;
    let n = schema.fields.len();
    for i in 0..n
        invariant
            n == schema.fields.len(),
            m == schema.view().fields,
            forall|j: int| 0 <= j < i ==> (#[trigger] m[j].name) != name@,
    {
        if schema.fields[i].name == *name {
            proof {
                assert(m[i as int].name == name@);
            }
            return true;
        }
    }
    false
}

/// Checks `args` against `schema`. On success the arguments are valid as
/// given; on failure the returned list names every violated field, in the
/// order `spec_violations` fixes.
pub fn validate(schema: &Schema, args: &Vec<(String, Value)>) -> (r: Result<(), Vec<FieldFault>>)
    ensures
        match r {
            Ok(()) => spec_violations(schema.view(), obj_model(args@)).len() == 0,
            Err(faults) => {
                &&& faults_model(faults@) == spec_violations(schema.view(), obj_model(args@))
                &&& faults@.len() > 0
            },
        },
{
    let ghost vs = schema.view();
    let ghost va = obj_model(args@);
    let mut faults: Vec<FieldFault> = Vec::new();

    proof {
        assert(vs.fields.take(0) =~= Seq::<VFieldSpec>::empty());
        assert(faults_model(faults@) =~= spec_schema_faults(vs.fields.take(0), va));
    }
    let nf = schema.fields.len();
    for i in 0..nf
        invariant
            nf == schema.fields.len(),
            vs == schema.view(),
            va == obj_model(args@),
            faults_model(faults@) == spec_schema_faults(vs.fields.take(i as int), va),
    {
        let f = &schema.fields[i];
        proof {
            assert(vs.fields[i as int] == f.view());
        }
        match obj_get(args, &f.name) {
            None => {
                if f.required {
                    faults.push(FieldFault { field: f.name.clone(), kind: FaultKind::Missing });
                }
            },
            Some(v) => {
                if !v.has_type(f.ty) {
                    faults.push(FieldFault { field: f.name.clone(), kind: FaultKind::WrongType });
                }
            },
        }
        proof {
            lemma_schema_faults_push(vs.fields.take(i as int), vs.fields[i as int], va);
            assert(vs.fields.take(i + 1) =~= vs.fields.take(i as int).push(vs.fields[i as int]));
            assert(faults_model(faults@) =~= spec_schema_faults(vs.fields.take(i + 1), va));
        }
    }
    proof {
        assert(vs.fields.take(nf as int) =~= vs.fields);
    }

    if !schema.allow_extra {
        let ghost base = spec_schema_faults(vs.fields, va);
        proof {
            assert(va.take(0) =~= Seq::<(Seq<char>, VValue)>::empty());
            assert(faults_model(faults@) =~= base + spec_extra_faults(vs.fields, va.take(0)));
        }
        let na = args.len();
        for j in 0..na
            invariant
                na == args.len(),
                vs == schema.view(),
                va == obj_model(args@),
                base == spec_schema_faults(vs.fields, va),
                faults_model(faults@) == base + spec_extra_faults(vs.fields, va.take(j as int)),
        {
            let ghost pre = faults@;
            let declared = is_declared(schema, &args[j].0);
            proof {
                assert(va[j as int].0 == args@[j as int].0@);
            }
            if !declared {
                faults.push(
                    FieldFault { field: args[j].0.clone(), kind: FaultKind::Unexpected },
                );
                proof {
                    assert(faults_model(faults@) =~= faults_model(pre).push(
                        VFieldFault { field: va[j as int].0, kind: FaultKind::Unexpected },
                    ));
                }
            }
            proof {
                lemma_extra_faults_push(vs.fields, va.take(j as int), va[j as int]);
                assert(va.take(j + 1) =~= va.take(j as int).push(va[j as int]));
                assert(faults_model(faults@) =~= base + spec_extra_faults(
                    vs.fields,
                    va.take(j + 1),
                ));
            }
        }
        proof {
            assert(va.take(na as int) =~= va);
        }
    }

    proof {
        if vs.allow_extra {
            assert(spec_violations(vs, va) =~= spec_schema_faults(vs.fields, va));
        }
    }
    if faults.len() == 0 {
        Ok(())
    } else {
        Err(faults)
    }
}

/// The diagnostic line for one fault, quoting the field's name.
pub open spec fn spec_fault_text(f: VFieldFault) -> Seq<char> {
    (match f.kind {
        FaultKind::Missing => "missing required field '"@,
        FaultKind::WrongType => "wrong type for field '"@,
        FaultKind::Unexpected => "unexpected field '"@,
    }) + f.field + "'"@
}

/// The diagnostic lines of all faults, joined by `"; "`.
pub open spec fn spec_fault_list(fs: Seq<VFieldFault>) -> Seq<char> {
    spec_join(Seq::new(fs.len(), |i: int| spec_fault_text(fs[i])), "; "@)
}

/// Renders the diagnostic lines of `faults`, joined by `"; "`.
pub fn render_faults(faults: &Vec<FieldFault>) -> (r: String)
    ensures
        r@ == spec_fault_list(faults_model(faults@)),
{
    let ghost texts = Seq::new(faults@.len(), |i: int| spec_fault_text(faults@[i].view()));
    let mut out = String::new();
    proof {
        assert(texts.take(0) =~= Seq::<Seq<char>>::empty());
    }
    let n = faults.len();
    for i in 0..n
        invariant
            n == faults.len(),
            texts == Seq::new(faults@.len(), |k: int| spec_fault_text(faults@[k].view())),
            out@ == spec_join(texts.take(i as int), "; "@),
    {
        if i > 0 {
            out.append("; ");
        }
        match faults[i].kind {
            FaultKind::Missing => out.append("missing required field '"),
            FaultKind::WrongType => out.append("wrong type for field '"),
            FaultKind::Unexpected => out.append("unexpected field '"),
        }
        out.append(faults[i].field.as_str());
        out.append("'");
        proof {
            lemma_join_push(texts.take(i as int), "; "@, texts[i as int]);
            assert(texts.take(i + 1) =~= texts.take(i as int).push(texts[i as int]));
            assert(out@ =~= spec_join(texts.take(i + 1), "; "@));
        }
    }
    proof {
        assert(texts.take(n as int) =~= texts);
        assert(texts =~= Seq::new(
            faults_model(faults@).len(),
            |i: int| spec_fault_text(faults_model(faults@)[i]),
        ));
    }
    out
}

/// The law of complete diagnostics: a declared field that raises a fault
/// is named, with its fault kind, in the violation list, and the list is
/// then not empty — so validation fails and reports that exact field.
pub proof fn lemma_violation_names_field(
    s: VSchema,
    args: Seq<(Seq<char>, VValue)>,
    i: int,
    ff: VFieldFault,
)
    requires
        0 <= i < s.fields.len(),
        spec_field_fault(args, s.fields[i]) == Some(ff),
    ensures
        spec_violations(s, args).contains(ff),
        spec_violations(s, args).len() > 0,
{
    lemma_schema_faults_contains(s.fields, args, i, ff);
    let k = choose|k: int|
        0 <= k < spec_schema_faults(s.fields, args).len() && spec_schema_faults(s.fields, args)[k]
            == ff;
    assert(spec_violations(s, args)[k] == ff);
}

/// A declared field's fault appears in the declared-field fault list.
proof fn lemma_schema_faults_contains(
    fields: Seq<VFieldSpec>,
    args: Seq<(Seq<char>, VValue)>,
    i: int,
    ff: VFieldFault,
)
    requires
        0 <= i < fields.len(),
        spec_field_fault(args, fields[i]) == Some(ff),
    ensures
        spec_schema_faults(fields, args).contains(ff),
    decreases fields.len(),
{
    if i == 0 {
        assert(spec_schema_faults(fields, args)[0] == ff);
    } else {
        lemma_schema_faults_contains(fields.drop_first(), args, i - 1, ff);
        let k = choose|k: int|
            0 <= k < spec_schema_faults(fields.drop_first(), args).len() && spec_schema_faults(
                fields.drop_first(),
                args,
            )[k] == ff;
        let head = opt_fault_seq(spec_field_fault(args, fields[0]));
        assert(spec_schema_faults(fields, args)[head.len() + k] == ff);
    }
}

/// The law of acceptance: the violation list is empty exactly when the
/// arguments satisfy the schema — so validation succeeds on exactly the
/// conforming argument objects, and hands their values back unchanged.
pub proof fn lemma_conforms_iff_no_violations(s: VSchema, args: Seq<(Seq<char>, VValue)>)
    ensures
        spec_conforms(s, args) <==> spec_violations(s, args).len() == 0,
{
    lemma_schema_faults_empty(s.fields, args);
    lemma_extra_faults_empty(s.fields, args);
}

/// The declared-field fault list is empty exactly when every declared
/// field is satisfied.
proof fn lemma_schema_faults_empty(fields: Seq<VFieldSpec>, args: Seq<(Seq<char>, VValue)>)
    ensures
        (spec_schema_faults(fields, args).len() == 0) <==> (forall|i: int|
            0 <= i < fields.len() ==> spec_field_fault(args, #[trigger] fields[i]) is None),
    decreases fields.len(),
{
    if fields.len() > 0 {
        lemma_schema_faults_empty(fields.drop_first(), args);
        if spec_schema_faults(fields, args).len() == 0 {
            assert forall|i: int|
                0 <= i < fields.len() implies spec_field_fault(
                args,
                #[trigger] fields[i],
            ) is None by {
                if i > 0 {
                    assert(fields.drop_first()[i - 1] == fields[i]);
                }
            }
        } else {
            if spec_field_fault(args, fields[0]) is None {
                let j = choose|j: int|
                    0 <= j < fields.drop_first().len() && !(spec_field_fault(
                        args,
                        #[trigger] fields.drop_first()[j],
                    ) is None);
                assert(fields[j + 1] == fields.drop_first()[j]);
            }
        }
    }
}

/// The undeclared-field fault list is empty exactly when every argument
/// field is declared.
proof fn lemma_extra_faults_empty(fields: Seq<VFieldSpec>, args: Seq<(Seq<char>, VValue)>)
    ensures
        (spec_extra_faults(fields, args).len() == 0) <==> (forall|j: int|
            0 <= j < args.len() ==> spec_declared(fields, (#[trigger] args[j]).0)),
    decreases args.len(),
{
    if args.len() > 0 {
        lemma_extra_faults_empty(fields, args.drop_first());
        if spec_extra_faults(fields, args).len() == 0 {
            assert forall|j: int|
                0 <= j < args.len() implies spec_declared(fields, (#[trigger] args[j]).0) by {
                if j > 0 {
                    assert(args.drop_first()[j - 1] == args[j]);
                }
            }
        } else {
            if spec_declared(fields, args[0].0) {
                let j = choose|j: int|
                    0 <= j < args.drop_first().len() && !spec_declared(
                        fields,
                        (#[trigger] args.drop_first()[j]).0,
                    );
                assert(args[j + 1] == args.drop_first()[j]);
            }
        }
    }
}

} // verus!
