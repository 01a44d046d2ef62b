//! The canonical frame codec: renders values, requests and responses in
//! their transport-independent textual encoding, and wraps them into the
//! frames the streaming transports carry.
//!
//! The encoding is fixed by the spec functions here, character by
//! character: objects and arrays in element order, strings quoted with
//! the five escapes, integers in decimal.

use vstd::prelude::*;
use vstd::string::StrSliceExecFns;

use crate::dispatch::{spec_kind_name, kind_name, Outcome, Request, Response, VOutcome, VRequest, VResponse};
use crate::text::{spec_dec_digits, spec_int_digits, i64_to_string, u64_to_string};
use crate::value::{Value, VValue};

verus! {

/// The escape of one character inside a quoted string.
pub open spec fn spec_escape_char(c: char) -> Seq<char> {
    if c == '"' {
        seq!['\\', '"']
    } else if c == '\\' {
        seq!['\\', '\\']
    } else if c == '\n' {
        seq!['\\', 'n']
    } else if c == '\r' {
        seq!['\\', 'r']
    } else if c == '\t' {
        seq!['\\', 't']
    } else {
        seq![c]
    }
}

/// The escape of a whole string body.
pub open spec fn spec_escape(s: Seq<char>) -> Seq<char>
    decreases s.len(),
{
    if s.len() == 0 {
        Seq::empty()
    } else {
        spec_escape_char(s[0]) + spec_escape(s.drop_first())
    }
}

/// Escaping distributes over appending one character.
proof fn lemma_escape_push(s: Seq<char>, c: char)
    ensures
        spec_escape(s.push(c)) == spec_escape(s) + spec_escape_char(c),
    decreases s.len(),
{
    reveal_with_fuel(spec_escape, 2);
    if s.len() == 0 {
        assert(s.push(c)[0] == c);
        assert(s.push(c).drop_first() =~= Seq::<char>::empty());
        assert(spec_escape(s.push(c)) =~= spec_escape(s) + spec_escape_char(c));
    } else {
        lemma_escape_push(s.drop_first(), c);
        assert(s.push(c)[0] == s[0]);
        assert(s.push(c).drop_first() =~= s.drop_first().push(c));
        assert(spec_escape(s.push(c)) == spec_escape_char(s[0]) + spec_escape(
            s.drop_first().push(c),
        ));
        assert(spec_escape_char(s[0]) + (spec_escape(s.drop_first()) + spec_escape_char(c)) =~= (
        spec_escape_char(s[0]) + spec_escape(s.drop_first())) + spec_escape_char(c));
    }
}

/// A quoted, escaped string.
pub open spec fn spec_quote(s: Seq<char>) -> Seq<char> {
    seq!['"'] + spec_escape(s) + seq!['"']
}

/// The canonical encoding of a value.
pub open spec fn spec_encode_value(v: VValue) -> Seq<char>
    decreases v,
{
    match v {
        VValue::Null => "null"@,
        VValue::Bool(b) => if b {
            "true"@
        } else {
            "false"@
        },
        VValue::Int(i) => spec_int_digits(i),
        VValue::Str(s) => spec_quote(s),
        VValue::Arr(items) => seq!['['] + spec_encode_items(items) + seq![']'],
        VValue::Obj(pairs) => seq!['{'] + spec_encode_pairs(pairs) + seq!['}'],
    }
}

/// Array elements, comma-separated.
pub open spec fn spec_encode_items(items: Seq<VValue>) -> Seq<char>
    decreases items,
{
    if items.len() == 0 {
        Seq::empty()
    } else if items.len() == 1 {
        spec_encode_value(items[0])
    } else {
        spec_encode_value(items[0]) + seq![','] + spec_encode_items(items.drop_first())
    }
}

/// Object bindings, comma-separated, each a quoted key, a colon and the
/// value.
pub open spec fn spec_encode_pairs(pairs: Seq<(Seq<char>, VValue)>) -> Seq<char>
    decreases pairs,
{
    if pairs.len() == 0 {
        Seq::empty()
    } else if pairs.len() == 1 {
        spec_quote(pairs[0].0) + seq![':'] + spec_encode_value(pairs[0].1)
    } else {
        spec_quote(pairs[0].0) + seq![':'] + spec_encode_value(pairs[0].1) + seq![',']
            + spec_encode_pairs(pairs.drop_first())
    }
}

/// Encoding distributes over appending an element.
proof fn lemma_encode_items_push(items: Seq<VValue>, x: VValue)
    ensures
        spec_encode_items(items.push(x)) == if items.len() == 0 {
            spec_encode_value(x)
        } else {
            spec_encode_items(items) + seq![','] + spec_encode_value(x)
        },
    decreases items.len(),
{
    reveal_with_fuel(spec_encode_items, 2);
    if items.len() == 0 {
        assert(items.push(x)[0] == x);
        assert(spec_encode_items(items.push(x)) == spec_encode_value(x));
    } else if items.len() == 1 {
        assert(items.push(x)[0] == items[0]);
        assert(items.push(x).drop_first() =~= seq![x]);
        assert(spec_encode_items(seq![x]) == spec_encode_value(x));
        assert(spec_encode_items(items.push(x)) =~= spec_encode_items(items) + seq![',']
            + spec_encode_value(x));
    } else {
        lemma_encode_items_push(items.drop_first(), x);
        assert(items.push(x)[0] == items[0]);
        assert(items.push(x).drop_first() =~= items.drop_first().push(x));
        assert(spec_encode_items(items.push(x)) == spec_encode_value(items[0]) + seq![',']
            + spec_encode_items(items.drop_first().push(x)));
        assert(spec_encode_value(items[0]) + seq![','] + (spec_encode_items(items.drop_first())
            + seq![','] + spec_encode_value(x)) =~= (spec_encode_value(items[0]) + seq![',']
            + spec_encode_items(items.drop_first())) + seq![','] + spec_encode_value(x));
    }
}

/// Encoding distributes over appending a binding.
proof fn lemma_encode_pairs_push(pairs: Seq<(Seq<char>, VValue)>, p: (Seq<char>, VValue))
    ensures
        spec_encode_pairs(pairs.push(p)) == if pairs.len() == 0 {
            spec_quote(p.0) + seq![':'] + spec_encode_value(p.1)
        } else {
            spec_encode_pairs(pairs) + seq![','] + (spec_quote(p.0) + seq![':']
                + spec_encode_value(p.1))
        },
    decreases pairs.len(),
{
    reveal_with_fuel(spec_encode_pairs, 2);
    let enc = spec_quote(p.0) + seq![':'] + spec_encode_value(p.1);
    if pairs.len() == 0 {
        assert(pairs.push(p)[0] == p);
        assert(spec_encode_pairs(pairs.push(p)) =~= enc);
    } else if pairs.len() == 1 {
        assert(pairs.push(p)[0] == pairs[0]);
        assert(pairs.push(p).drop_first() =~= seq![p]);
        assert(spec_encode_pairs(seq![p]) =~= enc);
        assert(spec_encode_pairs(pairs.push(p)) =~= spec_encode_pairs(pairs) + seq![','] + enc);
    } else {
        lemma_encode_pairs_push(pairs.drop_first(), p);
        let head = spec_quote(pairs[0].0) + seq![':'] + spec_encode_value(pairs[0].1);
        assert(pairs.push(p)[0] == pairs[0]);
        assert(pairs.push(p).drop_first() =~= pairs.drop_first().push(p));
        assert(spec_encode_pairs(pairs.push(p)) == head + seq![','] + spec_encode_pairs(
            pairs.drop_first().push(p),
        ));
        assert(head + seq![','] + (spec_encode_pairs(pairs.drop_first()) + seq![','] + enc) =~= (
        head + seq![','] + spec_encode_pairs(pairs.drop_first())) + seq![','] + enc);
    }
}

/// Appends the characters of `s`.
fn push_chars(out: &mut Vec<char>, s: &str)
    ensures
        final(out)@ == old(out)@ + s@,
{
    let n = s.unicode_len();
    for i in 0..n
        invariant
            n == s@.len(),
            out@ == old(out)@ + s@.take(i as int),
    {
        out.push(s.get_char(i));
        proof {
            assert(s@.take(i + 1) =~= s@.take(i as int).push(s@[i as int]));
            assert(out@ =~= old(out)@ + s@.take(i + 1));
        }
    }
    proof {
        assert(s@.take(n as int) =~= s@);
        assert(out@ =~= old(out)@ + s@);
    }
}

/// Appends the escaped body of `s`.
fn push_escaped(out: &mut Vec<char>, s: &str)
    ensures
        final(out)@ == old(out)@ + spec_escape(s@),
{
    proof {
        assert(s@.take(0) =~= Seq::<char>::empty());
        assert(old(out)@ + spec_escape(s@.take(0)) =~= old(out)@);
    }
    let n = s.unicode_len();
    for i in 0..n
        invariant
            n == s@.len(),
            out@ == old(out)@ + spec_escape(s@.take(i as int)),
    {
        let c = s.get_char(i);
        if c == '"' {
            out.push('\\');
            out.push('"');
        } else if c == '\\' {
            out.push('\\');
            out.push('\\');
        } else if c == '\n' {
            out.push('\\');
            out.push('n');
        } else if c == '\r' {
            out.push('\\');
            out.push('r');
        } else if c == '\t' {
            out.push('\\');
            out.push('t');
        } else {
            out.push(c);
        }
        proof {
            lemma_escape_push(s@.take(i as int), s@[i as int]);
            assert(s@.take(i + 1) =~= s@.take(i as int).push(s@[i as int]));
            assert(out@ =~= old(out)@ + spec_escape(s@.take(i + 1)));
        }
    }
    proof {
        assert(s@.take(n as int) =~= s@);
    }
}

/// Appends `s` quoted and escaped.
fn push_quoted(out: &mut Vec<char>, s: &str)
    ensures
        final(out)@ == old(out)@ + spec_quote(s@),
{
    out.push('"');
    push_escaped(out, s);
    out.push('"');
    proof {
        assert(out@ =~= old(out)@ + spec_quote(s@));
    }
}

/// Appends the canonical encoding of `v`.
fn encode_value_into(out: &mut Vec<char>, v: &Value)
    ensures
        final(out)@ == old(out)@ + spec_encode_value(v.view()),
    decreases v,
{
    match v {
        Value::Null => push_chars(out, "null"),
        Value::Bool(b) => {
            if *b {
                push_chars(out, "true")
            } else {
                push_chars(out, "false")
            }
        },
        Value::Int(i) => {
            let num = i64_to_string(*i);
            push_chars(out, num.as_str());
        },
        Value::Str(s) => push_quoted(out, s.as_str()),
        Value::Arr(items) => {
            let ghost m = v.view()->Arr_0;
            proof {
                assert(m =~= Seq::new(items@.len(), |k: int| items@[k].view()));
            }
            out.push('[');
            let ghost base = out@;
            proof {
                assert(m.take(0) =~= Seq::<VValue>::empty());
                assert(out@ =~= base + spec_encode_items(m.take(0)));
            }
            let n = items.len();
            for i in 0..n
                invariant
                    *v is Arr,
                    (*v)->Arr_0@ == items@,
                    n == items.len(),
                    m == Seq::new(items@.len(), |k: int| items@[k].view()),
                    out@ == base + spec_encode_items(m.take(i as int)),
                decreases n - i,
            {
                if i > 0 {
                    out.push(',');
                }
                proof {
                    assert(*v is Arr);
                    assert(decreases_to!(*v => (*v)->Arr_0));
                    assert(decreases_to!((*v)->Arr_0 => (*v)->Arr_0@));
                    assert(decreases_to!((*v)->Arr_0@ => (*v)->Arr_0@[i as int]));
                    assert((*v)->Arr_0@[i as int] == items@[i as int]);
                }
                encode_value_into(out, &items[i]);
                proof {
                    lemma_encode_items_push(m.take(i as int), m[i as int]);
                    assert(m.take(i + 1) =~= m.take(i as int).push(m[i as int]));
                    assert(out@ =~= base + spec_encode_items(m.take(i + 1)));
                }
            }
            out.push(']');
            proof {
                assert(m.take(n as int) =~= m);
                assert(out@ =~= old(out)@ + spec_encode_value(v.view()));
            }
        },
        Value::Obj(pairs) => {
            let ghost m = v.view()->Obj_0;
            proof {
                assert(m =~= Seq::new(pairs@.len(), |k: int| (pairs@[k].0@, pairs@[k].1.view())));
            }
            out.push('{');
            let ghost base = out@;
            proof {
                assert(m.take(0) =~= Seq::<(Seq<char>, VValue)>::empty());
                assert(out@ =~= base + spec_encode_pairs(m.take(0)));
            }
            let n = pairs.len();
            for i in 0..n
                invariant
                    *v is Obj,
                    (*v)->Obj_0@ == pairs@,
                    n == pairs.len(),
                    m == Seq::new(pairs@.len(), |k: int| (pairs@[k].0@, pairs@[k].1.view())),
                    out@ == base + spec_encode_pairs(m.take(i as int)),
                decreases n - i,
            {
                if i > 0 {
                    out.push(',');
                }
                push_quoted(out, pairs[i].0.as_str());
                out.push(':');
                proof {
                    assert(*v is Obj);
                    assert(decreases_to!(*v => (*v)->Obj_0));
                    assert(decreases_to!((*v)->Obj_0 => (*v)->Obj_0@));
                    assert(decreases_to!((*v)->Obj_0@ => (*v)->Obj_0@[i as int]));
                    assert(decreases_to!((*v)->Obj_0@[i as int] => (*v)->Obj_0@[i as int].1));
                    assert((*v)->Obj_0@[i as int].1 == pairs@[i as int].1);
                }
                encode_value_into(out, &pairs[i].1);
                proof {
                    lemma_encode_pairs_push(m.take(i as int), m[i as int]);
                    assert(m.take(i + 1) =~= m.take(i as int).push(m[i as int]));
                    assert(out@ =~= base + spec_encode_pairs(m.take(i + 1)));
                }
            }
            out.push('}');
            proof {
                assert(m.take(n as int) =~= m);
                assert(out@ =~= old(out)@ + spec_encode_value(v.view()));
            }
        },
    }
}

/// Relies on `String`'s `FromIterator` over `char`: the collected string
/// holds exactly the pushed characters, in order.
#[verifier::external_body]
fn chars_to_string(cs: &Vec<char>) -> (r: String)
    ensures
        r@ == cs@,
{
    cs.iter().collect()
}

/// The canonical encoding of `v` as a string.
pub fn encode_value(v: &Value) -> (r: String)
    ensures
        r@ == spec_encode_value(v.view()),
{
    let mut out: Vec<char> = Vec::new();
    encode_value_into(&mut out, v);
    proof {
        assert(out@ =~= spec_encode_value(v.view()));
    }
    chars_to_string(&out)
}

/// The canonical encoding of a response: the id, the success flag, and
/// either the result value or the structured error object.
pub open spec fn spec_encode_response(r: VResponse) -> Seq<char> {
    "{\"id\":"@ + spec_quote(r.id) + (match r.outcome {
        VOutcome::Success(v) => ",\"ok\":true,\"result\":"@ + spec_encode_value(v),
        VOutcome::Failure(k, m) => ",\"ok\":false,\"error\":{\"kind\":"@ + spec_quote(
            spec_kind_name(k),
        ) + ",\"message\":"@ + spec_quote(m) + "}"@,
    }) + "}"@
}

/// Encodes `r` canonically.
pub fn encode_response(r: &Response) -> (s: String)
    ensures
        s@ == spec_encode_response(r.view()),
{
    let mut out: Vec<char> = Vec::new();
    push_chars(&mut out, "{\"id\":");
    push_quoted(&mut out, r.id.as_str());
    match &r.outcome {
        Outcome::Success(v) => {
            push_chars(&mut out, ",\"ok\":true,\"result\":");
            encode_value_into(&mut out, v);
        },
        Outcome::Failure(k, m) => {
            push_chars(&mut out, ",\"ok\":false,\"error\":{\"kind\":");
            push_quoted(&mut out, kind_name(*k));
            push_chars(&mut out, ",\"message\":");
            push_quoted(&mut out, m.as_str());
            push_chars(&mut out, "}");
        },
    }
    push_chars(&mut out, "}");
    proof {
        assert(out@ =~= spec_encode_response(r.view()));
    }
    chars_to_string(&out)
}

/// The canonical encoding of a request; a session identifier, when the
/// transport carries one, follows the argument object.
pub open spec fn spec_encode_request(q: VRequest) -> Seq<char> {
    "{\"id\":"@ + spec_quote(q.id) + ",\"tool\":"@ + spec_quote(q.tool) + ",\"arguments\":{"@
        + spec_encode_pairs(q.arguments) + "}"@ + (match q.session {
        Some(sid) => ",\"session\":"@ + spec_dec_digits(sid as nat),
        None => Seq::empty(),
    }) + "}"@
}

/// Encodes `q` canonically.
pub fn encode_request(q: &Request) -> (s: String)
    ensures
        s@ == spec_encode_request(q.view()),
{
    let mut out: Vec<char> = Vec::new();
    push_chars(&mut out, "{\"id\":");
    push_quoted(&mut out, q.id.as_str());
    push_chars(&mut out, ",\"tool\":");
    push_quoted(&mut out, q.tool.as_str());
    push_chars(&mut out, ",\"arguments\":{");
    let ghost m = q.view().arguments;
    proof {
        assert(m =~= Seq::new(
            q.arguments@.len(),
            |k: int| (q.arguments@[k].0@, q.arguments@[k].1.view()),
        ));
    }
    let ghost base = out@;
    proof {
        assert(m.take(0) =~= Seq::<(Seq<char>, VValue)>::empty());
        assert(out@ =~= base + spec_encode_pairs(m.take(0)));
    }
    let n = q.arguments.len();
    for i in 0..n
        invariant
            n == q.arguments.len(),
            m == Seq::new(q.arguments@.len(), |k: int| (q.arguments@[k].0@, q.arguments@[k].1.view())),
            out@ == base + spec_encode_pairs(m.take(i as int)),
    {
        if i > 0 {
            out.push(',');
        }
        push_quoted(&mut out, q.arguments[i].0.as_str());
        out.push(':');
        encode_value_into(&mut out, &q.arguments[i].1);
        proof {
            lemma_encode_pairs_push(m.take(i as int), m[i as int]);
            assert(m.take(i + 1) =~= m.take(i as int).push(m[i as int]));
            assert(out@ =~= base + spec_encode_pairs(m.take(i + 1)));
        }
    }
    push_chars(&mut out, "}");
    match q.session {
        Some(sid) => {
            push_chars(&mut out, ",\"session\":");
            let num = u64_to_string(sid);
            push_chars(&mut out, num.as_str());
        },
        None => {},
    }
    push_chars(&mut out, "}");
    proof {
        assert(m.take(n as int) =~= m);
        assert(out@ =~= spec_encode_request(q.view()));
    }
    chars_to_string(&out)
}

/// One line-delimited frame of the standard-stream transport.
pub fn stdio_frame(r: &Response) -> (s: String)
    ensures
        s@ == spec_encode_response(r.view()) + "\n"@,
{
    let mut out: Vec<char> = Vec::new();
    let body = encode_response(r);
    push_chars(&mut out, body.as_str());
    push_chars(&mut out, "\n");
    proof {
        assert(out@ =~= spec_encode_response(r.view()) + "\n"@);
    }
    chars_to_string(&out)
}

/// One event frame of the event-stream transport.
pub fn sse_frame(r: &Response) -> (s: String)
    ensures
        s@ == "data: "@ + spec_encode_response(r.view()) + "\n\n"@,
{
    let mut out: Vec<char> = Vec::new();
    push_chars(&mut out, "data: ");
    let body = encode_response(r);
    push_chars(&mut out, body.as_str());
    push_chars(&mut out, "\n\n");
    proof {
        assert(out@ =~= "data: "@ + spec_encode_response(r.view()) + "\n\n"@);
    }
    chars_to_string(&out)
}

} // verus!
