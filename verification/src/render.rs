//! Rendering of values and constraints as short strings.
use vstd::prelude::*;

use crate::cst::{Constraint, OidComponent, Value, ValueBound};
use crate::diagnostics::Spanned;
use crate::ir::IrConstraint;
use crate::text::{append_int, signed_decimal};

verus! {

/// One arc of an object identifier value: `name(n)`, `name`, `n` or `?`.
pub open spec fn oid_part_text(p: OidComponent) -> Seq<char> {
    match (p.name, p.value) {
        (Some(n), Some(v)) => n.value@ + "("@ + signed_decimal(v as int) + ")"@,
        (Some(n), None) => n.value@,
        (None, Some(v)) => signed_decimal(v as int),
        (None, None) => "?"@,
    }
}

/// The arcs of an object identifier value joined by single spaces.
pub open spec fn oid_parts_text(parts: Seq<OidComponent>) -> Seq<char>
    decreases parts.len(),
{
    if parts.len() == 0 {
        Seq::empty()
    } else if parts.len() == 1 {
        oid_part_text(parts[0])
    } else {
        oid_parts_text(parts.drop_last()) + " "@ + oid_part_text(parts.last())
    }
}

/// A value rendered as ASN.1-like text: literals as written, references by
/// name, `{ ... }` for object identifiers, SEQUENCE and SEQUENCE OF values,
/// and `name : value` for CHOICE values.
pub open spec fn value_text(v: Value) -> Seq<char>
    decreases v,
{
    match v {
        Value::Boolean(b) => if b {
            "true"@
        } else {
            "false"@
        },
        Value::Null => "NULL"@,
        Value::Integer(n) => signed_decimal(n as int),
        Value::Real(r) => r@,
        Value::String(s) => "\""@ + s@ + "\""@,
        Value::BString(s) => "'"@ + s@ + "'B"@,
        Value::HString(s) => "'"@ + s@ + "'H"@,
        Value::NamedNumber(n) => n.value@,
        Value::Reference(n) => n.value@,
        Value::Oid(parts) => "{ "@ + oid_parts_text(parts@) + " }"@,
        Value::Sequence(fields) => "{ "@ + fields_text(fields@) + " }"@,
        Value::SequenceOf(items) => "{ "@ + items_text(items@) + " }"@,
        Value::Choice(name, inner) => name.value@ + " : "@ + value_text(*inner),
    }
}

/// Values rendered and joined by `, `.
pub open spec fn items_text(items: Seq<Value>) -> Seq<char>
    decreases items,
{
    if items.len() == 0 {
        Seq::empty()
    } else if items.len() == 1 {
        value_text(items[0])
    } else {
        items_text(items.subrange(0, items.len() - 1)) + ", "@ + value_text(items[items.len() - 1])
    }
}

/// `name value` pairs joined by `, `.
pub open spec fn fields_text(fields: Seq<(Spanned<String>, Value)>) -> Seq<char>
    decreases fields,
{
    if fields.len() == 0 {
        Seq::empty()
    } else if fields.len() == 1 {
        fields[0].0.value@ + " "@ + value_text(fields[0].1)
    } else {
        fields_text(fields.subrange(0, fields.len() - 1)) + ", "@ + fields[fields.len() - 1].0.value@
            + " "@ + value_text(fields[fields.len() - 1].1)
    }
}

fn append_oid_part(out: &mut String, p: &OidComponent)
    ensures
        final(out)@ == old(out)@ + oid_part_text(*p),
{
    match (&p.name, p.value) {
        (Some(n), Some(v)) => {
            out.append(n.value.as_str());
            out.append("(");
            append_int(out, v as i128);
            out.append(")");
        },
        (Some(n), None) => {
            out.append(n.value.as_str());
        },
        (None, Some(v)) => {
            append_int(out, v as i128);
        },
        (None, None) => {
            out.append("?");
        },
    }
    proof {
        assert(final(out)@ =~= old(out)@ + oid_part_text(*p));
    }
}

/// Append the rendering of `v` to `out`.
pub fn append_value(out: &mut String, v: &Value)
    ensures
        final(out)@ == old(out)@ + value_text(*v),
    decreases v,
{
    let ghost start = out@;
    match v {
        Value::Boolean(b) => {
            if *b {
                out.append("true");
            } else {
                out.append("false");
            }
        },
        Value::Null => {
            out.append("NULL");
        },
        Value::Integer(n) => {
            append_int(out, *n);
        },
        Value::Real(r) => {
            out.append(r.as_str());
        },
        Value::String(s) => {
            out.append("\"");
            out.append(s.as_str());
            out.append("\"");
        },
        Value::BString(s) => {
            out.append("'");
            out.append(s.as_str());
            out.append("'B");
        },
        Value::HString(s) => {
            out.append("'");
            out.append(s.as_str());
            out.append("'H");
        },
        Value::NamedNumber(n) => {
            out.append(n.value.as_str());
        },
        Value::Reference(n) => {
            out.append(n.value.as_str());
        },
        Value::Oid(parts) => {
            out.append("{ ");
            let ghost after_open = out@;
            let mut i: usize = 0;
            while i < parts.len()
                invariant
                    i <= parts@.len(),
                    out@ == after_open + oid_parts_text(parts@.take(i as int)),
                decreases parts@.len() - i,
            {
                proof {
                    assert(parts@.take(i + 1).drop_last() =~= parts@.take(i as int));
                }
                if i > 0 {
                    out.append(" ");
                }
                append_oid_part(out, &parts[i]);
                proof {
                    let t = parts@.take(i + 1);
                    assert(t.last() == parts@[i as int]);
                    if i == 0 {
                        assert(oid_parts_text(parts@.take(0)) =~= Seq::<char>::empty());
                    }
                }
                i = i + 1;
            }
            proof {
                assert(parts@.take(parts@.len() as int) =~= parts@);
            }
            out.append(" }");
        },
        Value::Sequence(fields) => {
            out.append("{ ");
            let ghost after_open = out@;
            let mut i: usize = 0;
            while i < fields.len()
                invariant
                    i <= fields@.len(),
                    out@ == after_open + fields_text(fields@.take(i as int)),
                    *v == Value::Sequence(*fields),
                decreases fields@.len() - i,
            {
                proof {
                    assert(fields@.take(i + 1).subrange(0, i as int) =~= fields@.take(i as int));
                    assert(decreases_to!(*v => (*v)->Sequence_0));
                    assert(decreases_to!((*v)->Sequence_0 => fields@));
                    assert(decreases_to!(fields@ => fields@[i as int]));
                    assert(decreases_to!(fields@[i as int] => fields@[i as int].1));
                }
                if i > 0 {
                    out.append(", ");
                }
                out.append(fields[i].0.value.as_str());
                out.append(" ");
                append_value(out, &fields[i].1);
                proof {
                    let t = fields@.take(i + 1);
                    assert(t[t.len() - 1] == fields@[i as int]);
                    if i == 0 {
                        assert(fields_text(fields@.take(0)) =~= Seq::<char>::empty());
                    }
                }
                i = i + 1;
            }
            proof {
                assert(fields@.take(fields@.len() as int) =~= fields@);
            }
            out.append(" }");
        },
        Value::SequenceOf(items) => {
            out.append("{ ");
            let ghost after_open = out@;
            let mut i: usize = 0;
            while i < items.len()
                invariant
                    i <= items@.len(),
                    out@ == after_open + items_text(items@.take(i as int)),
                    *v == Value::SequenceOf(*items),
                decreases items@.len() - i,
            {
                proof {
                    assert(items@.take(i + 1).subrange(0, i as int) =~= items@.take(i as int));
                    assert(decreases_to!(*v => (*v)->SequenceOf_0));
                    assert(decreases_to!((*v)->SequenceOf_0 => items@));
                    assert(decreases_to!(items@ => items@[i as int]));
                }
                if i > 0 {
                    out.append(", ");
                }
                append_value(out, &items[i]);
                proof {
                    let t = items@.take(i + 1);
                    assert(t[t.len() - 1] == items@[i as int]);
                    if i == 0 {
                        assert(items_text(items@.take(0)) =~= Seq::<char>::empty());
                    }
                }
                i = i + 1;
            }
            proof {
                assert(items@.take(items@.len() as int) =~= items@);
            }
            out.append(" }");
        },
        Value::Choice(name, inner) => {
            out.append(name.value.as_str());
            out.append(" : ");
            append_value(out, inner);
        },
    }
    proof {
        assert(out@ =~= start + value_text(*v));
    }
}

/// The rendering of `v` as a fresh string.
pub fn render_value(v: &Value) -> (s: String)
    ensures
        s@ == value_text(*v),
{
    let mut s = String::new();
    append_value(&mut s, v);
    proof {
        assert(s@ =~= value_text(*v));
    }
    s
}

/// A bound of a value range: `MIN`, `MAX` or the value.
pub open spec fn bound_text(b: ValueBound) -> Seq<char> {
    match b {
        ValueBound::Min => "MIN"@,
        ValueBound::Max => "MAX"@,
        ValueBound::Value(v) => value_text(v),
    }
}

/// One member of a union or intersection, as shown inside a composite
/// constraint.
pub open spec fn constraint_brief_text(c: Constraint) -> Seq<char> {
    match c {
        Constraint::SingleValue(v) => value_text(v),
        Constraint::ValueRange { lower, upper, .. } => bound_text(lower) + ".."@ + bound_text(upper),
        Constraint::Size(_) => "SIZE(..)"@,
        _ => ".."@,
    }
}

/// The members of a union or intersection, joined by ` / `.
pub open spec fn constraint_list_text(cs: Seq<Constraint>) -> Seq<char>
    decreases cs.len(),
{
    if cs.len() == 0 {
        Seq::empty()
    } else if cs.len() == 1 {
        constraint_brief_text(cs[0])
    } else {
        constraint_list_text(cs.drop_last()) + " / "@ + constraint_brief_text(cs.last())
    }
}

fn append_bound(out: &mut String, b: &ValueBound)
    ensures
        final(out)@ == old(out)@ + bound_text(*b),
{
    match b {
        ValueBound::Min => {
            out.append("MIN");
        },
        ValueBound::Max => {
            out.append("MAX");
        },
        ValueBound::Value(v) => {
            append_value(out, v);
        },
    }
}

fn append_constraint_brief(out: &mut String, c: &Constraint)
    ensures
        final(out)@ == old(out)@ + constraint_brief_text(*c),
{
    let ghost start = out@;
    match c {
        Constraint::SingleValue(v) => {
            append_value(out, v);
        },
        Constraint::ValueRange { lower, upper, .. } => {
            append_bound(out, lower);
            out.append("..");
            append_bound(out, upper);
        },
        Constraint::Size(_) => {
            out.append("SIZE(..)");
        },
        _ => {
            out.append("..");
        },
    }
    proof {
        assert(out@ =~= start + constraint_brief_text(*c));
    }
}

/// The members of a union or intersection, rendered and joined by ` / `.
pub fn render_constraint_list(cs: &Vec<Constraint>) -> (s: String)
    ensures
        s@ == constraint_list_text(cs@),
{
    let mut s = String::new();
    let mut i: usize = 0;
    while i < cs.len()
        invariant
            i <= cs@.len(),
            s@ == constraint_list_text(cs@.take(i as int)),
        decreases cs@.len() - i,
    {
        proof {
            assert(cs@.take(i + 1).drop_last() =~= cs@.take(i as int));
        }
        if i > 0 {
            s.append(" / ");
        }
        append_constraint_brief(&mut s, &cs[i]);
        proof {
            if i == 0 {
                assert(s@ =~= constraint_list_text(cs@.take(1)));
            }
        }
        i = i + 1;
    }
    proof {
        assert(cs@.take(cs@.len() as int) =~= cs@);
    }
    s
}

/// An optional bound of a lowered range: the number, or `absent` when open.
pub open spec fn opt_bound_text(b: Option<i128>, absent: Seq<char>) -> Seq<char> {
    match b {
        Some(n) => signed_decimal(n as int),
        None => absent,
    }
}

/// A lowered constraint rendered back as text.
pub open spec fn ir_constraint_text(c: IrConstraint) -> Seq<char>
    decreases c,
{
    match c {
        IrConstraint::Range { lower, upper, .. } => opt_bound_text(lower, "MIN"@) + ".."@
            + opt_bound_text(upper, "MAX"@),
        IrConstraint::Single(s) => s@,
        IrConstraint::Size(inner) => "SIZE("@ + ir_constraint_text(*inner) + ")"@,
        IrConstraint::Composite(s) => s@,
    }
}

/// Append the rendering of a lowered constraint to `out`.
pub fn append_ir_constraint(out: &mut String, c: &IrConstraint)
    ensures
        final(out)@ == old(out)@ + ir_constraint_text(*c),
    decreases c,
{
    let ghost start = out@;
    match c {
        IrConstraint::Range { lower, upper, .. } => {
            match lower {
                Some(n) => append_int(out, *n),
                None => out.append("MIN"),
            }
            out.append("..");
            match upper {
                Some(n) => append_int(out, *n),
                None => out.append("MAX"),
            }
        },
        IrConstraint::Single(s) => {
            out.append(s.as_str());
        },
        IrConstraint::Size(inner) => {
            out.append("SIZE(");
            append_ir_constraint(out, inner);
            out.append(")");
        },
        IrConstraint::Composite(s) => {
            out.append(s.as_str());
        },
    }
    proof {
        assert(out@ =~= start + ir_constraint_text(*c));
    }
}

/// A range bound as text: `MIN`, `MAX` or the rendered value.
pub fn render_bound(b: &ValueBound) -> (s: String)
    ensures
        s@ == bound_text(*b),
{
    let mut s = String::new();
    append_bound(&mut s, b);
    proof {
        assert(s@ =~= bound_text(*b));
    }
    s
}

/// One member of a union or intersection as text.
pub fn render_constraint_brief(c: &Constraint) -> (s: String)
    ensures
        s@ == constraint_brief_text(*c),
{
    let mut s = String::new();
    append_constraint_brief(&mut s, c);
    proof {
        assert(s@ =~= constraint_brief_text(*c));
    }
    s
}

/// A lowered constraint as text.
pub fn render_ir_constraint(c: &IrConstraint) -> (s: String)
    ensures
        s@ == ir_constraint_text(*c),
{
    let mut s = String::new();
    append_ir_constraint(&mut s, c);
    proof {
        assert(s@ =~= ir_constraint_text(*c));
    }
    s
}

} // verus!
