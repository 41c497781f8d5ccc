//! The values that words work on.

use vstd::prelude::*;
use vstd::string::*;

verus! {

/// A whole number of 32 bits.
pub type Int = i32;

/// A whole number of 64 bits.
pub type Long = i64;

/// A single-precision number, held as its IEEE 754 bit pattern.
pub type Float = u32;

/// A double-precision number, held as its IEEE 754 bit pattern.
pub type Double = u64;

/// A whole number of 8 bits, without a sign.
pub type Byte = u8;

/// A text.
pub type Str = String;

/// A value on a stack or in a variable.
///
/// The engine moves fractional numbers about but never computes with them:
/// see [`crate::engine::FloatTask`].
#[derive(Clone, Debug)]
pub enum Types {
    Int(Int),
    Long(Long),
    Float(Float),
    Double(Double),
    Byte(Byte),
    Str(Str),
}

/// What a [`Types`] holds, as a mathematical value.
pub enum Value {
    Int(i32),
    Long(i64),
    Float(u32),
    Double(u64),
    Byte(u8),
    Str(Seq<char>),
}

impl View for Types {
    type V = Value;

    open spec fn view(&self) -> Value {
        match self {
            Types::Int(a) => Value::Int(*a),
            Types::Long(a) => Value::Long(*a),
            Types::Float(a) => Value::Float(*a),
            Types::Double(a) => Value::Double(*a),
            Types::Byte(a) => Value::Byte(*a),
            Types::Str(a) => Value::Str(a@),
        }
    }
}

/// What a list of values holds.
pub open spec fn values_of(v: Seq<Types>) -> Seq<Value> {
    Seq::new(v.len(), |i: int| v[i]@)
}

impl Types {
    /// A copy of the value.
    pub fn copy(&self) -> (r: Types)
        ensures
            r@ == self@,
    {
        match self {
            Types::Int(a) => Types::Int(*a),
            Types::Long(a) => Types::Long(*a),
            Types::Float(a) => Types::Float(*a),
            Types::Double(a) => Types::Double(*a),
            Types::Byte(a) => Types::Byte(*a),
            Types::Str(a) => Types::Str(a.clone()),
        }
    }
}

/// Puts `v` on top of `stack`.
pub fn push_value(stack: &mut Vec<Types>, v: Types)
    ensures
        values_of(final(stack)@) == values_of(old(stack)@).push(v@),
{
    stack.push(v);
    assert(values_of(stack@) =~= values_of(old(stack)@).push(v@));
}

/// Takes the top of `stack`, if there is one.
pub fn pop_value(stack: &mut Vec<Types>) -> (r: Option<Types>)
    ensures
        match r {
            Some(v) => old(stack)@.len() > 0 && v@ == values_of(old(stack)@).last() && values_of(
                final(stack)@,
            ) == values_of(old(stack)@).drop_last(),
            None => old(stack)@.len() == 0 && values_of(final(stack)@) == values_of(old(stack)@),
        },
{
    let r = stack.pop();
    assert(values_of(stack@) =~= if old(stack)@.len() > 0 {
        values_of(old(stack)@).drop_last()
    } else {
        values_of(old(stack)@)
    });
    r
}

} // verus!
