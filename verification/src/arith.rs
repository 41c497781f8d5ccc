//! Arithmetic and comparison on values.
//!
//! Whole numbers are bytes, ints and longs. Two of them combine into the wider
//! of the two kinds, and the result is the exact one: where the exact result
//! does not fit that kind, or a division has no result, the operation fails.

use vstd::prelude::*;
use crate::types::{Types, Value};

verus! {

/// The arithmetic operations.
#[derive(Clone, Copy, Debug, PartialEq, Eq, Structural)]
pub enum Operator {
    Add,
    Subtract,
    Multiply,
    Divide,
    Remainder,
}

/// The relations by which two values are compared. "Less" is "greater"
/// with the two values exchanged.
#[derive(Clone, Copy, Debug, PartialEq, Eq, Structural)]
pub enum Relation {
    Equal,
    NotEqual,
    Greater,
}

/// Whether a value is a whole number: a byte, an int or a long.
pub open spec fn is_whole(v: Value) -> bool {
    v is Byte || v is Int || v is Long
}

/// Whether a value is a fractional number: a float or a double.
pub open spec fn is_fraction(v: Value) -> bool {
    v is Float || v is Double
}

/// The number that a whole value holds.
pub open spec fn whole_of(v: Value) -> int {
    match v {
        Value::Byte(a) => a as int,
        Value::Int(a) => a as int,
        Value::Long(a) => a as int,
        _ => 0,
    }
}

/// The place of a kind of whole number in the widening order: byte, int, long.
pub open spec fn rank(v: Value) -> int {
    match v {
        Value::Byte(_) => 0,
        Value::Int(_) => 1,
        _ => 2,
    }
}

/// The kind of the result, as a rank: the wider of the two, but an int where
/// two bytes are added, subtracted or multiplied.
pub open spec fn result_rank(op: Operator, a: Value, b: Value) -> int {
    if a is Byte && b is Byte {
        if op == Operator::Divide || op == Operator::Remainder {
            0
        } else {
            1
        }
    } else if rank(a) >= rank(b) {
        rank(a)
    } else {
        rank(b)
    }
}

/// `a / b` rounded towards zero.
pub open spec fn quotient(a: int, b: int) -> int
    recommends
        b != 0,
{
    if a >= 0 && b > 0 {
        a / b
    } else if a < 0 && b > 0 {
        -((-a) / b)
    } else if a >= 0 {
        -(a / (-b))
    } else {
        (-a) / (-b)
    }
}

/// The exact result of an operation on two numbers.
pub open spec fn exact(op: Operator, a: int, b: int) -> int {
    match op {
        Operator::Add => a + b,
        Operator::Subtract => a - b,
        Operator::Multiply => a * b,
        Operator::Divide => quotient(a, b),
        Operator::Remainder => a - b * quotient(a, b),
    }
}

/// The whole value of the given rank that holds `n`, if `n` fits.
pub open spec fn whole_in(rank: int, n: int) -> Option<Value> {
    if rank == 0 {
        if 0 <= n <= u8::MAX {
            Some(Value::Byte(n as u8))
        } else {
            None
        }
    } else if rank == 1 {
        if i32::MIN <= n <= i32::MAX {
            Some(Value::Int(n as i32))
        } else {
            None
        }
    } else {
        if i64::MIN <= n <= i64::MAX {
            Some(Value::Long(n as i64))
        } else {
            None
        }
    }
}

/// What an operation on two whole values gives: nothing where it divides by
/// zero or the exact result does not fit the kind of the result.
pub open spec fn whole_arith_spec(op: Operator, a: Value, b: Value) -> Option<Value> {
    if (op == Operator::Divide || op == Operator::Remainder) && whole_of(b) == 0 {
        None
    } else {
        whole_in(result_rank(op, a, b), exact(op, whole_of(a), whole_of(b)))
    }
}

/// The view of an optional value.
pub open spec fn option_view(r: Option<Types>) -> Option<Value> {
    match r {
        Some(v) => Some(v@),
        None => None,
    }
}

fn whole_number(v: &Types) -> (r: (i64, u8))
    requires
        is_whole(v@),
    ensures
        r.0 == whole_of(v@),
        r.1 == rank(v@),
{
    match v {
        Types::Byte(a) => (*a as i64, 0),
        Types::Int(a) => (*a as i64, 1),
        Types::Long(a) => (*a, 2),
        _ => (0, 2),
    }
}

fn whole_value(rank: u8, n: i128) -> (r: Option<Types>)
    requires
        rank <= 2,
    ensures
        option_view(r) == whole_in(rank as int, n as int),
{
    if rank == 0 {
        if 0 <= n && n <= 255 {
            Some(Types::Byte(n as u8))
        } else {
            None
        }
    } else if rank == 1 {
        if -0x8000_0000 <= n && n <= 0x7fff_ffff {
            Some(Types::Int(n as i32))
        } else {
            None
        }
    } else {
        if -0x8000_0000_0000_0000 <= n && n <= 0x7fff_ffff_ffff_ffff {
            Some(Types::Long(n as i64))
        } else {
            None
        }
    }
}

fn magnitude_of(n: i128) -> (r: i128)
    requires
        n > i128::MIN,
    ensures
        r == if n < 0 { -n } else { n as int },
{
    if n < 0 {
        -n
    } else {
        n
    }
}

/// Combines two whole values.
pub fn whole_arith(op: Operator, a: &Types, b: &Types) -> (r: Option<Types>)
    requires
        is_whole(a@),
        is_whole(b@),
    ensures
        option_view(r) == whole_arith_spec(op, a@, b@),
{
    let (x, rank_a) = whole_number(a);
    let (y, rank_b) = whole_number(b);
    let divides = match op {
        Operator::Divide => true,
        Operator::Remainder => true,
        _ => false,
    };
    let rank: u8 = if rank_a == 0 && rank_b == 0 {
        if divides {
            0
        } else {
            1
        }
    } else if rank_a >= rank_b {
        rank_a
    } else {
        rank_b
    };
    if divides && y == 0 {
        return None;
    }
    let p: i128 = x as i128;
    let q: i128 = y as i128;
    let n: i128 = match op {
        Operator::Add => p + q,
        Operator::Subtract => p - q,
        Operator::Multiply => {
            assert(-0x4000_0000_0000_0000_0000_0000_0000_0000 <= p * q
                <= 0x4000_0000_0000_0000_0000_0000_0000_0000) by (nonlinear_arith)
                requires
                    -0x8000_0000_0000_0000 <= p <= 0x8000_0000_0000_0000,
                    -0x8000_0000_0000_0000 <= q <= 0x8000_0000_0000_0000,
            ;
            p * q
        },
        Operator::Divide => {
            let magnitude = magnitude_of(p) / magnitude_of(q);
            if (p < 0) != (q < 0) {
                -magnitude
            } else {
                magnitude
            }
        },
        Operator::Remainder => {
            let magnitude = magnitude_of(p) % magnitude_of(q);
            if p < 0 {
                -magnitude
            } else {
                magnitude
            }
        },
    };
    assert(n == exact(op, x as int, y as int)) by {
        if divides {
            lemma_quotient(p as int, q as int);
        }
    }
    whole_value(rank, n)
}

/// Division that rounds towards zero, and its remainder, in terms of division
/// on the magnitudes.
proof fn lemma_quotient(a: int, b: int)
    requires
        b != 0,
    ensures
        a >= 0 && b > 0 ==> quotient(a, b) == a / b && a - b * quotient(a, b) == a % b,
        a < 0 && b > 0 ==> quotient(a, b) == -((-a) / b) && a - b * quotient(a, b) == -((-a) % b),
        a >= 0 && b < 0 ==> quotient(a, b) == -(a / (-b)) && a - b * quotient(a, b) == a % (-b),
        a < 0 && b < 0 ==> quotient(a, b) == (-a) / (-b) && a - b * quotient(a, b) == -((-a) % (
        -b)),
{
    let x = if a >= 0 { a } else { -a };
    let y = if b > 0 { b } else { -b };
    assert(x == y * (x / y) + x % y) by (nonlinear_arith)
        requires
            y > 0,
    ;
    assert(b * -(x / y) == -(b * (x / y))) by (nonlinear_arith);
    assert((-b) * (x / y) == -(b * (x / y))) by (nonlinear_arith);
}

/// Whether the relation holds between two numbers.
pub open spec fn holds(relation: Relation, a: int, b: int) -> bool {
    match relation {
        Relation::Equal => a == b,
        Relation::NotEqual => a != b,
        Relation::Greater => a > b,
    }
}

/// Compares two whole values by the numbers they hold.
pub fn whole_compare(relation: Relation, a: &Types, b: &Types) -> (r: bool)
    requires
        is_whole(a@),
        is_whole(b@),
    ensures
        r == holds(relation, whole_of(a@), whole_of(b@)),
{
    let (x, _) = whole_number(a);
    let (y, _) = whole_number(b);
    match relation {
        Relation::Equal => x == y,
        Relation::NotEqual => x != y,
        Relation::Greater => x > y,
    }
}

/// Whether `a` comes after `b` in the order of a dictionary, characters
/// counting by their code points.
pub open spec fn text_after(a: Seq<char>, b: Seq<char>) -> bool
    decreases a.len(),
{
    if a.len() == 0 {
        false
    } else if b.len() == 0 {
        true
    } else if a[0] != b[0] {
        a[0] as u32 > b[0] as u32
    } else {
        text_after(a.drop_first(), b.drop_first())
    }
}

/// Whether the relation holds between two texts.
pub open spec fn text_holds(relation: Relation, a: Seq<char>, b: Seq<char>) -> bool {
    match relation {
        Relation::Equal => a == b,
        Relation::NotEqual => a != b,
        Relation::Greater => text_after(a, b),
    }
}

fn is_text_after(a: &Vec<char>, b: &Vec<char>) -> (r: bool)
    ensures
        r == text_after(a@, b@),
{
    let mut i: usize = 0;
    assert(a@.skip(0) =~= a@ && b@.skip(0) =~= b@);
    while i < a.len() && i < b.len() && a[i] == b[i]
        invariant
            i <= a.len(),
            i <= b.len(),
            text_after(a@, b@) == text_after(a@.skip(i as int), b@.skip(i as int)),
        decreases a.len() - i,
    {
        assert(a@.skip(i as int).drop_first() =~= a@.skip(i + 1));
        assert(b@.skip(i as int).drop_first() =~= b@.skip(i + 1));
        i += 1;
    }
    if i >= a.len() {
        false
    } else if i >= b.len() {
        true
    } else {
        a[i] as u32 > b[i] as u32
    }
}

/// Compares two texts.
pub fn text_compare(relation: Relation, a: &Vec<char>, b: &Vec<char>) -> (r: bool)
    ensures
        r == text_holds(relation, a@, b@),
{
    match relation {
        Relation::Equal => crate::text::same_text(a, b),
        Relation::NotEqual => !crate::text::same_text(a, b),
        Relation::Greater => is_text_after(a, b),
    }
}

/// Adding, subtracting or multiplying two whole values of which at most one
/// is a byte gives the exact result in the wider of the two kinds, whenever
/// the exact result fits that kind.
pub proof fn lemma_widened_result(op: Operator, a: Value, b: Value)
    requires
        is_whole(a),
        is_whole(b),
        !(a is Byte && b is Byte),
        op == Operator::Add || op == Operator::Subtract || op == Operator::Multiply,
        whole_in(if rank(a) >= rank(b) { rank(a) } else { rank(b) }, exact(op, whole_of(a), whole_of(b)))
            is Some,
    ensures
        whole_arith_spec(op, a, b) is Some,
        rank(whole_arith_spec(op, a, b)->0) == if rank(a) >= rank(b) { rank(a) } else { rank(b) },
        is_whole(whole_arith_spec(op, a, b)->0),
        whole_of(whole_arith_spec(op, a, b)->0) == match op {
            Operator::Add => whole_of(a) + whole_of(b),
            Operator::Subtract => whole_of(a) - whole_of(b),
            _ => whole_of(a) * whole_of(b),
        },
{
}

/// Two bytes add, subtract and multiply into an int, and that never fails.
pub proof fn lemma_bytes_give_int(op: Operator, a: u8, b: u8)
    requires
        op == Operator::Add || op == Operator::Subtract || op == Operator::Multiply,
    ensures
        whole_arith_spec(op, Value::Byte(a), Value::Byte(b)) == Some(
            Value::Int(exact(op, a as int, b as int) as i32),
        ),
        i32::MIN <= exact(op, a as int, b as int) <= i32::MAX,
{
    let x = a as int;
    let y = b as int;
    assert(0 <= x * y <= 255 * 255) by (nonlinear_arith)
        requires
            0 <= x <= 255,
            0 <= y <= 255,
    ;
}

} // verus!
