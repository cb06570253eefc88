//! Numbers.
//!
//! A number is the bit pattern of a double-precision value.  What can be read
//! off the bits is computed here: whether it is a number at all and how two
//! of them compare.  Arithmetic is asked of the host, one question at a time.

use vstd::prelude::*;

verus! {

/// A question to the host's arithmetic: the operands are bit patterns, and so
/// is the answer.
pub enum Arith {
    /// The sum of two numbers.
    Add(u64, u64),
    /// The first number less the second.
    Sub(u64, u64),
    /// The product of two numbers.
    Mul(u64, u64),
    /// The first number divided by the second.
    Div(u64, u64),
    /// The number nearest to a count.
    Count(usize),
}

/// A host that answers every question, and a question always alike.
pub open spec fn pure<H: Fn(Arith) -> u64>(host: &H) -> bool {
    &&& forall|q: Arith| #[trigger] host.requires((q,))
    &&& forall|q: Arith, x: u64, y: u64|
        #[trigger] host.ensures((q,), x) && #[trigger] host.ensures((q,), y) ==> x == y
}

/// The answers of a host, as a function of the question.
pub open spec fn answers<H: Fn(Arith) -> u64>(host: &H) -> spec_fn(Arith) -> u64 {
    |q: Arith| choose|x: u64| host.ensures((q,), x)
}

/// Puts the question `q` to the host.
pub fn ask<H: Fn(Arith) -> u64>(host: &H, q: Arith) -> (x: u64)
    requires
        pure(host),
    ensures
        x == answers(host)(q),
{
    host(q)
}

/// The bit that holds the sign.
pub const SIGN: u64 = 0x8000_0000_0000_0000;

/// The bits of positive infinity: a larger magnitude is not a number.
pub const INFINITY: u64 = 0x7ff0_0000_0000_0000;

/// The bits of the value that stands for "true": not a number, and not `Nil`.
pub const NAN: u64 = 0x7ff8_0000_0000_0000;

/// The bits without the sign.
pub open spec fn magnitude(bits: u64) -> int {
    bits as int % SIGN as int
}

/// Whether the bits are those of "not a number".
pub open spec fn is_nan(bits: u64) -> bool {
    magnitude(bits) > INFINITY
}

/// Where a number stands among the integers: numbers are ordered as their
/// ranks are, and the two zeros share rank 0.
pub open spec fn rank(bits: u64) -> int {
    if bits >= SIGN {
        -magnitude(bits)
    } else {
        magnitude(bits)
    }
}

/// Whether `a` is a number less than the number `b`.
pub open spec fn less(a: u64, b: u64) -> bool {
    !is_nan(a) && !is_nan(b) && rank(a) < rank(b)
}

/// Whether `a` and `b` are numbers of the same value.
pub open spec fn equal(a: u64, b: u64) -> bool {
    !is_nan(a) && !is_nan(b) && rank(a) == rank(b)
}

/// Whether the number `a` is less than the number `b`.
pub fn lt(a: u64, b: u64) -> (r: bool)
    ensures
        r == less(a, b),
{
    let ma = a % SIGN;
    let mb = b % SIGN;
    if ma > INFINITY || mb > INFINITY {
        false
    } else if a >= SIGN {
        if b >= SIGN {
            ma > mb
        } else {
            ma > 0 || mb > 0
        }
    } else {
        if b >= SIGN {
            false
        } else {
            ma < mb
        }
    }
}

/// Whether the numbers `a` and `b` have the same value.
pub fn eq(a: u64, b: u64) -> (r: bool)
    ensures
        r == equal(a, b),
{
    let ma = a % SIGN;
    let mb = b % SIGN;
    if ma > INFINITY || mb > INFINITY {
        false
    } else if ma == 0 && mb == 0 {
        true
    } else {
        a == b
    }
}

/// Numbers are strictly ordered: none is less than itself, and what is less
/// than something that is less than a third is less than the third.  Two
/// numbers are equal exactly when neither is less than the other.
pub proof fn law_order(a: u64, b: u64, c: u64)
    ensures
        !less(a, a),
        less(a, b) && less(b, c) ==> less(a, c),
        !is_nan(a) && !is_nan(b) ==> (equal(a, b) <==> !less(a, b) && !less(b, a)),
        equal(a, b) == equal(b, a),
{
}

/// What is not a number is neither less than nor equal to anything, itself
/// included.
pub proof fn law_nan(a: u64, b: u64)
    requires
        is_nan(a),
    ensures
        !less(a, b),
        !less(b, a),
        !equal(a, b),
        !equal(b, a),
        is_nan(NAN),
{
}

} // verus!
