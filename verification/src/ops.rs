//! The truth of values and the operations of the machine on integers, texts
//! and booleans.
use vstd::prelude::*;

use crate::bytecode::{BinCompcode, BinOpcode};
use crate::obj::Value;
use vstd::string::StrSliceExecFns;

verus! {

/// Whether the text of a decimal number writes zero: only zeros, a point and
/// signs before any exponent.
pub open spec fn zero_text(s: Seq<char>) -> bool
    decreases s.len(),
{
    if s.len() == 0 {
        true
    } else if s[0] == 'e' || s[0] == 'E' {
        true
    } else if s[0] == '0' || s[0] == '.' || s[0] == '-' || s[0] == '+' {
        zero_text(s.drop_first())
    } else {
        false
    }
}

/// Whether a value counts as true: `nul`, `faux`, zero, the empty text and
/// the empty list are false; everything else is true.
pub open spec fn truthy(v: Value) -> bool {
    match v {
        Value::Nul => false,
        Value::Booleen(b) => b,
        Value::Entier(i) => i != 0,
        Value::Decimal(t) => !zero_text(t@),
        Value::Texte(t) => t@.len() > 0,
        Value::Liste(l) => l@.len() > 0,
        _ => true,
    }
}

fn is_zero_text(s: &str) -> (r: bool)
    ensures
        r == zero_text(s@),
{
    let n = s.unicode_len();
    let mut i: usize = 0;
    assert(s@.skip(0) =~= s@);
    while i < n
        invariant
            n == s@.len(),
            i <= n,
            zero_text(s@) == zero_text(s@.skip(i as int)),
        decreases n - i,
    {
        let c = s.get_char(i);
        assert(s@.skip(i as int)[0] == c);
        assert(s@.skip(i as int).drop_first() =~= s@.skip(i + 1));
        if c == 'e' || c == 'E' {
            return true;
        }
        if !(c == '0' || c == '.' || c == '-' || c == '+') {
            return false;
        }
        i = i + 1;
    }
    assert(s@.skip(n as int) =~= Seq::<char>::empty());
    true
}

/// Whether a value counts as true.
pub fn to_bool(v: &Value) -> (r: bool)
    ensures
        r == truthy(*v),
{
    match v {
        Value::Nul => false,
        Value::Booleen(b) => *b,
        Value::Entier(i) => *i != 0,
        Value::Decimal(t) => !is_zero_text(t.as_str()),
        Value::Texte(t) => t.as_str().unicode_len() > 0,
        Value::Liste(l) => l.len() > 0,
        _ => true,
    }
}

/// Whether the integer operation `op` on `x` and `y` stays within the
/// machine's integers (for the operations the library computes).
pub open spec fn int_binop_in_range(op: BinOpcode, x: i64, y: i64) -> bool {
    match op {
        BinOpcode::Add => i64::MIN <= x + y <= i64::MAX,
        BinOpcode::Sub => i64::MIN <= x - y <= i64::MAX,
        BinOpcode::Mul => i64::MIN <= x * y <= i64::MAX,
        _ => true,
    }
}

/// Whether the library computes the operation `op` on `a` and `b` itself:
/// addition, subtraction, multiplication and the bitwise operations of two
/// integers, and the joining of two texts. The others (the decimal
/// operations among them) are handed to the program driving the machine.
pub open spec fn binop_computed(op: BinOpcode, a: Value, b: Value) -> bool {
    match (a, b) {
        (Value::Entier(_), Value::Entier(_)) => op is Add || op is Sub || op is Mul || op is BitwiseOr
            || op is BitwiseAnd || op is BitwiseXor,
        (Value::Texte(_), Value::Texte(_)) => op is Add,
        _ => false,
    }
}

/// The result `r` of the operation `op` on `a` and `b`, where the library
/// computes it.
pub open spec fn binop_result(op: BinOpcode, a: Value, b: Value, r: Value) -> bool {
    match (a, b) {
        (Value::Entier(x), Value::Entier(y)) => match op {
            BinOpcode::Add => r == Value::Entier((x + y) as i64),
            BinOpcode::Sub => r == Value::Entier((x - y) as i64),
            BinOpcode::Mul => r == Value::Entier((x * y) as i64),
            BinOpcode::BitwiseOr => r == Value::Entier(x | y),
            BinOpcode::BitwiseAnd => r == Value::Entier(x & y),
            BinOpcode::BitwiseXor => r == Value::Entier(x ^ y),
            _ => false,
        },
        (Value::Texte(s), Value::Texte(t)) => op is Add && (r matches Value::Texte(u) && u@ == s@ + t@),
        _ => false,
    }
}

/// The operation `op` on `a` and `b`, where the library computes it.
pub fn binop(op: BinOpcode, a: &Value, b: &Value) -> (r: Value)
    requires
        binop_computed(op, *a, *b),
        *a matches Value::Entier(x) ==> (*b matches Value::Entier(y) ==> int_binop_in_range(op, x, y)),
    ensures
        binop_result(op, *a, *b, r),
{
    match (a, b) {
        (Value::Entier(x), Value::Entier(y)) => match op {
            BinOpcode::Add => Value::Entier(*x + *y),
            BinOpcode::Sub => Value::Entier(*x - *y),
            BinOpcode::Mul => Value::Entier(*x * *y),
            BinOpcode::BitwiseOr => Value::Entier(*x | *y),
            BinOpcode::BitwiseAnd => Value::Entier(*x & *y),
            _ => Value::Entier(*x ^ *y),
        },
        (Value::Texte(s), Value::Texte(t)) => {
            let mut u = s.clone();
            u.append(t.as_str());
            Value::Texte(u)
        },
        _ => {
            assert(false);
            Value::Nul
        },
    }
}

/// Whether the library computes the comparison `op` of `a` and `b` itself:
/// every comparison of two integers, and equality of two texts, two booleans
/// or two `nul`.
pub open spec fn bincomp_computed(op: BinCompcode, a: Value, b: Value) -> bool {
    match (a, b) {
        (Value::Entier(_), Value::Entier(_)) => !(op is Dans || op is PasDans),
        (Value::Texte(_), Value::Texte(_)) | (Value::Booleen(_), Value::Booleen(_)) | (Value::Nul, Value::Nul) => op is Eq
            || op is NotEq,
        _ => false,
    }
}

/// Whether `a` and `b` are equal, for the pairs whose equality the library
/// decides.
pub open spec fn same_value(a: Value, b: Value) -> bool {
    match (a, b) {
        (Value::Entier(x), Value::Entier(y)) => x == y,
        (Value::Texte(s), Value::Texte(t)) => s@ == t@,
        (Value::Booleen(x), Value::Booleen(y)) => x == y,
        (Value::Nul, Value::Nul) => true,
        _ => false,
    }
}

/// The truth of the comparison `op` of `a` and `b`, where the library
/// computes it.
pub open spec fn bincomp_value(op: BinCompcode, a: Value, b: Value) -> bool {
    match op {
        BinCompcode::Eq => same_value(a, b),
        BinCompcode::NotEq => !same_value(a, b),
        _ => match (a, b) {
            (Value::Entier(x), Value::Entier(y)) => match op {
                BinCompcode::Lth => x < y,
                BinCompcode::Gth => x > y,
                BinCompcode::Geq => x >= y,
                BinCompcode::Leq => x <= y,
                _ => false,
            },
            _ => false,
        },
    }
}

/// The comparison `op` of `a` and `b`, where the library computes it.
pub fn bincomp(op: BinCompcode, a: &Value, b: &Value) -> (r: bool)
    requires
        bincomp_computed(op, *a, *b),
    ensures
        r == bincomp_value(op, *a, *b),
{
    let same = match (a, b) {
        (Value::Entier(x), Value::Entier(y)) => *x == *y,
        (Value::Texte(s), Value::Texte(t)) => crate::text::str_eq(s.as_str(), t.as_str()),
        (Value::Booleen(x), Value::Booleen(y)) => *x == *y,
        (Value::Nul, Value::Nul) => true,
        _ => false,
    };
    match op {
        BinCompcode::Eq => same,
        BinCompcode::NotEq => !same,
        _ => match (a, b) {
            (Value::Entier(x), Value::Entier(y)) => match op {
                BinCompcode::Lth => *x < *y,
                BinCompcode::Gth => *x > *y,
                BinCompcode::Geq => *x >= *y,
                _ => *x <= *y,
            },
            _ => {
                assert(false);
                false
            },
        },
    }
}

/// Whether the library computes the operation `op` on `a` and `b` itself.
pub fn binop_computed_exec(op: BinOpcode, a: &Value, b: &Value) -> (r: bool)
    ensures
        r == binop_computed(op, *a, *b),
{
    match (a, b) {
        (Value::Entier(_), Value::Entier(_)) => match op {
            BinOpcode::Add | BinOpcode::Sub | BinOpcode::Mul | BinOpcode::BitwiseOr | BinOpcode::BitwiseAnd
            | BinOpcode::BitwiseXor => true,
            _ => false,
        },
        (Value::Texte(_), Value::Texte(_)) => match op {
            BinOpcode::Add => true,
            _ => false,
        },
        _ => false,
    }
}

/// Whether the library computes the comparison `op` of `a` and `b` itself.
pub fn bincomp_computed_exec(op: BinCompcode, a: &Value, b: &Value) -> (r: bool)
    ensures
        r == bincomp_computed(op, *a, *b),
{
    let eq_only = match op {
        BinCompcode::Eq | BinCompcode::NotEq => true,
        _ => false,
    };
    let is_in = match op {
        BinCompcode::Dans | BinCompcode::PasDans => true,
        _ => false,
    };
    match (a, b) {
        (Value::Entier(_), Value::Entier(_)) => !is_in,
        (Value::Texte(_), Value::Texte(_)) | (Value::Booleen(_), Value::Booleen(_)) | (Value::Nul, Value::Nul) => eq_only,
        _ => false,
    }
}

} // verus!
