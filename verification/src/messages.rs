//! Building error messages and errors.
use vstd::prelude::*;
use crate::errors::HostError;
use crate::text::{int_decimal, owned, push_i64, push_text};

verus! {

/// `a + b + c` as one string.
pub fn concat3(a: &str, b: &str, c: &str) -> (r: String)
    ensures
        r@ == a@ + b@ + c@,
{
    let mut r = owned(a);
    push_text(&mut r, b);
    push_text(&mut r, c);
    r
}

/// `a + b + c + d + e` as one string.
pub fn concat5(a: &str, b: &str, c: &str, d: &str, e: &str) -> (r: String)
    ensures
        r@ == a@ + b@ + c@ + d@ + e@,
{
    let mut r = concat3(a, b, c);
    push_text(&mut r, d);
    push_text(&mut r, e);
    r
}

/// `a`, the decimal text of `n`, then `b`.
pub fn with_number(a: &str, n: i64, b: &str) -> (r: String)
    ensures
        r@ == a@ + int_decimal(n as int) + b@,
{
    let mut r = owned(a);
    push_i64(&mut r, n);
    push_text(&mut r, b);
    r
}

/// `a`, the decimal text of `n`, `b`, the decimal text of `m`, then `c`.
pub fn with_two_numbers(a: &str, n: i64, b: &str, m: i64, c: &str) -> (r: String)
    ensures
        r@ == a@ + int_decimal(n as int) + b@ + int_decimal(m as int) + c@,
{
    let mut r = with_number(a, n, b);
    push_i64(&mut r, m);
    push_text(&mut r, c);
    r
}

/// A validation error with the given message.
pub fn validation(message: String) -> (e: HostError)
    ensures
        e is Validation,
        e.msg() == message@,
{
    HostError::Validation(message)
}

/// A validation error with a literal message.
pub fn validation_text(message: &str) -> (e: HostError)
    ensures
        e is Validation,
        e.msg() == message@,
{
    HostError::Validation(owned(message))
}

} // verus!
