//! Checked integer arithmetic lifted to `Option`: each operation yields
//! `None` when an operand is `None` or when the exact result leaves the
//! type's range (or, for division, the divisor is zero). Division truncates
//! toward zero, as Rust's `/` does.
use vstd::prelude::*;

verus! {

pub open spec fn add_i32(a: Option<i32>, b: Option<i32>) -> Option<i32> {
    match (a, b) {
        (Some(x), Some(y)) => x.checked_add(y),
        _ => None,
    }
}

pub open spec fn sub_i32(a: Option<i32>, b: Option<i32>) -> Option<i32> {
    match (a, b) {
        (Some(x), Some(y)) => x.checked_sub(y),
        _ => None,
    }
}

pub open spec fn mul_i32(a: Option<i32>, b: Option<i32>) -> Option<i32> {
    match (a, b) {
        (Some(x), Some(y)) => x.checked_mul(y),
        _ => None,
    }
}

pub open spec fn div_i32(a: Option<i32>, b: Option<i32>) -> Option<i32> {
    match (a, b) {
        (Some(x), Some(y)) => x.checked_div(y),
        _ => None,
    }
}

pub open spec fn shr_i32(a: Option<i32>, k: u32) -> Option<i32>
    recommends
        k < 32,
{
    match a {
        Some(x) => Some(x >> k),
        None => None,
    }
}

pub open spec fn add_i64(a: Option<i64>, b: Option<i64>) -> Option<i64> {
    match (a, b) {
        (Some(x), Some(y)) => x.checked_add(y),
        _ => None,
    }
}

pub open spec fn sub_i64(a: Option<i64>, b: Option<i64>) -> Option<i64> {
    match (a, b) {
        (Some(x), Some(y)) => x.checked_sub(y),
        _ => None,
    }
}

pub open spec fn mul_i64(a: Option<i64>, b: Option<i64>) -> Option<i64> {
    match (a, b) {
        (Some(x), Some(y)) => x.checked_mul(y),
        _ => None,
    }
}

pub open spec fn div_i64(a: Option<i64>, b: Option<i64>) -> Option<i64> {
    match (a, b) {
        (Some(x), Some(y)) => x.checked_div(y),
        _ => None,
    }
}

pub open spec fn mul_u32(a: Option<u32>, b: Option<u32>) -> Option<u32> {
    match (a, b) {
        (Some(x), Some(y)) => x.checked_mul(y),
        _ => None,
    }
}

pub open spec fn div_u32(a: Option<u32>, b: Option<u32>) -> Option<u32> {
    match (a, b) {
        (Some(x), Some(y)) => x.checked_div(y),
        _ => None,
    }
}

pub open spec fn shl_i32(a: Option<i32>, k: u32) -> Option<i32>
    recommends
        k < 32,
{
    match a {
        Some(x) => Some(x << k),
        None => None,
    }
}

pub open spec fn shr_i64(a: Option<i64>, k: u32) -> Option<i64>
    recommends
        k < 64,
{
    match a {
        Some(x) => Some(x >> k),
        None => None,
    }
}

pub open spec fn shr_u32(a: Option<u32>, k: u32) -> Option<u32>
    recommends
        k < 32,
{
    match a {
        Some(x) => Some(x >> k),
        None => None,
    }
}

pub open spec fn shl_u32(a: Option<u32>, k: u32) -> Option<u32>
    recommends
        k < 32,
{
    match a {
        Some(x) => Some(x << k),
        None => None,
    }
}

/// The bits of a signed value read as unsigned (Rust's `as u32`).
pub open spec fn as_u32(a: Option<i32>) -> Option<u32> {
    match a {
        Some(x) => Some(x as u32),
        None => None,
    }
}

/// The bits of an unsigned value read as signed (Rust's `as i32`).
pub open spec fn as_i32(a: Option<u32>) -> Option<i32> {
    match a {
        Some(x) => Some(x as i32),
        None => None,
    }
}

pub fn ck_shl_i32(a: Option<i32>, k: u32) -> (r: Option<i32>)
    requires
        k < 32,
    ensures
        r == shl_i32(a, k),
{
    match a {
        Some(x) => Some(x << k),
        None => None,
    }
}

pub fn ck_shr_i64(a: Option<i64>, k: u32) -> (r: Option<i64>)
    requires
        k < 64,
    ensures
        r == shr_i64(a, k),
{
    match a {
        Some(x) => Some(x >> k),
        None => None,
    }
}

pub fn ck_shr_u32(a: Option<u32>, k: u32) -> (r: Option<u32>)
    requires
        k < 32,
    ensures
        r == shr_u32(a, k),
{
    match a {
        Some(x) => Some(x >> k),
        None => None,
    }
}

pub fn ck_shl_u32(a: Option<u32>, k: u32) -> (r: Option<u32>)
    requires
        k < 32,
    ensures
        r == shl_u32(a, k),
{
    match a {
        Some(x) => Some(x << k),
        None => None,
    }
}

pub fn ck_as_u32(a: Option<i32>) -> (r: Option<u32>)
    ensures
        r == as_u32(a),
{
    match a {
        Some(x) => Some(x as u32),
        None => None,
    }
}

pub fn ck_as_i32(a: Option<u32>) -> (r: Option<i32>)
    ensures
        r == as_i32(a),
{
    match a {
        Some(x) => Some(x as i32),
        None => None,
    }
}

pub fn ck_add_i32(a: Option<i32>, b: Option<i32>) -> (r: Option<i32>)
    ensures
        r == add_i32(a, b),
{
    match (a, b) {
        (Some(x), Some(y)) => x.checked_add(y),
        _ => None,
    }
}

pub fn ck_sub_i32(a: Option<i32>, b: Option<i32>) -> (r: Option<i32>)
    ensures
        r == sub_i32(a, b),
{
    match (a, b) {
        (Some(x), Some(y)) => x.checked_sub(y),
        _ => None,
    }
}

pub fn ck_mul_i32(a: Option<i32>, b: Option<i32>) -> (r: Option<i32>)
    ensures
        r == mul_i32(a, b),
{
    match (a, b) {
        (Some(x), Some(y)) => x.checked_mul(y),
        _ => None,
    }
}

pub fn ck_div_i32(a: Option<i32>, b: Option<i32>) -> (r: Option<i32>)
    ensures
        r == div_i32(a, b),
{
    match (a, b) {
        (Some(x), Some(y)) => x.checked_div(y),
        _ => None,
    }
}

pub fn ck_shr_i32(a: Option<i32>, k: u32) -> (r: Option<i32>)
    requires
        k < 32,
    ensures
        r == shr_i32(a, k),
{
    match a {
        Some(x) => Some(x >> k),
        None => None,
    }
}

pub fn ck_add_i64(a: Option<i64>, b: Option<i64>) -> (r: Option<i64>)
    ensures
        r == add_i64(a, b),
{
    match (a, b) {
        (Some(x), Some(y)) => x.checked_add(y),
        _ => None,
    }
}

pub fn ck_sub_i64(a: Option<i64>, b: Option<i64>) -> (r: Option<i64>)
    ensures
        r == sub_i64(a, b),
{
    match (a, b) {
        (Some(x), Some(y)) => x.checked_sub(y),
        _ => None,
    }
}

pub fn ck_mul_i64(a: Option<i64>, b: Option<i64>) -> (r: Option<i64>)
    ensures
        r == mul_i64(a, b),
{
    match (a, b) {
        (Some(x), Some(y)) => x.checked_mul(y),
        _ => None,
    }
}

pub fn ck_div_i64(a: Option<i64>, b: Option<i64>) -> (r: Option<i64>)
    ensures
        r == div_i64(a, b),
{
    match (a, b) {
        (Some(x), Some(y)) => x.checked_div(y),
        _ => None,
    }
}

pub fn ck_mul_u32(a: Option<u32>, b: Option<u32>) -> (r: Option<u32>)
    ensures
        r == mul_u32(a, b),
{
    match (a, b) {
        (Some(x), Some(y)) => x.checked_mul(y),
        _ => None,
    }
}

pub fn ck_div_u32(a: Option<u32>, b: Option<u32>) -> (r: Option<u32>)
    ensures
        r == div_u32(a, b),
{
    match (a, b) {
        (Some(x), Some(y)) => x.checked_div(y),
        _ => None,
    }
}

} // verus!
