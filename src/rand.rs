//! Random value generators built on the thread-local generator of the `rand` crate.

use std::ops::{Range, RangeInclusive};
use vstd::prelude::*;

verus! {

/// Integer types that can be drawn uniformly from a range.
pub trait UniformInt: Sized + Copy {
    /// The mathematical value of an integer of this type.
    spec fn value(&self) -> int;

    /// A value drawn uniformly from `[lo, hi]`.
    fn random_in(lo: Self, hi: Self) -> (r: Self)
        requires
            lo.value() <= hi.value(),
        ensures
            lo.value() <= r.value() <= hi.value(),
    ;

    /// A value drawn uniformly from `[lo, hi)`.
    fn random_below(lo: Self, hi: Self) -> (r: Self)
        requires
            lo.value() < hi.value(),
        ensures
            lo.value() <= r.value() < hi.value(),
    ;
}

/// Relies on rand::random_range: a value of the inclusive range `lo..=hi`, which panics
/// only when that range is empty.
#[verifier::external_body]
fn random_range_u8(lo: u8, hi: u8) -> (r: u8)
    requires
        lo <= hi,
    ensures
        lo <= r <= hi,
{
    ::rand::random_range(lo..=hi)
}

/// Relies on rand::random_range: a value of the inclusive range `lo..=hi`, which panics
/// only when that range is empty.
#[verifier::external_body]
fn random_range_u16(lo: u16, hi: u16) -> (r: u16)
    requires
        lo <= hi,
    ensures
        lo <= r <= hi,
{
    ::rand::random_range(lo..=hi)
}

/// Relies on rand::random_range: a value of the inclusive range `lo..=hi`, which panics
/// only when that range is empty.
#[verifier::external_body]
fn random_range_u32(lo: u32, hi: u32) -> (r: u32)
    requires
        lo <= hi,
    ensures
        lo <= r <= hi,
{
    ::rand::random_range(lo..=hi)
}

/// Relies on rand::random_range: a value of the inclusive range `lo..=hi`, which panics
/// only when that range is empty.
#[verifier::external_body]
fn random_range_u64(lo: u64, hi: u64) -> (r: u64)
    requires
        lo <= hi,
    ensures
        lo <= r <= hi,
{
    ::rand::random_range(lo..=hi)
}

/// Relies on rand::random_range: a value of the inclusive range `lo..=hi`, which panics
/// only when that range is empty.
#[verifier::external_body]
fn random_range_u128(lo: u128, hi: u128) -> (r: u128)
    requires
        lo <= hi,
    ensures
        lo <= r <= hi,
{
    ::rand::random_range(lo..=hi)
}

/// Relies on rand::random_range: a value of the inclusive range `lo..=hi`, which panics
/// only when that range is empty.
#[verifier::external_body]
fn random_range_usize(lo: usize, hi: usize) -> (r: usize)
    requires
        lo <= hi,
    ensures
        lo <= r <= hi,
{
    ::rand::random_range(lo..=hi)
}

/// Relies on rand::random_range: a value of the inclusive range `lo..=hi`, which panics
/// only when that range is empty.
#[verifier::external_body]
fn random_range_i8(lo: i8, hi: i8) -> (r: i8)
    requires
        lo <= hi,
    ensures
        lo <= r <= hi,
{
    ::rand::random_range(lo..=hi)
}

/// Relies on rand::random_range: a value of the inclusive range `lo..=hi`, which panics
/// only when that range is empty.
#[verifier::external_body]
fn random_range_i16(lo: i16, hi: i16) -> (r: i16)
    requires
        lo <= hi,
    ensures
        lo <= r <= hi,
{
    ::rand::random_range(lo..=hi)
}

/// Relies on rand::random_range: a value of the inclusive range `lo..=hi`, which panics
/// only when that range is empty.
#[verifier::external_body]
fn random_range_i32(lo: i32, hi: i32) -> (r: i32)
    requires
        lo <= hi,
    ensures
        lo <= r <= hi,
{
    ::rand::random_range(lo..=hi)
}

/// Relies on rand::random_range: a value of the inclusive range `lo..=hi`, which panics
/// only when that range is empty.
#[verifier::external_body]
fn random_range_i64(lo: i64, hi: i64) -> (r: i64)
    requires
        lo <= hi,
    ensures
        lo <= r <= hi,
{
    ::rand::random_range(lo..=hi)
}

/// Relies on rand::random_range: a value of the inclusive range `lo..=hi`, which panics
/// only when that range is empty.
#[verifier::external_body]
fn random_range_i128(lo: i128, hi: i128) -> (r: i128)
    requires
        lo <= hi,
    ensures
        lo <= r <= hi,
{
    ::rand::random_range(lo..=hi)
}

impl UniformInt for u8 {
    open spec fn value(&self) -> int {
        *self as int
    }

    fn random_in(lo: u8, hi: u8) -> (r: u8) {
        random_range_u8(lo, hi)
    }

    fn random_below(lo: u8, hi: u8) -> (r: u8) {
        random_range_u8(lo, hi - 1)
    }
}

impl UniformInt for u16 {
    open spec fn value(&self) -> int {
        *self as int
    }

    fn random_in(lo: u16, hi: u16) -> (r: u16) {
        random_range_u16(lo, hi)
    }

    fn random_below(lo: u16, hi: u16) -> (r: u16) {
        random_range_u16(lo, hi - 1)
    }
}

impl UniformInt for u32 {
    open spec fn value(&self) -> int {
        *self as int
    }

    fn random_in(lo: u32, hi: u32) -> (r: u32) {
        random_range_u32(lo, hi)
    }

    fn random_below(lo: u32, hi: u32) -> (r: u32) {
        random_range_u32(lo, hi - 1)
    }
}

impl UniformInt for u64 {
    open spec fn value(&self) -> int {
        *self as int
    }

    fn random_in(lo: u64, hi: u64) -> (r: u64) {
        random_range_u64(lo, hi)
    }

    fn random_below(lo: u64, hi: u64) -> (r: u64) {
        random_range_u64(lo, hi - 1)
    }
}

impl UniformInt for u128 {
    open spec fn value(&self) -> int {
        *self as int
    }

    fn random_in(lo: u128, hi: u128) -> (r: u128) {
        random_range_u128(lo, hi)
    }

    fn random_below(lo: u128, hi: u128) -> (r: u128) {
        random_range_u128(lo, hi - 1)
    }
}

impl UniformInt for usize {
    open spec fn value(&self) -> int {
        *self as int
    }

    fn random_in(lo: usize, hi: usize) -> (r: usize) {
        random_range_usize(lo, hi)
    }

    fn random_below(lo: usize, hi: usize) -> (r: usize) {
        random_range_usize(lo, hi - 1)
    }
}

impl UniformInt for i8 {
    open spec fn value(&self) -> int {
        *self as int
    }

    fn random_in(lo: i8, hi: i8) -> (r: i8) {
        random_range_i8(lo, hi)
    }

    fn random_below(lo: i8, hi: i8) -> (r: i8) {
        random_range_i8(lo, hi - 1)
    }
}

impl UniformInt for i16 {
    open spec fn value(&self) -> int {
        *self as int
    }

    fn random_in(lo: i16, hi: i16) -> (r: i16) {
        random_range_i16(lo, hi)
    }

    fn random_below(lo: i16, hi: i16) -> (r: i16) {
        random_range_i16(lo, hi - 1)
    }
}

impl UniformInt for i32 {
    open spec fn value(&self) -> int {
        *self as int
    }

    fn random_in(lo: i32, hi: i32) -> (r: i32) {
        random_range_i32(lo, hi)
    }

    fn random_below(lo: i32, hi: i32) -> (r: i32) {
        random_range_i32(lo, hi - 1)
    }
}

impl UniformInt for i64 {
    open spec fn value(&self) -> int {
        *self as int
    }

    fn random_in(lo: i64, hi: i64) -> (r: i64) {
        random_range_i64(lo, hi)
    }

    fn random_below(lo: i64, hi: i64) -> (r: i64) {
        random_range_i64(lo, hi - 1)
    }
}

impl UniformInt for i128 {
    open spec fn value(&self) -> int {
        *self as int
    }

    fn random_in(lo: i128, hi: i128) -> (r: i128) {
        random_range_i128(lo, hi)
    }

    fn random_below(lo: i128, hi: i128) -> (r: i128) {
        random_range_i128(lo, hi - 1)
    }
}

/// Relies on RangeInclusive::into_inner: the bounds the range was built with.
#[verifier::external_body]
fn inclusive_bounds<T>(range: RangeInclusive<T>) -> (r: (T, T))
    ensures
        r.0 == range@.start,
        r.1 == range@.end,
{
    range.into_inner()
}

/// Draws a value uniformly from the half-open range `range`.
///
/// The range must not be empty.
pub fn generate_range<T: UniformInt>(range: Range<T>) -> (r: T)
    requires
        range.start.value() < range.end.value(),
    ensures
        range.start.value() <= r.value() < range.end.value(),
{
    T::random_below(range.start, range.end)
}

/// Draws a value uniformly from the inclusive range `range`.
///
/// The range must not be empty.
pub fn generate_range_inclusive<T: UniformInt>(range: RangeInclusive<T>) -> (r: T)
    requires
        range@.start.value() <= range@.end.value(),
    ensures
        range@.start.value() <= r.value() <= range@.end.value(),
{
    let (lo, hi) = inclusive_bounds(range);
    T::random_in(lo, hi)
}

/// Whether `c` is one of the 62 symbols `A`-`Z`, `a`-`z`, `0`-`9`.
pub open spec fn is_alphanumeric(c: char) -> bool {
    ('A' <= c && c <= 'Z') || ('a' <= c && c <= 'z') || ('0' <= c && c <= '9')
}

/// Whether every character of `s` is alphanumeric.
pub open spec fn all_alphanumeric(s: Seq<char>) -> bool {
    forall|i: int| 0 <= i < s.len() ==> is_alphanumeric(#[trigger] s[i])
}

/// Relies on rand::distr::Alphanumeric, sampled with the thread-local generator:
/// a byte of `A`-`Z`, `a`-`z`, `0`-`9`.
#[verifier::external_body]
fn random_alphanumeric() -> (r: char)
    ensures
        is_alphanumeric(r),
{
    char::from(::rand::Rng::sample(&mut ::rand::rng(), ::rand::distr::Alphanumeric))
}

/// Relies on String::push: appends one character at the end.
#[verifier::external_body]
fn push_char(s: &mut String, c: char)
    ensures
        final(s)@ == old(s)@.push(c),
{
    s.push(c)
}

/// Draws a value uniformly over the whole domain of `T`.
///
/// Relies on rand::random, which promises nothing about the value drawn.
#[verifier::external_body]
pub fn generate<T>() -> T
    where
        ::rand::distr::StandardUniform: ::rand::distr::Distribution<T>,
{
    ::rand::random::<T>()
}

/// Draws `length` independent uniform bytes.
pub fn generate_bytes(length: usize) -> (r: Vec<u8>)
    ensures
        r@.len() == length,
{
    let mut bytes: Vec<u8> = Vec::with_capacity(length);
    let mut i: usize = 0;
    while i < length
        invariant
            i <= length,
            bytes@.len() == i,
        decreases length - i,
    {
        bytes.push(generate::<u8>());
        i = i + 1;
    }
    bytes
}

/// Draws a string of `length` independent characters, each uniform over
/// `A`-`Z`, `a`-`z`, `0`-`9`.
pub fn generate_alphanumeric(length: usize) -> (r: String)
    ensures
        r@.len() == length,
        all_alphanumeric(r@),
{
    let mut s = String::new();
    let mut i: usize = 0;
    while i < length
        invariant
            i <= length,
            s@.len() == i,
            all_alphanumeric(s@),
        decreases length - i,
    {
        let c = random_alphanumeric();
        push_char(&mut s, c);
        i = i + 1;
    }
    s
}

/// A candidate for a fresh name: `length` random alphanumeric characters.
///
/// A name must have at least one character.
pub fn propose_name(length: usize) -> (r: String)
    requires
        length > 0,
    ensures
        r@.len() == length,
        all_alphanumeric(r@),
{
    generate_alphanumeric(length)
}

/// What a lookup of a candidate name in the namespace found.
pub enum Lookup {
    /// No entry has that name.
    Absent,
    /// An entry of that name exists.
    Present,
    /// The lookup itself failed.
    Failed,
}

/// What the name search does with a candidate.
pub enum NameStep {
    /// The name is free: the search ends with it.
    Use(String),
    /// The name is taken: a new candidate is drawn.
    Retry,
    /// The lookup failed: the search ends with its error.
    Fail,
}

/// Settles a candidate name given what its lookup found: a free name is used, a
/// taken one is drawn again, and a failed lookup ends the search.
pub fn accept_name(candidate: String, lookup: Lookup) -> (r: NameStep)
    ensures
        lookup is Absent ==> r == NameStep::Use(candidate),
        lookup is Present ==> r is Retry,
        lookup is Failed ==> r is Fail,
{
    match lookup {
        Lookup::Absent => NameStep::Use(candidate),
        Lookup::Present => NameStep::Retry,
        Lookup::Failed => NameStep::Fail,
    }
}

} // verus!
