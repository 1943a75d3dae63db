use vstd::prelude::*;

verus! {

/// What a matrix needs of its element type: the constants zero and one, addition,
/// subtraction and multiplication where the result is representable, and a
/// debug-style textual form.
pub trait Scalar: Copy + Sized {
    spec fn zero_spec() -> Self;

    spec fn one_spec() -> Self;

    spec fn add_spec(a: Self, b: Self) -> Self;

    spec fn sub_spec(a: Self, b: Self) -> Self;

    spec fn mul_spec(a: Self, b: Self) -> Self;

    /// `a + b` is representable in the type.
    spec fn add_ok(a: Self, b: Self) -> bool;

    /// `a - b` is representable in the type.
    spec fn sub_ok(a: Self, b: Self) -> bool;

    /// `a * b` is representable in the type.
    spec fn mul_ok(a: Self, b: Self) -> bool;

    /// The debug-style rendering of a value.
    spec fn text_spec(a: Self) -> Seq<char>;

    fn zero() -> (r: Self)
        ensures
            r == Self::zero_spec(),
    ;

    fn one() -> (r: Self)
        ensures
            r == Self::one_spec(),
    ;

    fn can_add(a: Self, b: Self) -> (r: bool)
        ensures
            r == Self::add_ok(a, b),
    ;

    fn can_sub(a: Self, b: Self) -> (r: bool)
        ensures
            r == Self::sub_ok(a, b),
    ;

    fn can_mul(a: Self, b: Self) -> (r: bool)
        ensures
            r == Self::mul_ok(a, b),
    ;

    fn plus(a: Self, b: Self) -> (r: Self)
        requires
            Self::add_ok(a, b),
        ensures
            r == Self::add_spec(a, b),
    ;

    fn minus(a: Self, b: Self) -> (r: Self)
        requires
            Self::sub_ok(a, b),
        ensures
            r == Self::sub_spec(a, b),
    ;

    fn times(a: Self, b: Self) -> (r: Self)
        requires
            Self::mul_ok(a, b),
        ensures
            r == Self::mul_spec(a, b),
    ;

    fn to_text(a: Self) -> (r: String)
        ensures
            r@ == Self::text_spec(a),
    ;

    /// Subtracting what was just added gives back the starting value.
    proof fn lemma_add_sub_cancel(a: Self, b: Self)
        requires
            Self::add_ok(a, b),
        ensures
            Self::sub_ok(Self::add_spec(a, b), b),
            Self::sub_spec(Self::add_spec(a, b), b) == a,
    ;
}

/// The text that `{:?}` gives for an `i32`.
pub uninterp spec fn debug_text_i32(x: i32) -> Seq<char>;

/// The text that `{:?}` gives for an `i64`.
pub uninterp spec fn debug_text_i64(x: i64) -> Seq<char>;

/// The text that `{:?}` gives for a `u64`.
pub uninterp spec fn debug_text_u64(x: u64) -> Seq<char>;

/// Relies on `Debug for i32` (through `format!`): the text depends on the value alone.
#[verifier::external_body]
fn format_i32(x: i32) -> (r: String)
    ensures
        r@ == debug_text_i32(x),
{
    format!("{:?}", x)
}

/// Relies on `Debug for i64` (through `format!`): the text depends on the value alone.
#[verifier::external_body]
fn format_i64(x: i64) -> (r: String)
    ensures
        r@ == debug_text_i64(x),
{
    format!("{:?}", x)
}

/// Relies on `Debug for u64` (through `format!`): the text depends on the value alone.
#[verifier::external_body]
fn format_u64(x: u64) -> (r: String)
    ensures
        r@ == debug_text_u64(x),
{
    format!("{:?}", x)
}

impl Scalar for i32 {
    open spec fn zero_spec() -> i32 {
        0
    }

    open spec fn one_spec() -> i32 {
        1
    }

    open spec fn add_spec(a: i32, b: i32) -> i32 {
        (a + b) as i32
    }

    open spec fn sub_spec(a: i32, b: i32) -> i32 {
        (a - b) as i32
    }

    open spec fn mul_spec(a: i32, b: i32) -> i32 {
        (a * b) as i32
    }

    open spec fn add_ok(a: i32, b: i32) -> bool {
        i32::MIN <= a + b <= i32::MAX
    }

    open spec fn sub_ok(a: i32, b: i32) -> bool {
        i32::MIN <= a - b <= i32::MAX
    }

    open spec fn mul_ok(a: i32, b: i32) -> bool {
        i32::MIN <= a * b <= i32::MAX
    }

    open spec fn text_spec(a: i32) -> Seq<char> {
        debug_text_i32(a)
    }

    fn zero() -> (r: i32) {
        0
    }

    fn one() -> (r: i32) {
        1
    }

    fn can_add(a: i32, b: i32) -> (r: bool) {
        a.checked_add(b).is_some()
    }

    fn can_sub(a: i32, b: i32) -> (r: bool) {
        a.checked_sub(b).is_some()
    }

    fn can_mul(a: i32, b: i32) -> (r: bool) {
        a.checked_mul(b).is_some()
    }

    fn plus(a: i32, b: i32) -> (r: i32) {
        a + b
    }

    fn minus(a: i32, b: i32) -> (r: i32) {
        a - b
    }

    fn times(a: i32, b: i32) -> (r: i32) {
        a * b
    }

    fn to_text(a: i32) -> (r: String) {
        format_i32(a)
    }

    proof fn lemma_add_sub_cancel(a: i32, b: i32) {
    }
}

impl Scalar for i64 {
    open spec fn zero_spec() -> i64 {
        0
    }

    open spec fn one_spec() -> i64 {
        1
    }

    open spec fn add_spec(a: i64, b: i64) -> i64 {
        (a + b) as i64
    }

    open spec fn sub_spec(a: i64, b: i64) -> i64 {
        (a - b) as i64
    }

    open spec fn mul_spec(a: i64, b: i64) -> i64 {
        (a * b) as i64
    }

    open spec fn add_ok(a: i64, b: i64) -> bool {
        i64::MIN <= a + b <= i64::MAX
    }

    open spec fn sub_ok(a: i64, b: i64) -> bool {
        i64::MIN <= a - b <= i64::MAX
    }

    open spec fn mul_ok(a: i64, b: i64) -> bool {
        i64::MIN <= a * b <= i64::MAX
    }

    open spec fn text_spec(a: i64) -> Seq<char> {
        debug_text_i64(a)
    }

    fn zero() -> (r: i64) {
        0
    }

    fn one() -> (r: i64) {
        1
    }

    fn can_add(a: i64, b: i64) -> (r: bool) {
        a.checked_add(b).is_some()
    }

    fn can_sub(a: i64, b: i64) -> (r: bool) {
        a.checked_sub(b).is_some()
    }

    fn can_mul(a: i64, b: i64) -> (r: bool) {
        a.checked_mul(b).is_some()
    }

    fn plus(a: i64, b: i64) -> (r: i64) {
        a + b
    }

    fn minus(a: i64, b: i64) -> (r: i64) {
        a - b
    }

    fn times(a: i64, b: i64) -> (r: i64) {
        a * b
    }

    fn to_text(a: i64) -> (r: String) {
        format_i64(a)
    }

    proof fn lemma_add_sub_cancel(a: i64, b: i64) {
    }
}

impl Scalar for u64 {
    open spec fn zero_spec() -> u64 {
        0
    }

    open spec fn one_spec() -> u64 {
        1
    }

    open spec fn add_spec(a: u64, b: u64) -> u64 {
        (a + b) as u64
    }

    open spec fn sub_spec(a: u64, b: u64) -> u64 {
        (a - b) as u64
    }

    open spec fn mul_spec(a: u64, b: u64) -> u64 {
        (a * b) as u64
    }

    open spec fn add_ok(a: u64, b: u64) -> bool {
        a + b <= u64::MAX
    }

    open spec fn sub_ok(a: u64, b: u64) -> bool {
        a >= b
    }

    open spec fn mul_ok(a: u64, b: u64) -> bool {
        a * b <= u64::MAX
    }

    open spec fn text_spec(a: u64) -> Seq<char> {
        debug_text_u64(a)
    }

    fn zero() -> (r: u64) {
        0
    }

    fn one() -> (r: u64) {
        1
    }

    fn can_add(a: u64, b: u64) -> (r: bool) {
        a.checked_add(b).is_some()
    }

    fn can_sub(a: u64, b: u64) -> (r: bool) {
        a.checked_sub(b).is_some()
    }

    fn can_mul(a: u64, b: u64) -> (r: bool) {
        a.checked_mul(b).is_some()
    }

    fn plus(a: u64, b: u64) -> (r: u64) {
        a + b
    }

    fn minus(a: u64, b: u64) -> (r: u64) {
        a - b
    }

    fn times(a: u64, b: u64) -> (r: u64) {
        a * b
    }

    fn to_text(a: u64) -> (r: String) {
        format_u64(a)
    }

    proof fn lemma_add_sub_cancel(a: u64, b: u64) {
    }
}

} // verus!
