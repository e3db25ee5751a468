//! The assertions of the Rust half: what the macros that it starts with refuse.

use crate::def::SpecModel;
use crate::halves::{rust_half, Setting};
use crate::holding::{holds, lemma_holds_nothing, lemma_holds_step};
use crate::linking::{lemma_half_has_prelude, lemma_inside_holds};
use crate::rust_templates::PRELUDE;
use vstd::prelude::*;

verus! {

/// Refuses a type that is not `Copy`.
pub open spec fn asserts_copy() -> Seq<char> {
    r#"macro_rules! __zngur_assert_is_copy {
    ($x:ty $(,)?) => {
        const _: () = {
            const fn static_assert_is_copy<T: Copy>() {}
            static_assert_is_copy::<$x>();"#@
}

/// Refuses a type of another size.
pub open spec fn asserts_size() -> Seq<char> {
    r#"macro_rules! __zngur_assert_size {
    ($x:ty, $size:expr $(,)?) => {
        const _: () = ::core::assert!(
            $size == ::core::mem::size_of::<$x>(),"#@
}

/// Refuses a type of another alignment.
pub open spec fn asserts_align() -> Seq<char> {
    r#"macro_rules! __zngur_assert_align {
    ($x:ty, $align:expr $(,)?) => {
        const _: () = ::core::assert!(
            $align == ::core::mem::align_of::<$x>(),"#@
}

/// Refuses a type of a larger size.
pub open spec fn asserts_size_at_most() -> Seq<char> {
    r#"macro_rules! __zngur_assert_size_conservative {
    ($x:ty, $size:expr $(,)?) => {
        const _: () = ::core::assert!(
            $size >= ::core::mem::size_of::<$x>(),"#@
}

/// Refuses a type of a larger alignment.
pub open spec fn asserts_align_at_most() -> Seq<char> {
    r#"macro_rules! __zngur_assert_align_conservative {
    ($x:ty, $align:expr $(,)?) => {
        const _: () = ::core::assert!(
            $align >= ::core::mem::align_of::<$x>(),"#@
}

/// Refuses a type without the field, or with one of another type.
pub open spec fn asserts_has_field() -> Seq<char> {
    r#"macro_rules! __zngur_assert_has_field {
    ($x:ty, $y:ty, $($field:tt)+ $(,)?) => {
        const _: () = {
            #[allow(dead_code)]
            #[allow(mismatched_lifetime_syntaxes)]
            fn check_field(value: $x) -> $y {
                value.$($field)+"#@
}

/// Refuses a field at another offset.
pub open spec fn asserts_offset() -> Seq<char> {
    r#"macro_rules! __zngur_assert_field_offset {
    ($x:ty, $offset:expr, $($field:tt)+ $(,)?) => {
        const _: () = ::core::assert!(
            $offset == ::core::mem::offset_of!($x, $($field)+),"#@
}

#[verifier::rlimit(100)]
#[verifier::spinoff_prover]
proof fn lemma_prelude()
    ensures
        PRELUDE@.len() == 5911,
        PRELUDE@.subrange(2532, 2716) == asserts_copy(),
        PRELUDE@.subrange(2738, 2897) == asserts_size(),
        PRELUDE@.subrange(3260, 3423) == asserts_align(),
        PRELUDE@.subrange(3790, 3962) == asserts_size_at_most(),
        PRELUDE@.subrange(4365, 4541) == asserts_align_at_most(),
        PRELUDE@.subrange(4949, 5219) == asserts_has_field(),
        PRELUDE@.subrange(5255, 5452) == asserts_offset(),
{
    reveal_strlit(r#"
macro_rules! __zngur_str_as_array {
    ($s:expr) => {{
        const VAL: &str = $s;
        // SAFETY: `VAL` has at least size `N` because it's const len is right there.
        const ARR: [u8; VAL.len()] = unsafe { *(VAL.as_bytes() as *const [u8]).cast() };
        ARR
    }};
}

pub const fn __zngur_usize_num_digits(val: usize) -> usize {
    // docs currently say 64bit only but that's a bug
    if val == 0 { 1 } else { val.ilog10() as usize + 1 }
}

pub const fn __zngur_usize_digit(val: usize, digit: usize) -> u8 {
    let mut temp = val;
    let mut i = 0;
    while i < digit {
        temp /= 10;
        i += 1;
    }
    if temp == 0 && val > 0 {
        ::core::panic!("no such digit!")
    } else {
        (temp % 10) as u8
    }
}

pub const fn __zngur_digit_to_ascii(digit: u8) -> u8 {
    ::core::assert!(digit <= 9);
    digit + b'0'
}

pub const fn __zngur_usize_to_digit_array<const N: usize>(val: usize) -> [u8; N] {
    let mut arr: [u8; N] = [0; N];
    let mut i = 0;
    while i < N {
        arr[N - 1 - i] = __zngur_digit_to_ascii(__zngur_usize_digit(val, i));
        i += 1;
    }
    arr
}

macro_rules! __zngur_usize_to_str {
    ($x:expr) => {{
        const VAL: usize = $x;
        const ARR: [u8; __zngur_usize_num_digits(VAL)] = __zngur_usize_to_digit_array(VAL);
        // SAFETY: `ARR` is an ascii byte array which is utf8 compliant
        const STR: &str = unsafe { str::from_utf8_unchecked(&ARR) };
        STR
    }};
}

pub const fn __zngur_const_str_array_concat<const T: usize, const N: usize, const M: usize>(
    x: [u8; N],
    y: [u8; M],
) -> [u8; T] {
    ::core::assert!(N + M == T);
    let mut arr: [u8; T] = [0; T];
    let mut i = 0;
    while i < N {
        arr[i] = x[i];
        i += 1;
    }
    while i - N < M {
        arr[i] = y[i - N];
        i += 1;
    }
    arr
}

macro_rules! __zngur_const_str_concat {

    ( $x:expr, $y:expr $(,)? ) => {{
        const X: &str = $x;
        const Y: &str = $y;
        const LEN: usize = X.len() + Y.len();
        const ARR: [u8; LEN] = __zngur_const_str_array_concat::<LEN, {X.len()}, {Y.len()}>(
            __zngur_str_as_array!(X),
            __zngur_str_as_array!(Y),
        );
        // SAFETY: `ARR` is an concatenated utf8 byte array built from validated `const str&`
        const STR: &str =  unsafe { str::from_utf8_unchecked(&ARR) };
        STR
    }};
    ( $x:expr, $y:expr, $($rest:expr),+ $(,)? ) => {
        __zngur_const_str_concat!($x, __zngur_const_str_concat!( $y, $($rest),+ ))
    };

}

macro_rules! __zngur_assert_is_copy {
    ($x:ty $(,)?) => {
        const _: () = {
            const fn static_assert_is_copy<T: Copy>() {}
            static_assert_is_copy::<$x>();
        };
    };
}

macro_rules! __zngur_assert_size {
    ($x:ty, $size:expr $(,)?) => {
        const _: () = ::core::assert!(
            $size == ::core::mem::size_of::<$x>(),
            "{}",
            __zngur_const_str_concat!(
                "zngur declared size of ",
                stringify!($x),
                " is incorrect: expected ",
                __zngur_usize_to_str!($size),
                " , real size is ",
                __zngur_usize_to_str!(::core::mem::size_of::<$x>()),
            )
        );
    };
}

macro_rules! __zngur_assert_align {
    ($x:ty, $align:expr $(,)?) => {
        const _: () = ::core::assert!(
            $align == ::core::mem::align_of::<$x>(),
            "{}",
            __zngur_const_str_concat!(
                "zngur declared align of ",
                stringify!($x),
                " is incorrect: expected ",
                __zngur_usize_to_str!($align),
                " , real align is ",
                __zngur_usize_to_str!(::core::mem::align_of::<$x>()),
            )
        );
    };
}

macro_rules! __zngur_assert_size_conservative {
    ($x:ty, $size:expr $(,)?) => {
        const _: () = ::core::assert!(
            $size >= ::core::mem::size_of::<$x>(),
            "{}",
            __zngur_const_str_concat!(
                "zngur declared conservative size of ",
                stringify!($x),
                " is incorrect: expected size less than or equal to ",
                __zngur_usize_to_str!($size),
                " , real size is ",
                __zngur_usize_to_str!(::core::mem::size_of::<$x>()),
            )
        );
    };
}

macro_rules! __zngur_assert_align_conservative {
    ($x:ty, $align:expr $(,)?) => {
        const _: () = ::core::assert!(
            $align >= ::core::mem::align_of::<$x>(),
            "{}",
            __zngur_const_str_concat!(
                "zngur declared conservative align of ",
                stringify!($x),
                " is incorrect: expected align less than or equal to ",
                __zngur_usize_to_str!($align),
                " , real align is ",
                __zngur_usize_to_str!(::core::mem::align_of::<$x>()),
            )
        );
    };
}

macro_rules! __zngur_assert_has_field {
    ($x:ty, $y:ty, $($field:tt)+ $(,)?) => {
        const _: () = {
            #[allow(dead_code)]
            #[allow(mismatched_lifetime_syntaxes)]
            fn check_field(value: $x) -> $y {
                value.$($field)+
            }
        };
    };
}

macro_rules! __zngur_assert_field_offset {
    ($x:ty, $offset:expr, $($field:tt)+ $(,)?) => {
        const _: () = ::core::assert!(
            $offset == ::core::mem::offset_of!($x, $($field)+),
            "{}",
            __zngur_const_str_concat!(
                "zngur declared offset of field ",
                stringify!($($field)+),
                " in ",
                stringify!($x),
                " is incorrect: expected offset of ",
                __zngur_usize_to_str!($offset),
                " , real offset is ",
                __zngur_usize_to_str!(::core::mem::offset_of!($x, $($field)+)),
            )
        );
    };
}
"#);
    reveal_strlit(r#"macro_rules! __zngur_assert_is_copy {
    ($x:ty $(,)?) => {
        const _: () = {
            const fn static_assert_is_copy<T: Copy>() {}
            static_assert_is_copy::<$x>();"#);
    assert(PRELUDE@.subrange(2532, 2716) =~= asserts_copy());
    reveal_strlit(r#"macro_rules! __zngur_assert_size {
    ($x:ty, $size:expr $(,)?) => {
        const _: () = ::core::assert!(
            $size == ::core::mem::size_of::<$x>(),"#);
    assert(PRELUDE@.subrange(2738, 2897) =~= asserts_size());
    reveal_strlit(r#"macro_rules! __zngur_assert_align {
    ($x:ty, $align:expr $(,)?) => {
        const _: () = ::core::assert!(
            $align == ::core::mem::align_of::<$x>(),"#);
    assert(PRELUDE@.subrange(3260, 3423) =~= asserts_align());
    reveal_strlit(r#"macro_rules! __zngur_assert_size_conservative {
    ($x:ty, $size:expr $(,)?) => {
        const _: () = ::core::assert!(
            $size >= ::core::mem::size_of::<$x>(),"#);
    assert(PRELUDE@.subrange(3790, 3962) =~= asserts_size_at_most());
    reveal_strlit(r#"macro_rules! __zngur_assert_align_conservative {
    ($x:ty, $align:expr $(,)?) => {
        const _: () = ::core::assert!(
            $align >= ::core::mem::align_of::<$x>(),"#);
    assert(PRELUDE@.subrange(4365, 4541) =~= asserts_align_at_most());
    reveal_strlit(r#"macro_rules! __zngur_assert_has_field {
    ($x:ty, $y:ty, $($field:tt)+ $(,)?) => {
        const _: () = {
            #[allow(dead_code)]
            #[allow(mismatched_lifetime_syntaxes)]
            fn check_field(value: $x) -> $y {
                value.$($field)+"#);
    assert(PRELUDE@.subrange(4949, 5219) =~= asserts_has_field());
    reveal_strlit(r#"macro_rules! __zngur_assert_field_offset {
    ($x:ty, $offset:expr, $($field:tt)+ $(,)?) => {
        const _: () = ::core::assert!(
            $offset == ::core::mem::offset_of!($x, $($field)+),"#);
    assert(PRELUDE@.subrange(5255, 5452) =~= asserts_offset());
}

/// A text from one place on is what stands up to another, a part there, and the
/// text behind it.
proof fn lemma_from(text: Seq<char>, from: int, at: int, to: int)
    requires
        0 <= from <= at <= to <= text.len(),
    ensures
        text.skip(from) == text.subrange(from, at) + (text.subrange(at, to) + text.skip(to)),
{
    assert(text.skip(from) =~= text.subrange(from, at) + (text.subrange(at, to) + text.skip(to)));
}

/// What the macros of the Rust half refuse: a type of another size or alignment
/// than the declared ones, of a larger one than those that are declared to be
/// enough, one that is not `Copy`, and a field that is missing or elsewhere.
pub proof fn law_assertions_refuse_what_is_wrong()
    ensures
        holds(PRELUDE@, assertions()),
{
    lemma_prelude();
    let t = PRELUDE@;
    let parts = assertions();
    lemma_holds_nothing(t.skip(5452), parts);
    lemma_from(t, 5219, 5255, 5452);
    lemma_holds_step(t.skip(5219), t.subrange(5219, 5255), t.skip(5452), parts, 6);
    lemma_from(t, 4541, 4949, 5219);
    lemma_holds_step(t.skip(4541), t.subrange(4541, 4949), t.skip(5219), parts, 5);
    lemma_from(t, 3962, 4365, 4541);
    lemma_holds_step(t.skip(3962), t.subrange(3962, 4365), t.skip(4541), parts, 4);
    lemma_from(t, 3423, 3790, 3962);
    lemma_holds_step(t.skip(3423), t.subrange(3423, 3790), t.skip(3962), parts, 3);
    lemma_from(t, 2897, 3260, 3423);
    lemma_holds_step(t.skip(2897), t.subrange(2897, 3260), t.skip(3423), parts, 2);
    lemma_from(t, 2716, 2738, 2897);
    lemma_holds_step(t.skip(2716), t.subrange(2716, 2738), t.skip(2897), parts, 1);
    lemma_from(t, 0, 2532, 2716);
    lemma_holds_step(t.skip(0), t.subrange(0, 2532), t.skip(2716), parts, 0);
    assert(t.skip(0) =~= t);
    assert(parts.skip(0) =~= parts);
}

/// The assertions that the Rust half can make.
pub open spec fn assertions() -> Seq<Seq<char>> {
    seq![
        asserts_copy(),
        asserts_size(),
        asserts_align(),
        asserts_size_at_most(),
        asserts_align_at_most(),
        asserts_has_field(),
        asserts_offset(),
    ]
}

/// The Rust half has the macros behind its assertions.
pub proof fn law_rust_half_has_its_assertions(zng: SpecModel, s: Setting)
    ensures
        holds(rust_half(zng, s), assertions()),
{
    law_assertions_refuse_what_is_wrong();
    lemma_half_has_prelude(zng, s);
    lemma_inside_holds(rust_half(zng, s), PRELUDE@, assertions());
}

} // verus!
