//! The texts that the Rust half of an interface is made of. `$0`, `$1`, ... stand
//! for what is filled in.

use vstd::prelude::*;

verus! {

/// What every Rust half starts with: the macros behind its assertions.
pub const PRELUDE: &'static str = r#"
macro_rules! __zngur_str_as_array {
    ($s:expr) => {{
        const VAL: &str = $s;
        // SAFETY: `VAL` has at least size `N` because it's const len is right there.
        const ARR: [u8; VAL.len()] = unsafe { *(VAL.as_bytes() as *const [u8]).cast() };
        ARR
    }};
}

pub const fn __zngur_usize_num_digits(val: usize) -> usize {
    // docs currently say 64bit only but that's a bug
    if val == 0 { 1 } else { val.ilog10() as usize + 1 }
}

pub const fn __zngur_usize_digit(val: usize, digit: usize) -> u8 {
    let mut temp = val;
    let mut i = 0;
    while i < digit {
        temp /= 10;
        i += 1;
    }
    if temp == 0 && val > 0 {
        ::core::panic!("no such digit!")
    } else {
        (temp % 10) as u8
    }
}

pub const fn __zngur_digit_to_ascii(digit: u8) -> u8 {
    ::core::assert!(digit <= 9);
    digit + b'0'
}

pub const fn __zngur_usize_to_digit_array<const N: usize>(val: usize) -> [u8; N] {
    let mut arr: [u8; N] = [0; N];
    let mut i = 0;
    while i < N {
        arr[N - 1 - i] = __zngur_digit_to_ascii(__zngur_usize_digit(val, i));
        i += 1;
    }
    arr
}

macro_rules! __zngur_usize_to_str {
    ($x:expr) => {{
        const VAL: usize = $x;
        const ARR: [u8; __zngur_usize_num_digits(VAL)] = __zngur_usize_to_digit_array(VAL);
        // SAFETY: `ARR` is an ascii byte array which is utf8 compliant
        const STR: &str = unsafe { str::from_utf8_unchecked(&ARR) };
        STR
    }};
}

pub const fn __zngur_const_str_array_concat<const T: usize, const N: usize, const M: usize>(
    x: [u8; N],
    y: [u8; M],
) -> [u8; T] {
    ::core::assert!(N + M == T);
    let mut arr: [u8; T] = [0; T];
    let mut i = 0;
    while i < N {
        arr[i] = x[i];
        i += 1;
    }
    while i - N < M {
        arr[i] = y[i - N];
        i += 1;
    }
    arr
}

macro_rules! __zngur_const_str_concat {

    ( $x:expr, $y:expr $(,)? ) => {{
        const X: &str = $x;
        const Y: &str = $y;
        const LEN: usize = X.len() + Y.len();
        const ARR: [u8; LEN] = __zngur_const_str_array_concat::<LEN, {X.len()}, {Y.len()}>(
            __zngur_str_as_array!(X),
            __zngur_str_as_array!(Y),
        );
        // SAFETY: `ARR` is an concatenated utf8 byte array built from validated `const str&`
        const STR: &str =  unsafe { str::from_utf8_unchecked(&ARR) };
        STR
    }};
    ( $x:expr, $y:expr, $($rest:expr),+ $(,)? ) => {
        __zngur_const_str_concat!($x, __zngur_const_str_concat!( $y, $($rest),+ ))
    };

}

macro_rules! __zngur_assert_is_copy {
    ($x:ty $(,)?) => {
        const _: () = {
            const fn static_assert_is_copy<T: Copy>() {}
            static_assert_is_copy::<$x>();
        };
    };
}

macro_rules! __zngur_assert_size {
    ($x:ty, $size:expr $(,)?) => {
        const _: () = ::core::assert!(
            $size == ::core::mem::size_of::<$x>(),
            "{}",
            __zngur_const_str_concat!(
                "zngur declared size of ",
                stringify!($x),
                " is incorrect: expected ",
                __zngur_usize_to_str!($size),
                " , real size is ",
                __zngur_usize_to_str!(::core::mem::size_of::<$x>()),
            )
        );
    };
}

macro_rules! __zngur_assert_align {
    ($x:ty, $align:expr $(,)?) => {
        const _: () = ::core::assert!(
            $align == ::core::mem::align_of::<$x>(),
            "{}",
            __zngur_const_str_concat!(
                "zngur declared align of ",
                stringify!($x),
                " is incorrect: expected ",
                __zngur_usize_to_str!($align),
                " , real align is ",
                __zngur_usize_to_str!(::core::mem::align_of::<$x>()),
            )
        );
    };
}

macro_rules! __zngur_assert_size_conservative {
    ($x:ty, $size:expr $(,)?) => {
        const _: () = ::core::assert!(
            $size >= ::core::mem::size_of::<$x>(),
            "{}",
            __zngur_const_str_concat!(
                "zngur declared conservative size of ",
                stringify!($x),
                " is incorrect: expected size less than or equal to ",
                __zngur_usize_to_str!($size),
                " , real size is ",
                __zngur_usize_to_str!(::core::mem::size_of::<$x>()),
            )
        );
    };
}

macro_rules! __zngur_assert_align_conservative {
    ($x:ty, $align:expr $(,)?) => {
        const _: () = ::core::assert!(
            $align >= ::core::mem::align_of::<$x>(),
            "{}",
            __zngur_const_str_concat!(
                "zngur declared conservative align of ",
                stringify!($x),
                " is incorrect: expected align less than or equal to ",
                __zngur_usize_to_str!($align),
                " , real align is ",
                __zngur_usize_to_str!(::core::mem::align_of::<$x>()),
            )
        );
    };
}

macro_rules! __zngur_assert_has_field {
    ($x:ty, $y:ty, $($field:tt)+ $(,)?) => {
        const _: () = {
            #[allow(dead_code)]
            #[allow(mismatched_lifetime_syntaxes)]
            fn check_field(value: $x) -> $y {
                value.$($field)+
            }
        };
    };
}

macro_rules! __zngur_assert_field_offset {
    ($x:ty, $offset:expr, $($field:tt)+ $(,)?) => {
        const _: () = ::core::assert!(
            $offset == ::core::mem::offset_of!($x, $($field)+),
            "{}",
            __zngur_const_str_concat!(
                "zngur declared offset of field ",
                stringify!($($field)+),
                " in ",
                stringify!($x),
                " is incorrect: expected offset of ",
                __zngur_usize_to_str!($offset),
                " , real offset is ",
                __zngur_usize_to_str!(::core::mem::offset_of!($x, $($field)+)),
            )
        );
    };
}
"#;

/// Makes a boxed trait object of C++ data. $0: the link name; $1: the trait.
pub const TRAIT_BOX_OPEN: &'static str = r#"
#[allow(non_snake_case)]
#[unsafe(no_mangle)]
pub extern "C" fn $0(
    data: *mut u8,
    destructor: extern "C" fn(*mut u8),
    o: *mut u8,
) {
    struct Wrapper { 
        data: *mut u8,
        destructor: extern "C" fn(*mut u8),
    }
    impl Drop for Wrapper {
        fn drop(&mut self) {
            (self.destructor)(self.data)
        }
    }
    impl $1 for Wrapper {

"#;

/// $0: the trait with its associated types.
pub const TRAIT_BOX_CLOSE: &'static str = r#"
    }
    unsafe { 
        let this = Wrapper {
            data,
            destructor,
        };
        let r: Box<dyn $0> = Box::new(this);
        std::ptr::write(o as *mut _, r)
    }
}
"#;

/// Makes a reference to a trait object of C++ data. $0: the link name; $1: the trait.
pub const TRAIT_REF_OPEN: &'static str = r#"
#[allow(non_snake_case)]
#[unsafe(no_mangle)]
pub extern "C" fn $0(
    data: *mut u8,
    o: *mut u8,
) {
    struct Wrapper(());
    impl $1 for Wrapper {

"#;

/// $0: the trait with its associated types.
pub const TRAIT_REF_CLOSE: &'static str = r#"
    }
    unsafe { 
        let this = data as *mut Wrapper;
        let r: &dyn $0 = &*this;
        std::ptr::write(o as *mut _, r)
    }
}
"#;

/// Makes a boxed closure of C++ data. $0: the link name; $1: the raw inputs; $2: the
/// trait; $3: the inputs.
pub const CLOSURE_OPEN: &'static str = r#"
#[allow(non_snake_case)]
#[unsafe(no_mangle)]
pub extern "C" fn $0(
    data: *mut u8,
    destructor: extern "C" fn(*mut u8),
    call: extern "C" fn(data: *mut u8, $1 o: *mut u8),
    o: *mut u8,
) {
    struct ClosureData {
        data: *mut u8,
        destructor: extern "C" fn(*mut u8),
    }
    impl Drop for ClosureData {
        fn drop(&mut self) {
            (self.destructor)(self.data)
        }
    }
    let this = ClosureData { data, destructor };
    let r: Box<dyn $2> = Box::new(move |$3| unsafe {
        _ = &this;
        let data = this.data;

"#;

/// The end of a boxed closure.
pub const CLOSURE_CLOSE: &'static str = r#"
    });
    unsafe { std::ptr::write(o as *mut _, r) }
}
"#;

/// The head of a function that C++ calls. $0: its link name.
pub const EXTERN_FN_OPEN: &'static str = r#"
#[allow(non_snake_case)]
#[unsafe(no_mangle)]
pub extern "C" fn $0("#;

/// Between the inputs and the fields of a tuple constructor.
pub const TUPLE_WRITE: &'static str = r#"o: *mut u8) { unsafe {
    ::std::ptr::write(o as *mut _, ("#;

/// Between the inputs and the fields of a constructor. $0: the type or variant.
pub const STRUCT_WRITE: &'static str = r#"o: *mut u8) { unsafe {
    ::std::ptr::write(o as *mut _, $0 { "#;

/// Tells whether a value is of a variant. $0: the link name; $1: the variant.
pub const MATCH_CHECK: &'static str = r#"
#[allow(non_snake_case)]
#[unsafe(no_mangle)]
pub extern "C" fn $0(i: *mut u8, o: *mut u8) { unsafe {
    *o = matches!(&*(i as *mut &_), $1 { .. }) as u8;
} }"#;

/// Tells the number of the variant of a value. $0: the link name; $1: the type.
pub const DISCRIMINANT_OPEN: &'static str = r#"
#[allow(non_snake_case)]
#[unsafe(no_mangle)]
pub extern "C" fn $0(i: *mut u8) -> u32 { unsafe {
    match &*(i as *mut $1 as *const _) {"#;

/// $0: the type; $1: the variant; $2: its number.
pub const DISCRIMINANT_ARM: &'static str = r#"
        $0::$1 { .. } => $2,
        "#;

/// The end of a discriminant function.
pub const DISCRIMINANT_CLOSE: &'static str = r#"
    }
} }
            "#;

/// The offset of a field. $0: the link name; $1: the type; $2: the field.
pub const FIELD_OFFSET: &'static str = r#"
#[allow(non_snake_case)]
#[unsafe(no_mangle)]
pub static $0: usize = ::std::mem::offset_of!($1, $2);
                
"#;

/// The offset of a field of a variant. $0: the link name; $1: the type; $2: the variant;
/// $3: the field.
pub const VARIANT_FIELD_OFFSET: &'static str = r#"
#[allow(non_snake_case)]
#[unsafe(no_mangle)]
pub extern "C" fn $0(i: *const u8) -> usize { unsafe {
    let base = &*(i as *const $1);
    match base {
        $1::$2 { $3: f, .. } => {
            (f as *const _ as usize) - (base as *const _ as usize)
        }
        _ => std::hint::unreachable_unchecked(),
    }
} }
            
"#;

/// Declares a C++ function. $0: its link name.
pub const EXTERN_CPP_FN_OPEN: &'static str = r#"
unsafe extern "C" { fn $0("#;

/// The head of the function that calls a Rust function for C++. $0: its link name.
pub const FUNCTION_OPEN: &'static str = r#"
#[allow(non_snake_case)]
#[unsafe(no_mangle)]
#[allow(unused_parens)]
pub extern "C" fn $0("#;

/// Drops a value. $0: the link name; $1: the type.
pub const DROP_SHIM: &'static str = r#"
#[allow(non_snake_case)]
#[allow(dropping_copy_types)]
#[allow(dropping_references)]
#[allow(undropped_manually_drops)]
#[unsafe(no_mangle)]
pub extern "C" fn $0(v: *mut u8) { unsafe {
    ::std::ptr::drop_in_place(v as *mut $1);
} }
"#;

/// Prints a value over several lines. $0: the link name; $1: the type.
pub const PRETTY_PRINT_SHIM: &'static str = r#"
#[allow(non_snake_case)]
#[unsafe(no_mangle)]
pub extern "C" fn $0(v: *mut u8) {
    eprintln!("{:#?}", unsafe { &*(v as *mut $1) });
}
"#;

/// Prints a value on one line. $0: the link name; $1: the type.
pub const DEBUG_PRINT_SHIM: &'static str = r#"
#[allow(non_snake_case)]
#[unsafe(no_mangle)]
pub extern "C" fn $0(v: *mut u8) {
    eprintln!("{:?}", unsafe { &*(v as *mut $1) });
}
"#;

/// Before a body whose panics are caught.
pub const CATCH_OPEN: &'static str = r#"unsafe extern "C" {
                fn __zngur_mark_panicked();   
            }
            let e = ::std::panic::catch_unwind(|| {
"#;

/// The functions by which C++ handles wakers. $0: clones one; $1: wakes by one; $2: drops
/// one.
pub const WAKER_SHIMS: &'static str = r#"
const _: () = {
    assert!(
        ::std::mem::size_of::<::std::task::Waker>() <= 64,
        "zngur: std::task::Waker does not fit in the C++ coroutine waker slot"
    );
    assert!(
        ::std::mem::align_of::<::std::task::Waker>() <= 16,
        "zngur: std::task::Waker alignment exceeds the C++ coroutine waker slot alignment"
    );
};

#[allow(non_snake_case)]
#[unsafe(no_mangle)]
pub extern "C" fn $0(src: *mut u8, dst: *mut u8) {
    unsafe {
        let src = &*(src as *const ::std::task::Waker);
        let cloned = src.clone();
        ::std::ptr::write(dst as *mut ::std::task::Waker, cloned);
    }
}
#[allow(non_snake_case)]
#[unsafe(no_mangle)]
pub extern "C" fn $1(w: *mut u8) {
    unsafe {
        let w = ::std::ptr::read(w as *mut ::std::task::Waker);
        w.wake();
    }
}
#[allow(non_snake_case)]
#[unsafe(no_mangle)]
pub extern "C" fn $2(w: *mut u8) {
    unsafe {
        ::std::ptr::drop_in_place(w as *mut ::std::task::Waker);
    }
}
"#;

/// The functions by which C++ handles futures of one output. $0: polls one; $1: the
/// output; $2: further bounds; $3: polls a coroutine; $4: destroys a coroutine; $5: makes
/// a future of a coroutine.
pub const FUTURE_SHIM_OPEN: &'static str = r#"
#[allow(non_snake_case)]
#[unsafe(no_mangle)]
pub extern "C" fn $0(fut: *mut u8, waker: *mut u8, out: *mut u8) -> u8 {
    unsafe {
        let fut = &mut *(fut as *mut ::std::boxed::Box<dyn ::std::future::Future<Output = $1>$2>);
        let waker = &*(waker as *const ::std::task::Waker);
        let mut cx = ::std::task::Context::from_waker(waker);
        match ::std::pin::Pin::new_unchecked(fut.as_mut()).poll(&mut cx) {
            ::std::task::Poll::Ready(v) => {
                ::std::ptr::write(out as *mut $1, v);
                1
            }
            ::std::task::Poll::Pending => 0,
        }
    }
}

unsafe extern "C" {
    fn $3(handle: *mut u8, waker: *mut u8, out: *mut u8) -> u8;
    fn $4(handle: *mut u8);
}

#[allow(non_snake_case)]
#[unsafe(no_mangle)]
pub extern "C" fn $5(handle: *mut u8, out: *mut u8) {
    struct CoroState {
        handle: *mut u8,
    }
    impl ::std::future::Future for CoroState {
        type Output = $1;
        fn poll(
            self: ::std::pin::Pin<&mut Self>,
            cx: &mut ::std::task::Context<'_>,
        ) -> ::std::task::Poll<$1> {
            let mut out_val = ::std::mem::MaybeUninit::<$1>::uninit();
            let waker_ptr = cx.waker() as *const ::std::task::Waker as *mut u8;
            let is_ready =
                unsafe { $3(self.handle, waker_ptr, out_val.as_mut_ptr() as *mut u8) };
            if is_ready != 0 {
                ::std::task::Poll::Ready(unsafe { out_val.assume_init() })
            } else {
                ::std::task::Poll::Pending
            }
        }
    }
    impl Drop for CoroState {
        fn drop(&mut self) {
            unsafe { $4(self.handle) }
        }
    }
"#;

/// $0: the output; $1: further bounds.
pub const FUTURE_SHIM_CLOSE: &'static str = r#"    let state = CoroState { handle };
    let boxed: ::std::boxed::Box<dyn ::std::future::Future<Output = $0>$1> =
        ::std::boxed::Box::new(state);
    unsafe {
        ::std::ptr::write(
            out as *mut ::std::boxed::Box<dyn ::std::future::Future<Output = $0>$1>,
            boxed,
        )
    }
}
"#;

/// The functions by which C++ holds values on the heap. $0: their size; $1: allocates;
/// $2: frees; $3: the type.
pub const HEAP_SHIMS: &'static str = r#"
                #[allow(non_snake_case)]
                #[unsafe(no_mangle)]
                pub fn $0() -> usize {
                    ::std::mem::size_of::<$3>()
                }
        
                #[allow(non_snake_case)]
                #[unsafe(no_mangle)]
                pub fn $1() -> *mut u8 {
                    unsafe { ::std::alloc::alloc(::std::alloc::Layout::new::<$3>()) }
                }

                #[allow(non_snake_case)]
                #[unsafe(no_mangle)]
                pub fn $2(p: *mut u8) {
                    unsafe { ::std::alloc::dealloc(p, ::std::alloc::Layout::new::<$3>()) }
                }
                
"#;

/// Takes C++ data for the type that wraps it. $0: the link name; $1: the type.
pub const CPP_VALUE_BRIDGE: &'static str = r#"
#[allow(non_snake_case)]
#[unsafe(no_mangle)]
pub extern "C" fn $0(d: *mut u8) -> *mut $1 {
    d as *mut $1
}"#;

/// A Rust type that holds a C++ value in place. $0: its alignment; $1: its name; $2: its
/// size; $3: the link name of the destructor.
pub const STACK_OWNED_STRUCT: &'static str = r#"
#[repr(C)]
#[repr(align($0))]
pub struct $1 {
  pub(crate) buffer: core::mem::MaybeUninit<[u8; $2]>,
  _no_auto_traits: core::marker::PhantomData<*mut ()>,
  _pinned: core::marker::PhantomPinned,
}

unsafe impl ::zngur_lib::ZngCppObject for $1 {}
unsafe impl ::zngur_lib::ZngCppStackObject for $1 {}

unsafe impl ::zngur_lib::ZngCppDestruct for $1 {
    unsafe fn destruct(&mut self) {
        unsafe extern "C" {
            fn $3(i0: *mut u8, o: *mut u8);
        }
        let mut dummy = ();
        unsafe {
            $3(self.buffer.assume_init_mut().as_mut_ptr() as *mut _, &mut dummy as *mut () as *mut u8);
        }
    }
}

impl Drop for $1 {
    fn drop(&mut self) {
        use ::zngur_lib::ZngCppDestruct;
        unsafe {
            self.destruct();
        }
    }
}
"#;

/// A Rust type that owns a C++ value on the heap. $0: its name.
pub const CPP_VALUE_STRUCT: &'static str = r#"
#[repr(C)]
pub struct $0 {
    pub(crate) data: *mut u8,
    pub(crate) destructor: extern "C" fn(*mut u8),
}

impl Drop for $0 {
    fn drop(&mut self) {
        (self.destructor)(self.data)
    }
}
"#;

/// A Rust type that stands for a C++ value behind a reference. $0: its name.
pub const CPP_REF_STRUCT: &'static str = r#"
pub struct $0(());
"#;

/// The old name of a Rust type that wraps a C++ value. $0: its name.
pub const CPP_ALIAS: &'static str = r#"
    #[deprecated]
    pub type $0 = super::$0;
"#;

/// The module that holds the old names. $0: the names.
pub const CPP_MODULE: &'static str = r#"
pub mod cpp {
$0
}
"#;

} // verus!
