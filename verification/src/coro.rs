//! Coroutine support for the declared boxed futures.

use crate::cpp::{CppType, CppTypeModel};
use crate::into_cpp::{convertible, type_to_cpp};
use crate::mangle::{hash_of_sig, mangle_name, mangled, signature_hash};
use crate::rust_types::{named_view, types_view, RustTrait, RustType, TraitModel, TypeModel};
use crate::text::{str_eq, strings_contain, texts};
use vstd::prelude::*;

verus! {

broadcast use vstd::std_specs::vec::group_vec_axioms;

/// The first type of that name, from the `i`-th on.
pub open spec fn first_named(v: Seq<(Seq<char>, TypeModel)>, name: Seq<char>, i: int) -> Option<
    TypeModel,
>
    decreases v.len() - i,
{
    if i < 0 || i >= v.len() {
        None
    } else if v[i].0 == name {
        Some(v[i].1)
    } else {
        first_named(v, name, i + 1)
    }
}

/// Whether a path ends in `std::future::Future` or `core::future::Future`.
pub open spec fn is_future_path(path: Seq<Seq<char>>) -> bool {
    let n = path.len() as int;
    n >= 3 && path[n - 1] == "Future"@ && path[n - 2] == "future"@ && (path[n - 3] == "std"@
        || path[n - 3] == "core"@)
}

/// The output of a boxed future, and whether the future is `Send` and `Sync`.
pub open spec fn future_output(ty: TypeModel) -> Option<(TypeModel, bool)> {
    match ty {
        TypeModel::Boxed(inner) => match *inner {
            TypeModel::Dyn(TraitModel::Normal(pg), bounds) => if is_future_path(pg.path) {
                match first_named(pg.named_generics, "Output"@, 0) {
                    Some(out) => Some(
                        (out, bounds.contains("Send"@) && bounds.contains("Sync"@)),
                    ),
                    None => None,
                }
            } else {
                None
            },
            _ => None,
        },
        _ => None,
    }
}

fn ends_in_future(path: &Vec<String>) -> (r: bool)
    ensures
        r == is_future_path(texts(path@)),
{
    let n: usize = path.len();
    n >= 3 && str_eq(path[n - 1].as_str(), "Future") && str_eq(path[n - 2].as_str(), "future") && (
    str_eq(path[n - 3].as_str(), "std") || str_eq(path[n - 3].as_str(), "core"))
}

fn find_named<'a>(v: &'a Vec<(String, RustType)>, name: &str) -> (r: Option<&'a RustType>)
    ensures
        match first_named(named_view(v@), name@, 0) {
            Some(t) => r matches Some(x) && x@ == t,
            None => r is None,
        },
{
    let mut i: usize = 0;
    while i < v.len()
        invariant
            i <= v.len(),
            first_named(named_view(v@), name@, i as int) == first_named(named_view(v@), name@, 0),
        decreases v.len() - i,
    {
        proof {
            assert(named_view(v@)[i as int] == (v@[i as int].0@, v@[i as int].1.view()));
        }
        if str_eq(v[i].0.as_str(), name) {
            return Some(&v[i].1);
        }
        i += 1;
    }
    None
}

/// The output of a boxed future, and whether the future is `Send` and `Sync`.
pub fn future_output_type(ty: &RustType) -> (r: Option<(&RustType, bool)>)
    ensures
        match future_output(ty@) {
            Some(o) => r matches Some(x) && x.0@ == o.0 && x.1 == o.1,
            None => r is None,
        },
{
    match ty {
        RustType::Boxed(inner) => match &**inner {
            RustType::Dyn(tr, bounds) => match tr {
                RustTrait::Normal(pg) => {
                    proof {
                        assert(inner@ == TypeModel::Dyn(tr@, texts(bounds@)));
                        assert(tr@ == TraitModel::Normal(pg@));
                    }
                    if !ends_in_future(&pg.path) {
                        return None;
                    }
                    match find_named(&pg.named_generics, "Output") {
                        Some(out) => Some(
                            (out, strings_contain(bounds, "Send") && strings_contain(bounds, "Sync")),
                        ),
                        None => None,
                    }
                },
                RustTrait::Fn { name, inputs, output } => {
                    proof {
                        assert(inner@ == TypeModel::Dyn(tr@, texts(bounds@)));
                        assert(tr@ is Fn);
                    }
                    None
                },
            },
            _ => None,
        },
        _ => None,
    }
}

/// The names that link the two halves of the support for futures of one output.
#[derive(Debug)]
pub struct CoroFutureShim {
    pub rust_output: RustType,
    pub cpp_output: CppType,
    pub is_send_sync: bool,
    /// Guards the C++ half. It depends on the output alone, so that two crates
    /// with the same future can be used together.
    pub guard: String,
    /// Of Rust: polls a boxed future.
    pub poll_future_fn: String,
    /// Of Rust: makes a boxed future of a C++ coroutine.
    pub make_coro_future_fn: String,
    /// Of C++: polls a coroutine.
    pub coro_poll_fn: String,
    /// Of C++: destroys a coroutine.
    pub coro_destroy_fn: String,
}

/// What a [`CoroFutureShim`] holds.
#[verifier::ext_equal]
pub struct ShimModel {
    pub rust_output: TypeModel,
    pub cpp_output: CppTypeModel,
    pub is_send_sync: bool,
    pub guard: Seq<char>,
    pub poll_future_fn: Seq<char>,
    pub make_coro_future_fn: Seq<char>,
    pub coro_poll_fn: Seq<char>,
    pub coro_destroy_fn: Seq<char>,
}

impl CoroFutureShim {
    pub open spec fn view(&self) -> ShimModel {
        ShimModel {
            rust_output: self.rust_output@,
            cpp_output: self.cpp_output@,
            is_send_sync: self.is_send_sync,
            guard: self.guard@,
            poll_future_fn: self.poll_future_fn@,
            make_coro_future_fn: self.make_coro_future_fn@,
            coro_poll_fn: self.coro_poll_fn@,
            coro_destroy_fn: self.coro_destroy_fn@,
        }
    }
}

/// What a list of shims holds.
pub open spec fn shims_view(v: Seq<CoroFutureShim>) -> Seq<ShimModel> {
    Seq::new(v.len(), |i: int| v[i]@)
}

/// The coroutine support of an interface.
#[derive(Debug)]
pub struct CoroSupport {
    pub clone_waker_fn: String,
    pub waker_wake_fn: String,
    pub waker_drop_fn: String,
    pub shims: Vec<CoroFutureShim>,
}

/// What a [`CoroSupport`] holds.
#[verifier::ext_equal]
pub struct CoroModel {
    pub clone_waker_fn: Seq<char>,
    pub waker_wake_fn: Seq<char>,
    pub waker_drop_fn: Seq<char>,
    pub shims: Seq<ShimModel>,
}

impl CoroSupport {
    pub open spec fn view(&self) -> CoroModel {
        CoroModel {
            clone_waker_fn: self.clone_waker_fn@,
            waker_wake_fn: self.waker_wake_fn@,
            waker_drop_fn: self.waker_drop_fn@,
            shims: shims_view(self.shims@),
        }
    }
}

/// What an optional [`CoroSupport`] holds.
pub open spec fn opt_coro(c: Option<CoroSupport>) -> Option<CoroModel> {
    match c {
        Some(c) => Some(c@),
        None => None,
    }
}

/// The guard for futures of an output.
pub open spec fn shim_guard(output: TypeModel, is_send_sync: bool) -> Seq<char> {
    let hash = signature_hash(seq![output]);
    if is_send_sync {
        "ZNGUR_CORO_SHIMS_"@ + hash + "_SEND_SYNC"@
    } else {
        "ZNGUR_CORO_SHIMS_"@ + hash
    }
}

/// What tells the link names for futures of an output from others.
pub open spec fn shim_suffix(output: TypeModel, is_send_sync: bool) -> Seq<char> {
    let hash = signature_hash(seq![output]);
    if is_send_sync {
        hash + "_send_sync"@
    } else {
        hash
    }
}

/// The shim for futures of an output.
pub open spec fn shim_for(
    output: TypeModel,
    is_send_sync: bool,
    base: Seq<char>,
    namespace: Seq<char>,
    crate_name: Seq<char>,
) -> ShimModel {
    let suffix = shim_suffix(output, is_send_sync);
    ShimModel {
        rust_output: output,
        cpp_output: type_to_cpp(output, namespace, crate_name),
        is_send_sync,
        guard: shim_guard(output, is_send_sync),
        poll_future_fn: mangled("coro_poll_future_"@ + suffix, base),
        make_coro_future_fn: mangled("coro_make_future_"@ + suffix, base),
        coro_poll_fn: mangled("coro_poll_coro_"@ + suffix, base),
        coro_destroy_fn: mangled("coro_destroy_coro_"@ + suffix, base),
    }
}

/// Whether a shim is for such futures.
pub open spec fn is_shim_for(s: ShimModel, output: TypeModel, is_send_sync: bool) -> bool {
    s.rust_output == output && s.is_send_sync == is_send_sync
}

/// Whether some shim is for such futures.
pub open spec fn has_shim(v: Seq<ShimModel>, output: TypeModel, is_send_sync: bool) -> bool {
    exists|i: int| 0 <= i < v.len() && is_shim_for(#[trigger] v[i], output, is_send_sync)
}

/// The shims for the first `n` types: one for each kind of future.
pub open spec fn shims_of(
    types: Seq<TypeModel>,
    n: nat,
    base: Seq<char>,
    namespace: Seq<char>,
    crate_name: Seq<char>,
) -> Seq<ShimModel>
    decreases n,
{
    if n == 0 || n > types.len() {
        Seq::empty()
    } else {
        let before = shims_of(types, (n - 1) as nat, base, namespace, crate_name);
        match future_output(types[n - 1]) {
            Some((output, is_send_sync)) => if has_shim(before, output, is_send_sync) {
                before
            } else {
                before.push(shim_for(output, is_send_sync, base, namespace, crate_name))
            },
            None => before,
        }
    }
}

/// Whether the output of each boxed future has a C++ type.
pub open spec fn futures_convertible(types: Seq<TypeModel>, namespace: Seq<char>) -> bool {
    forall|i: int|
        0 <= i < types.len() ==> (future_output(#[trigger] types[i]) matches Some(o)
            ==> convertible(o.0, namespace))
}

/// The coroutine support for types, if a boxed future is among them.
pub open spec fn coro_of(
    types: Seq<TypeModel>,
    base: Seq<char>,
    namespace: Seq<char>,
    crate_name: Seq<char>,
) -> Option<CoroModel> {
    let shims = shims_of(types, types.len(), base, namespace, crate_name);
    if shims.len() == 0 {
        None
    } else {
        Some(
            CoroModel {
                clone_waker_fn: mangled("coro_clone_waker"@, base),
                waker_wake_fn: mangled("coro_waker_wake"@, base),
                waker_drop_fn: mangled("coro_waker_drop"@, base),
                shims,
            },
        )
    }
}

proof fn lemma_shims_of(
    types: Seq<TypeModel>,
    n: nat,
    base: Seq<char>,
    namespace: Seq<char>,
    crate_name: Seq<char>,
)
    requires
        n <= types.len(),
    ensures
        ({
            let v = shims_of(types, n, base, namespace, crate_name);
            &&& forall|i: int, j: int|
                0 <= i < j < v.len() ==> !is_shim_for(
                    #[trigger] v[i],
                    (#[trigger] v[j]).rust_output,
                    v[j].is_send_sync,
                )
            &&& forall|i: int|
                0 <= i < n ==> (future_output(#[trigger] types[i]) matches Some(o) ==> has_shim(
                    v,
                    o.0,
                    o.1,
                ))
        }),
    decreases n,
{
    if n > 0 {
        let m = (n - 1) as nat;
        lemma_shims_of(types, m, base, namespace, crate_name);
        let before = shims_of(types, m, base, namespace, crate_name);
        match future_output(types[m as int]) {
            Some((output, is_send_sync)) => {
                if !has_shim(before, output, is_send_sync) {
                    let s = shim_for(output, is_send_sync, base, namespace, crate_name);
                    let v = before.push(s);
                    assert(v[before.len() as int] == s);
                    assert(is_shim_for(v[before.len() as int], output, is_send_sync));
                    assert forall|i: int| 0 <= i < n implies (future_output(
                        #[trigger] types[i],
                    ) matches Some(o) ==> has_shim(v, o.0, o.1)) by {
                        if i < m {
                            match future_output(types[i]) {
                                Some(o) => {
                                    let k = choose|k: int|
                                        0 <= k < before.len() && is_shim_for(
                                            #[trigger] before[k],
                                            o.0,
                                            o.1,
                                        );
                                    assert(v[k] == before[k]);
                                },
                                None => {},
                            }
                        }
                    }
                }
            },
            None => {},
        }
    }
}

/// No two shims are for the same kind of future.
pub proof fn law_one_shim_for_each_future(
    types: Seq<TypeModel>,
    base: Seq<char>,
    namespace: Seq<char>,
    crate_name: Seq<char>,
    i: int,
    j: int,
)
    requires
        coro_of(types, base, namespace, crate_name) is Some,
        0 <= i < coro_of(types, base, namespace, crate_name)->0.shims.len(),
        0 <= j < coro_of(types, base, namespace, crate_name)->0.shims.len(),
        i != j,
    ensures
        ({
            let v = coro_of(types, base, namespace, crate_name)->0.shims;
            !is_shim_for(v[i], v[j].rust_output, v[j].is_send_sync)
        }),
{
    lemma_shims_of(types, types.len(), base, namespace, crate_name);
}

/// Each boxed future among the types has a shim.
pub proof fn law_each_future_has_a_shim(
    types: Seq<TypeModel>,
    base: Seq<char>,
    namespace: Seq<char>,
    crate_name: Seq<char>,
    i: int,
)
    requires
        0 <= i < types.len(),
        future_output(types[i]) is Some,
    ensures
        coro_of(types, base, namespace, crate_name) matches Some(c) && has_shim(
            c.shims,
            (future_output(types[i])->0).0,
            (future_output(types[i])->0).1,
        ),
{
    lemma_shims_of(types, types.len(), base, namespace, crate_name);
}

fn find_shim(v: &Vec<CoroFutureShim>, output: &RustType, is_send_sync: bool) -> (r: bool)
    ensures
        r == has_shim(shims_view(v@), output@, is_send_sync),
{
    let mut i: usize = 0;
    while i < v.len()
        invariant
            i <= v.len(),
            forall|k: int|
                0 <= k < i ==> !is_shim_for(
                    #[trigger] shims_view(v@)[k],
                    output@,
                    is_send_sync,
                ),
        decreases v.len() - i,
    {
        proof {
            assert(shims_view(v@)[i as int] == v@[i as int]@);
        }
        if v[i].rust_output.same_as(output) && v[i].is_send_sync == is_send_sync {
            return true;
        }
        i += 1;
    }
    false
}

fn make_shim(
    output: &RustType,
    is_send_sync: bool,
    mangling_base: &str,
    namespace: &str,
    crate_name: &str,
) -> (r: CoroFutureShim)
    requires
        convertible(output@, namespace@),
    ensures
        r@ == shim_for(output@, is_send_sync, mangling_base@, namespace@, crate_name@),
{
    let (guard, suffix) = CoroSupport::shim_names(output, is_send_sync);
    let mut poll_future = String::from_str("coro_poll_future_");
    poll_future.append(suffix.as_str());
    let mut make_future = String::from_str("coro_make_future_");
    make_future.append(suffix.as_str());
    let mut poll_coro = String::from_str("coro_poll_coro_");
    poll_coro.append(suffix.as_str());
    let mut destroy_coro = String::from_str("coro_destroy_coro_");
    destroy_coro.append(suffix.as_str());
    CoroFutureShim {
        rust_output: output.copy(),
        cpp_output: output.into_cpp(namespace, crate_name),
        is_send_sync,
        guard,
        poll_future_fn: mangle_name(poll_future.as_str(), mangling_base),
        make_coro_future_fn: mangle_name(make_future.as_str(), mangling_base),
        coro_poll_fn: mangle_name(poll_coro.as_str(), mangling_base),
        coro_destroy_fn: mangle_name(destroy_coro.as_str(), mangling_base),
    }
}

impl CoroSupport {
    /// The guard and the suffix for futures of an output.
    pub fn shim_names(output: &RustType, is_send_sync: bool) -> (r: (String, String))
        ensures
            r.0@ == shim_guard(output@, is_send_sync),
            r.1@ == shim_suffix(output@, is_send_sync),
    {
        let mut sig: Vec<RustType> = Vec::new();
        sig.push(output.copy());
        proof {
            assert(types_view(sig@) =~= seq![output@]);
        }
        let hash = hash_of_sig(&sig);
        let mut guard = String::from_str("ZNGUR_CORO_SHIMS_");
        guard.append(hash.as_str());
        let mut suffix = hash;
        if is_send_sync {
            guard.append("_SEND_SYNC");
            suffix.append("_send_sync");
        }
        (guard, suffix)
    }

    /// The coroutine support for types, if a boxed future is among them.
    pub fn from_types(
        types: &Vec<RustType>,
        mangling_base: &str,
        namespace: &str,
        crate_name: &str,
    ) -> (r: Option<CoroSupport>)
        requires
            futures_convertible(types_view(types@), namespace@),
        ensures
            opt_coro(r) == coro_of(types_view(types@), mangling_base@, namespace@, crate_name@),
    {
        let mut shims: Vec<CoroFutureShim> = Vec::new();
        let ghost all = types_view(types@);
        let mut i: usize = 0;
        proof {
            assert(shims_view(shims@) =~= Seq::empty());
        }
        while i < types.len()
            invariant
                i <= types.len(),
                all == types_view(types@),
                futures_convertible(all, namespace@),
                shims_view(shims@) == shims_of(
                    all,
                    i as nat,
                    mangling_base@,
                    namespace@,
                    crate_name@,
                ),
            decreases types.len() - i,
        {
            proof {
                assert(all[i as int] == types@[i as int].view());
            }
            match future_output_type(&types[i]) {
                Some((output, is_send_sync)) => {
                    if !find_shim(&shims, output, is_send_sync) {
                        let s = make_shim(
                            output,
                            is_send_sync,
                            mangling_base,
                            namespace,
                            crate_name,
                        );
                        proof {
                            assert(shims_view(shims@.push(s)) =~= shims_view(shims@).push(s@));
                        }
                        shims.push(s);
                    }
                },
                None => {},
            }
            i += 1;
        }
        if shims.len() == 0 {
            return None;
        }
        Some(
            CoroSupport {
                clone_waker_fn: mangle_name("coro_clone_waker", mangling_base),
                waker_wake_fn: mangle_name("coro_waker_wake", mangling_base),
                waker_drop_fn: mangle_name("coro_waker_drop", mangling_base),
                shims,
            },
        )
    }
}

} // verus!
