//! The C++ types that stand for Rust types.

use crate::cpp::{
    cpp_types_view, is_type_text, path_from, plain_type, rust_path, type_from, CppPath, CppType,
    CppTypeModel,
};
use crate::rust_types::{
    named_view, types_view, Mutability, PathModel, PrimitiveRustType, RustPathAndGenerics,
    RustTrait, RustType, TraitModel, TypeModel,
};
use crate::text::{dec_text, decimal, strip_prefix, strip_prefix_text, text_before, text_le, texts};
use vstd::pervasive::unreached;
use vstd::prelude::*;

verus! {

broadcast use vstd::std_specs::vec::group_vec_axioms;

/// A name in a namespace.
pub open spec fn named_in(namespace: Seq<char>, name: Seq<char>) -> Seq<char> {
    namespace + "::"@ + name
}

/// The C++ type of a number, or of a raw pointer to one.
pub open spec fn builtin(t: TypeModel) -> Option<CppTypeModel>
    decreases t,
{
    match t {
        TypeModel::Primitive(p) => match p {
            PrimitiveRustType::Uint(s) => Some(
                plain_type(path_from("uint"@ + dec_text(s as nat) + "_t"@)),
            ),
            PrimitiveRustType::Int(s) => Some(
                plain_type(path_from("int"@ + dec_text(s as nat) + "_t"@)),
            ),
            PrimitiveRustType::Float(s) => Some(
                plain_type(
                    path_from(
                        if s == 32 {
                            "float_t"@
                        } else {
                            "double_t"@
                        },
                    ),
                ),
            ),
            PrimitiveRustType::Usize => Some(plain_type(path_from("size_t"@))),
            _ => None,
        },
        TypeModel::Raw(m, inner) => match builtin(*inner) {
            Some(b) => match strip_prefix_text(b.text(), "::"@) {
                Some(s) => Some(
                    plain_type(
                        path_from(
                            s + (if m == Mutability::Mut {
                                "*"@
                            } else {
                                " const*"@
                            }),
                        ),
                    ),
                ),
                None => None,
            },
            None => None,
        },
        _ => None,
    }
}

/// Whether each type of a list has a C++ type.
pub open spec fn all_convertible(v: Seq<TypeModel>, namespace: Seq<char>) -> bool
    decreases v,
{
    forall|i: int| 0 <= i < v.len() ==> convertible(#[trigger] v[i], namespace)
}

/// Whether each named type of a list has a C++ type.
pub open spec fn named_convertible(v: Seq<(Seq<char>, TypeModel)>, namespace: Seq<char>) -> bool
    decreases v,
{
    forall|i: int| 0 <= i < v.len() ==> convertible((#[trigger] v[i]).1, namespace)
}

/// Whether each argument of a path has a C++ type.
pub open spec fn path_convertible(p: PathModel, namespace: Seq<char>) -> bool
    decreases p,
{
    all_convertible(p.generics, namespace) && named_convertible(p.named_generics, namespace)
}

/// Whether a trait has a C++ type.
pub open spec fn trait_convertible(t: TraitModel, namespace: Seq<char>) -> bool
    decreases t,
{
    match t {
        TraitModel::Normal(p) => path_convertible(p, namespace),
        TraitModel::Fn { name, inputs, output } => all_convertible(inputs, namespace)
            && convertible(*output, namespace),
    }
}

/// Whether each marker can be named in C++.
pub open spec fn markers_convertible(bounds: Seq<Seq<char>>, namespace: Seq<char>) -> bool {
    forall|i: int| 0 <= i < bounds.len() ==> is_type_text(named_in(namespace, #[trigger] bounds[i]))
}

/// Whether a type has a C++ type: it holds no `impl Trait`, no template variable
/// and no C++ type, its floats have 32 or 64 bits, and what is named in the
/// namespace is the name of a type.
pub open spec fn convertible(t: TypeModel, namespace: Seq<char>) -> bool
    decreases t,
{
    match t {
        TypeModel::Primitive(p) => match p {
            PrimitiveRustType::Float(s) => s == 32 || s == 64,
            PrimitiveRustType::Bool => is_type_text(named_in(namespace, "Bool"@)),
            PrimitiveRustType::Str => is_type_text(named_in(namespace, "Str"@)),
            PrimitiveRustType::Char => is_type_text(named_in(namespace, "Char"@)),
            _ => true,
        },
        TypeModel::Raw(_, inner) => convertible(*inner, namespace),
        TypeModel::Ref(_, inner) => convertible(*inner, namespace),
        TypeModel::Boxed(inner) => convertible(*inner, namespace),
        TypeModel::Slice(inner) => convertible(*inner, namespace),
        TypeModel::Adt(p) => path_convertible(p, namespace),
        TypeModel::Tuple(v) => if v.len() == 0 {
            is_type_text(named_in(namespace, "Unit"@))
        } else {
            all_convertible(v, namespace)
        },
        TypeModel::Dyn(tr, bounds) => trait_convertible(tr, namespace) && markers_convertible(
            bounds,
            namespace,
        ),
        TypeModel::Impl(_, _) => false,
        TypeModel::TypeVar(_) => false,
        TypeModel::Cpp(_) => false,
    }
}

/// The C++ types of a list of types.
pub open spec fn types_to_cpp(
    v: Seq<TypeModel>,
    namespace: Seq<char>,
    crate_name: Seq<char>,
) -> Seq<CppTypeModel>
    decreases v,
{
    Seq::new(
        v.len(),
        |i: int|
            if 0 <= i < v.len() {
                type_to_cpp(v[i], namespace, crate_name)
            } else {
                arbitrary()
            },
    )
}

/// The C++ types of a list of named types, with the names.
pub open spec fn named_to_cpp(
    v: Seq<(Seq<char>, TypeModel)>,
    namespace: Seq<char>,
    crate_name: Seq<char>,
) -> Seq<(Seq<char>, CppTypeModel)>
    decreases v,
{
    Seq::new(
        v.len(),
        |i: int|
            if 0 <= i < v.len() {
                (v[i].0, type_to_cpp(v[i].1, namespace, crate_name))
            } else {
                arbitrary()
            },
    )
}

/// Types in the order of their names, with another one in its place.
pub open spec fn insert_named(
    v: Seq<(Seq<char>, CppTypeModel)>,
    x: (Seq<char>, CppTypeModel),
) -> Seq<(Seq<char>, CppTypeModel)>
    decreases v.len(),
{
    if v.len() == 0 || text_le(v.last().0, x.0, 0) {
        v.push(x)
    } else {
        insert_named(v.drop_last(), x).push(v.last())
    }
}

/// Types in the order of their names; those of one name stay in their order.
pub open spec fn sort_named(v: Seq<(Seq<char>, CppTypeModel)>) -> Seq<(Seq<char>, CppTypeModel)>
    decreases v.len(),
{
    if v.len() == 0 {
        v
    } else {
        insert_named(sort_named(v.drop_last()), v.last())
    }
}

/// The types of a list of named types.
pub open spec fn without_names(v: Seq<(Seq<char>, CppTypeModel)>) -> Seq<CppTypeModel> {
    Seq::new(v.len(), |i: int| v[i].1)
}

/// The C++ type of a path: its name, then the positional arguments, then the
/// named ones in the order of their names.
pub open spec fn path_to_cpp(
    p: PathModel,
    namespace: Seq<char>,
    crate_name: Seq<char>,
) -> CppTypeModel
    decreases p,
{
    CppTypeModel {
        path: rust_path(p.path, namespace, crate_name),
        generic_args: types_to_cpp(p.generics, namespace, crate_name) + without_names(
            sort_named(named_to_cpp(p.named_generics, namespace, crate_name)),
        ),
        tail: None,
    }
}

/// The C++ type of a trait.
pub open spec fn trait_to_cpp(
    t: TraitModel,
    namespace: Seq<char>,
    crate_name: Seq<char>,
) -> CppTypeModel
    decreases t,
{
    match t {
        TraitModel::Normal(p) => path_to_cpp(p, namespace, crate_name),
        TraitModel::Fn { name, inputs, output } => CppTypeModel {
            path: path_from(named_in(namespace, name)),
            generic_args: types_to_cpp(inputs, namespace, crate_name).push(
                type_to_cpp(*output, namespace, crate_name),
            ),
            tail: None,
        },
    }
}

/// The C++ types of markers.
pub open spec fn markers_to_cpp(bounds: Seq<Seq<char>>, namespace: Seq<char>) -> Seq<CppTypeModel> {
    Seq::new(bounds.len(), |i: int| type_from(named_in(namespace, bounds[i])))
}

/// A type with arguments, by its name in the namespace.
pub open spec fn applied(
    namespace: Seq<char>,
    name: Seq<char>,
    args: Seq<CppTypeModel>,
) -> CppTypeModel {
    CppTypeModel { path: path_from(named_in(namespace, name)), generic_args: args, tail: None }
}

/// The C++ type of a type.
pub open spec fn type_to_cpp(
    t: TypeModel,
    namespace: Seq<char>,
    crate_name: Seq<char>,
) -> CppTypeModel
    decreases t,
{
    match builtin(t) {
        Some(b) => b,
        None => match t {
            TypeModel::Primitive(p) => type_from(
                named_in(
                    namespace,
                    match p {
                        PrimitiveRustType::Bool => "Bool"@,
                        PrimitiveRustType::Str => "Str"@,
                        _ => "Char"@,
                    },
                ),
            ),
            TypeModel::Boxed(inner) => applied(
                namespace,
                "Box"@,
                seq![type_to_cpp(*inner, namespace, crate_name)],
            ),
            TypeModel::Ref(m, inner) => applied(
                namespace,
                if m == Mutability::Mut {
                    "RefMut"@
                } else {
                    "Ref"@
                },
                seq![type_to_cpp(*inner, namespace, crate_name)],
            ),
            TypeModel::Slice(inner) => applied(
                namespace,
                "Slice"@,
                seq![type_to_cpp(*inner, namespace, crate_name)],
            ),
            TypeModel::Raw(m, inner) => applied(
                namespace,
                if m == Mutability::Mut {
                    "RawMut"@
                } else {
                    "Raw"@
                },
                seq![type_to_cpp(*inner, namespace, crate_name)],
            ),
            TypeModel::Adt(p) => path_to_cpp(p, namespace, crate_name),
            TypeModel::Tuple(v) => if v.len() == 0 {
                type_from(named_in(namespace, "Unit"@))
            } else {
                applied(namespace, "Tuple"@, types_to_cpp(v, namespace, crate_name))
            },
            TypeModel::Dyn(tr, bounds) => applied(
                namespace,
                "Dyn"@,
                seq![trait_to_cpp(tr, namespace, crate_name)] + markers_to_cpp(bounds, namespace),
            ),
            _ => arbitrary(),
        },
    }
}

fn in_namespace(namespace: &str, name: &str) -> (r: String)
    ensures
        r@ == named_in(namespace@, name@),
{
    let mut r = String::from_str(namespace);
    r.append("::");
    r.append(name);
    r
}

fn make_plain(text: &str) -> (r: CppType)
    ensures
        r@ == plain_type(path_from(text@)),
{
    let generic_args: Vec<CppType> = Vec::new();
    proof {
        assert(cpp_types_view(generic_args@) =~= Seq::empty());
    }
    CppType { path: CppPath::from_text(text), generic_args, tail: None }
}

fn make_named(namespace: &str, name: &str) -> (r: CppType)
    requires
        is_type_text(named_in(namespace@, name@)),
    ensures
        r@ == type_from(named_in(namespace@, name@)),
{
    CppType::from_text(in_namespace(namespace, name).as_str())
}

fn make_applied(namespace: &str, name: &str, generic_args: Vec<CppType>) -> (r: CppType)
    ensures
        r@ == applied(namespace@, name@, cpp_types_view(generic_args@)),
{
    CppType {
        path: CppPath::from_text(in_namespace(namespace, name).as_str()),
        generic_args,
        tail: None,
    }
}

fn make_applied_to(namespace: &str, name: &str, arg: CppType) -> (r: CppType)
    ensures
        r@ == applied(namespace@, name@, seq![arg@]),
{
    let mut args: Vec<CppType> = Vec::new();
    args.push(arg);
    proof {
        assert(cpp_types_view(args@) =~= seq![arg@]);
    }
    make_applied(namespace, name, args)
}

fn for_builtin(t: &RustType) -> (r: Option<CppType>)
    ensures
        match builtin(t@) {
            Some(b) => r matches Some(x) && x@ == b,
            None => r is None,
        },
    decreases t,
{
    match t {
        RustType::Primitive(p) => match p {
            PrimitiveRustType::Uint(s) => {
                let mut text = String::from_str("uint");
                text.append(decimal(*s as usize).as_str());
                text.append("_t");
                Some(make_plain(text.as_str()))
            },
            PrimitiveRustType::Int(s) => {
                let mut text = String::from_str("int");
                text.append(decimal(*s as usize).as_str());
                text.append("_t");
                Some(make_plain(text.as_str()))
            },
            PrimitiveRustType::Float(s) => Some(
                make_plain(
                    if *s == 32 {
                        "float_t"
                    } else {
                        "double_t"
                    },
                ),
            ),
            PrimitiveRustType::Usize => Some(make_plain("size_t")),
            _ => None,
        },
        RustType::Raw(m, inner) => match for_builtin(inner) {
            Some(b) => match strip_prefix(b.to_text().as_str(), "::") {
                Some(s) => {
                    let mut text = s;
                    text.append(
                        if *m == Mutability::Mut {
                            "*"
                        } else {
                            " const*"
                        },
                    );
                    Some(make_plain(text.as_str()))
                },
                None => None,
            },
            None => None,
        },
        _ => None,
    }
}

/// The C++ types of a list of types.
pub fn types_into_cpp(v: &Vec<RustType>, namespace: &str, crate_name: &str) -> (r: Vec<CppType>)
    requires
        all_convertible(types_view(v@), namespace@),
    ensures
        cpp_types_view(r@) == types_to_cpp(types_view(v@), namespace@, crate_name@),
        r@.len() == v@.len(),
    decreases v,
{
    let mut r: Vec<CppType> = Vec::new();
    let mut i: usize = 0;
    while i < v.len()
        invariant
            i <= v.len(),
            r.len() == i,
            all_convertible(types_view(v@), namespace@),
            forall|k: int|
                0 <= k < i ==> (#[trigger] r@[k]).view() == type_to_cpp(
                    v@[k].view(),
                    namespace@,
                    crate_name@,
                ),
        decreases v.len() - i,
    {
        proof {
            assert(types_view(v@)[i as int] == v@[i as int].view());
        }
        r.push(v[i].into_cpp(namespace, crate_name));
        i += 1;
    }
    proof {
        assert(cpp_types_view(r@) =~= types_to_cpp(types_view(v@), namespace@, crate_name@));
    }
    r
}

/// What a list of named C++ types holds.
pub open spec fn named_cpp_view(v: Seq<(String, CppType)>) -> Seq<(Seq<char>, CppTypeModel)> {
    Seq::new(v.len(), |i: int| (v[i].0@, v[i].1@))
}

fn named_into_cpp(v: &Vec<(String, RustType)>, namespace: &str, crate_name: &str) -> (r: Vec<
    (String, CppType),
>)
    requires
        named_convertible(named_view(v@), namespace@),
    ensures
        named_cpp_view(r@) == named_to_cpp(named_view(v@), namespace@, crate_name@),
    decreases v,
{
    let mut r: Vec<(String, CppType)> = Vec::new();
    let mut i: usize = 0;
    while i < v.len()
        invariant
            i <= v.len(),
            r.len() == i,
            named_convertible(named_view(v@), namespace@),
            forall|k: int|
                0 <= k < i ==> (#[trigger] r@[k]).0@ == v@[k].0@ && r@[k].1@ == type_to_cpp(
                    v@[k].1.view(),
                    namespace@,
                    crate_name@,
                ),
        decreases v.len() - i,
    {
        proof {
            assert(named_view(v@)[i as int] == (v@[i as int].0@, v@[i as int].1.view()));
        }
        r.push((v[i].0.clone(), v[i].1.into_cpp(namespace, crate_name)));
        i += 1;
    }
    proof {
        assert(named_cpp_view(r@) =~= named_to_cpp(named_view(v@), namespace@, crate_name@));
    }
    r
}

fn put_named(v: &mut Vec<(String, CppType)>, x: (String, CppType))
    ensures
        named_cpp_view(final(v)@) == insert_named(named_cpp_view(old(v)@), (x.0@, x.1@)),
{
    let ghost all = named_cpp_view(v@);
    let ghost key = (x.0@, x.1@);
    let mut i: usize = v.len();
    proof {
        assert(all.take(i as int) =~= all);
        assert(insert_named(all, key) + all.skip(i as int) =~= insert_named(all, key));
    }
    while i > 0 && !text_before(&v[i - 1].0, &x.0)
        invariant
            i <= v.len(),
            v@ == old(v)@,
            all == named_cpp_view(v@),
            key == (x.0@, x.1@),
            insert_named(all.take(i as int), key) + all.skip(i as int) == insert_named(all, key),
        decreases i,
    {
        proof {
            let t = all.take(i as int);
            assert(t.last() == all[i - 1]);
            assert(t.drop_last() =~= all.take(i - 1));
            assert(insert_named(t, key) + all.skip(i as int) =~= insert_named(
                all.take(i - 1),
                key,
            ) + all.skip(i - 1));
        }
        i -= 1;
    }
    proof {
        let t = all.take(i as int);
        if i > 0 {
            assert(t.last() == all[i - 1]);
        }
        assert(insert_named(t, key) == t.push(key));
        assert(t.push(key) + all.skip(i as int) =~= all.insert(i as int, key));
    }
    v.insert(i, x);
    proof {
        assert(named_cpp_view(v@) =~= all.insert(i as int, key));
    }
}

fn sorted_named(v: Vec<(String, CppType)>) -> (r: Vec<(String, CppType)>)
    ensures
        named_cpp_view(r@) == sort_named(named_cpp_view(v@)),
{
    let mut r: Vec<(String, CppType)> = Vec::new();
    let mut i: usize = 0;
    let ghost all = named_cpp_view(v@);
    proof {
        assert(all.take(0) =~= Seq::empty());
        assert(named_cpp_view(r@) =~= Seq::empty());
    }
    while i < v.len()
        invariant
            i <= v.len(),
            all == named_cpp_view(v@),
            named_cpp_view(r@) == sort_named(all.take(i as int)),
        decreases v.len() - i,
    {
        let x = (v[i].0.clone(), v[i].1.copy());
        proof {
            let t = all.take(i + 1);
            assert(t.drop_last() =~= all.take(i as int));
            assert(t.last() == all[i as int]);
        }
        put_named(&mut r, x);
        i += 1;
    }
    proof {
        assert(all.take(i as int) =~= all);
    }
    r
}

impl RustPathAndGenerics {
    /// The C++ type of the path.
    pub fn into_cpp(&self, namespace: &str, crate_name: &str) -> (r: CppType)
        requires
            path_convertible(self@, namespace@),
        ensures
            r@ == path_to_cpp(self@, namespace@, crate_name@),
        decreases self,
    {
        let mut generic_args = types_into_cpp(&self.generics, namespace, crate_name);
        let named = sorted_named(named_into_cpp(&self.named_generics, namespace, crate_name));
        let ghost first = cpp_types_view(generic_args@);
        let ghost second = named_cpp_view(named@);
        let mut i: usize = 0;
        proof {
            assert(first + without_names(second.take(0)) =~= first);
        }
        while i < named.len()
            invariant
                i <= named.len(),
                second == named_cpp_view(named@),
                cpp_types_view(generic_args@) == first + without_names(second.take(i as int)),
            decreases named.len() - i,
        {
            let x = named[i].1.copy();
            proof {
                assert(cpp_types_view(generic_args@.push(x)) =~= cpp_types_view(
                    generic_args@,
                ).push(x@));
                assert(first + without_names(second.take(i + 1)) =~= (first + without_names(
                    second.take(i as int),
                )).push(x@));
            }
            generic_args.push(x);
            i += 1;
        }
        proof {
            assert(second.take(i as int) =~= second);
        }
        CppType {
            path: CppPath::from_rust_path(&self.path, namespace, crate_name),
            generic_args,
            tail: None,
        }
    }
}

impl RustTrait {
    /// The C++ type of the trait.
    pub fn into_cpp(&self, namespace: &str, crate_name: &str) -> (r: CppType)
        requires
            trait_convertible(self@, namespace@),
        ensures
            r@ == trait_to_cpp(self@, namespace@, crate_name@),
        decreases self,
    {
        match self {
            RustTrait::Normal(pg) => pg.into_cpp(namespace, crate_name),
            RustTrait::Fn { name, inputs, output } => {
                let mut generic_args = types_into_cpp(inputs, namespace, crate_name);
                let out = output.into_cpp(namespace, crate_name);
                proof {
                    assert(cpp_types_view(generic_args@.push(out)) =~= cpp_types_view(
                        generic_args@,
                    ).push(out@));
                }
                generic_args.push(out);
                make_applied(namespace, name.as_str(), generic_args)
            },
        }
    }
}

impl RustType {
    /// The C++ type of the type.
    pub fn into_cpp(&self, namespace: &str, crate_name: &str) -> (r: CppType)
        requires
            convertible(self@, namespace@),
        ensures
            r@ == type_to_cpp(self@, namespace@, crate_name@),
        decreases self,
    {
        if let Some(b) = for_builtin(self) {
            return b;
        }
        match self {
            RustType::Primitive(p) => {
                let name = match p {
                    PrimitiveRustType::Bool => "Bool",
                    PrimitiveRustType::Str => "Str",
                    _ => "Char",
                };
                make_named(namespace, name)
            },
            RustType::Boxed(t) => {
                let arg = t.into_cpp(namespace, crate_name);
                make_applied_to(namespace, "Box", arg)
            },
            RustType::Ref(m, t) => {
                let arg = t.into_cpp(namespace, crate_name);
                let name = if *m == Mutability::Mut {
                    "RefMut"
                } else {
                    "Ref"
                };
                make_applied_to(namespace, name, arg)
            },
            RustType::Slice(t) => {
                let arg = t.into_cpp(namespace, crate_name);
                make_applied_to(namespace, "Slice", arg)
            },
            RustType::Raw(m, t) => {
                let arg = t.into_cpp(namespace, crate_name);
                let name = if *m == Mutability::Mut {
                    "RawMut"
                } else {
                    "Raw"
                };
                make_applied_to(namespace, name, arg)
            },
            RustType::Adt(pg) => pg.into_cpp(namespace, crate_name),
            RustType::Tuple(v) => {
                if v.len() == 0 {
                    proof {
                        assert(types_view(v@).len() == 0);
                    }
                    return make_named(namespace, "Unit");
                }
                let args = types_into_cpp(v, namespace, crate_name);
                make_applied(namespace, "Tuple", args)
            },
            RustType::Dyn(tr, bounds) => {
                let mut args: Vec<CppType> = Vec::new();
                args.push(tr.into_cpp(namespace, crate_name));
                let ghost first = seq![trait_to_cpp(tr@, namespace@, crate_name@)];
                let ghost marks = texts(bounds@);
                let mut i: usize = 0;
                proof {
                    assert(cpp_types_view(args@) =~= first + markers_to_cpp(
                        marks.take(0),
                        namespace@,
                    ));
                }
                while i < bounds.len()
                    invariant
                        i <= bounds.len(),
                        marks == texts(bounds@),
                        markers_convertible(marks, namespace@),
                        cpp_types_view(args@) == first + markers_to_cpp(
                            marks.take(i as int),
                            namespace@,
                        ),
                    decreases bounds.len() - i,
                {
                    proof {
                        assert(marks[i as int] == bounds@[i as int]@);
                    }
                    let x = make_named(namespace, bounds[i].as_str());
                    proof {
                        assert(cpp_types_view(args@.push(x)) =~= cpp_types_view(args@).push(x@));
                        assert(first + markers_to_cpp(marks.take(i + 1), namespace@) =~= (first
                            + markers_to_cpp(marks.take(i as int), namespace@)).push(x@));
                    }
                    args.push(x);
                    i += 1;
                }
                proof {
                    assert(marks.take(i as int) =~= marks);
                }
                make_applied(namespace, "Dyn", args)
            },
            _ => unreached(),
        }
    }
}

/// Whether each type of a list has a C++ type.
pub fn can_all_convert(v: &Vec<RustType>, namespace: &str) -> (r: bool)
    ensures
        r == all_convertible(types_view(v@), namespace@),
    decreases v,
{
    let mut i: usize = 0;
    while i < v.len()
        invariant
            i <= v.len(),
            forall|k: int| 0 <= k < i ==> convertible((#[trigger] v@[k]).view(), namespace@),
        decreases v.len() - i,
    {
        if !v[i].can_convert(namespace) {
            proof {
                assert(types_view(v@)[i as int] == v@[i as int].view());
            }
            return false;
        }
        i += 1;
    }
    true
}

pub fn can_named_convert(v: &Vec<(String, RustType)>, namespace: &str) -> (r: bool)
    ensures
        r == named_convertible(named_view(v@), namespace@),
    decreases v,
{
    let mut i: usize = 0;
    while i < v.len()
        invariant
            i <= v.len(),
            forall|k: int| 0 <= k < i ==> convertible((#[trigger] v@[k]).1.view(), namespace@),
        decreases v.len() - i,
    {
        if !v[i].1.can_convert(namespace) {
            proof {
                assert(named_view(v@)[i as int].1 == v@[i as int].1.view());
            }
            return false;
        }
        i += 1;
    }
    true
}

impl RustPathAndGenerics {
    /// Whether the path has a C++ type.
    pub fn can_convert(&self, namespace: &str) -> (r: bool)
        ensures
            r == path_convertible(self@, namespace@),
        decreases self,
    {
        can_all_convert(&self.generics, namespace) && can_named_convert(
            &self.named_generics,
            namespace,
        )
    }
}

impl RustTrait {
    /// Whether the trait has a C++ type.
    pub fn can_convert(&self, namespace: &str) -> (r: bool)
        ensures
            r == trait_convertible(self@, namespace@),
        decreases self,
    {
        match self {
            RustTrait::Normal(pg) => pg.can_convert(namespace),
            RustTrait::Fn { name, inputs, output } => can_all_convert(inputs, namespace)
                && output.can_convert(namespace),
        }
    }
}

fn is_name_in(namespace: &str, name: &str) -> (r: bool)
    ensures
        r == is_type_text(named_in(namespace@, name@)),
{
    CppType::can_be_from(in_namespace(namespace, name).as_str())
}

impl RustType {
    /// Whether the type has a C++ type.
    pub fn can_convert(&self, namespace: &str) -> (r: bool)
        ensures
            r == convertible(self@, namespace@),
        decreases self,
    {
        match self {
            RustType::Primitive(p) => match p {
                PrimitiveRustType::Float(s) => *s == 32 || *s == 64,
                PrimitiveRustType::Bool => is_name_in(namespace, "Bool"),
                PrimitiveRustType::Str => is_name_in(namespace, "Str"),
                PrimitiveRustType::Char => is_name_in(namespace, "Char"),
                _ => true,
            },
            RustType::Raw(_, t) => t.can_convert(namespace),
            RustType::Ref(_, t) => t.can_convert(namespace),
            RustType::Boxed(t) => t.can_convert(namespace),
            RustType::Slice(t) => t.can_convert(namespace),
            RustType::Adt(pg) => pg.can_convert(namespace),
            RustType::Tuple(v) => {
                proof {
                    assert(types_view(v@).len() == v@.len());
                }
                if v.len() == 0 {
                    is_name_in(namespace, "Unit")
                } else {
                    can_all_convert(v, namespace)
                }
            },
            RustType::Dyn(tr, bounds) => {
                if !tr.can_convert(namespace) {
                    return false;
                }
                let mut i: usize = 0;
                while i < bounds.len()
                    invariant
                        i <= bounds.len(),
                        self@ == TypeModel::Dyn(tr@, texts(bounds@)),
                        forall|k: int|
                            0 <= k < i ==> is_type_text(
                                named_in(namespace@, (#[trigger] bounds@[k])@),
                            ),
                    decreases bounds.len() - i,
                {
                    if !is_name_in(namespace, bounds[i].as_str()) {
                        proof {
                            assert(texts(bounds@)[i as int] == bounds@[i as int]@);
                            assert(!markers_convertible(texts(bounds@), namespace@));
                        }
                        return false;
                    }
                    i += 1;
                }
                proof {
                    assert(markers_convertible(texts(bounds@), namespace@));
                }
                true
            },
            _ => false,
        }
    }
}

impl RustType {
    /// The C++ type of the type, if it has one.
    pub fn try_into_cpp(&self, namespace: &str, crate_name: &str) -> (r: Option<CppType>)
        ensures
            match r {
                Some(t) => convertible(self@, namespace@) && t@ == type_to_cpp(
                    self@,
                    namespace@,
                    crate_name@,
                ),
                None => !convertible(self@, namespace@),
            },
    {
        if self.can_convert(namespace) {
            Some(self.into_cpp(namespace, crate_name))
        } else {
            None
        }
    }
}

} // verus!
