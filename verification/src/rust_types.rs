//! Rust types, traits and paths as the interface files name them.

use crate::text::{
    concat_all, decimal, dec_text, join, join_text, lemma_texts_push, str_eq, strings_copy,
    strings_eq, texts,
};
use vstd::prelude::*;

verus! {

broadcast use vstd::std_specs::vec::group_vec_axioms;

#[derive(Clone, Copy, Debug, PartialEq, Eq, Hash, Structural)]
pub enum Mutability {
    Mut,
    Not,
}

#[derive(Clone, Copy, Debug, PartialEq, Eq, Hash, Structural)]
pub enum PrimitiveRustType {
    /// `u8`, `u16`, ...: an unsigned integer of that many bits.
    Uint(u32),
    /// `i8`, `i16`, ...: a signed integer of that many bits.
    Int(u32),
    /// `f32`, `f64`.
    Float(u32),
    Usize,
    Bool,
    Str,
    Char,
}

/// A path with its generic arguments, those of the form `Name = Type` apart.
#[derive(Debug, PartialEq, Eq, Hash)]
pub struct RustPathAndGenerics {
    pub path: Vec<String>,
    pub generics: Vec<RustType>,
    pub named_generics: Vec<(String, RustType)>,
}

#[derive(Debug, PartialEq, Eq, Hash)]
pub enum RustTrait {
    Normal(RustPathAndGenerics),
    /// `Fn(A, B) -> C` and its relatives.
    Fn { name: String, inputs: Vec<RustType>, output: Box<RustType> },
}

#[derive(Debug, PartialEq, Eq, Hash)]
pub enum RustType {
    Primitive(PrimitiveRustType),
    Ref(Mutability, Box<RustType>),
    Raw(Mutability, Box<RustType>),
    Boxed(Box<RustType>),
    Slice(Box<RustType>),
    Dyn(RustTrait, Vec<String>),
    Impl(RustTrait, Vec<String>),
    Tuple(Vec<RustType>),
    Adt(RustPathAndGenerics),
    /// A variable of the template that a declaration stands in.
    TypeVar(String),
    /// A C++ type, by its path.
    Cpp(Vec<String>),
}

/// What a [`RustPathAndGenerics`] holds.
#[verifier::ext_equal]
pub struct PathModel {
    pub path: Seq<Seq<char>>,
    pub generics: Seq<TypeModel>,
    pub named_generics: Seq<(Seq<char>, TypeModel)>,
}

/// What a [`RustTrait`] holds.
#[verifier::ext_equal]
pub enum TraitModel {
    Normal(PathModel),
    Fn { name: Seq<char>, inputs: Seq<TypeModel>, output: Box<TypeModel> },
}

/// What a [`RustType`] holds.
#[verifier::ext_equal]
pub enum TypeModel {
    Primitive(PrimitiveRustType),
    Ref(Mutability, Box<TypeModel>),
    Raw(Mutability, Box<TypeModel>),
    Boxed(Box<TypeModel>),
    Slice(Box<TypeModel>),
    Dyn(TraitModel, Seq<Seq<char>>),
    Impl(TraitModel, Seq<Seq<char>>),
    Tuple(Seq<TypeModel>),
    Adt(PathModel),
    TypeVar(Seq<char>),
    Cpp(Seq<Seq<char>>),
}

/// What a list of types holds.
pub open spec fn types_view(v: Seq<RustType>) -> Seq<TypeModel>
    decreases v,
{
    Seq::new(v.len(), |i: int| if 0 <= i < v.len() { v[i].view() } else { arbitrary() })
}

/// What a list of named types holds.
pub open spec fn named_view(v: Seq<(String, RustType)>) -> Seq<(Seq<char>, TypeModel)>
    decreases v,
{
    Seq::new(v.len(), |i: int| if 0 <= i < v.len() { (v[i].0@, v[i].1.view()) } else { arbitrary() })
}

/// The unit type.
pub open spec fn unit_model() -> TypeModel {
    TypeModel::Tuple(Seq::empty())
}

impl RustPathAndGenerics {
    pub open spec fn view(&self) -> PathModel
        decreases self,
    {
        PathModel {
            path: texts(self.path@),
            generics: types_view(self.generics@),
            named_generics: named_view(self.named_generics@),
        }
    }
}

impl RustTrait {
    pub open spec fn view(&self) -> TraitModel
        decreases self,
    {
        match self {
            RustTrait::Normal(p) => TraitModel::Normal(p.view()),
            RustTrait::Fn { name, inputs, output } => TraitModel::Fn {
                name: name@,
                inputs: types_view(inputs@),
                output: Box::new(output.view()),
            },
        }
    }
}

impl RustType {
    pub open spec fn view(&self) -> TypeModel
        decreases self,
    {
        match self {
            RustType::Primitive(p) => TypeModel::Primitive(*p),
            RustType::Ref(m, t) => TypeModel::Ref(*m, Box::new(t.view())),
            RustType::Raw(m, t) => TypeModel::Raw(*m, Box::new(t.view())),
            RustType::Boxed(t) => TypeModel::Boxed(Box::new(t.view())),
            RustType::Slice(t) => TypeModel::Slice(Box::new(t.view())),
            RustType::Dyn(t, b) => TypeModel::Dyn(t.view(), texts(b@)),
            RustType::Impl(t, b) => TypeModel::Impl(t.view(), texts(b@)),
            RustType::Tuple(v) => TypeModel::Tuple(types_view(v@)),
            RustType::Adt(p) => TypeModel::Adt(p.view()),
            RustType::TypeVar(v) => TypeModel::TypeVar(v@),
            RustType::Cpp(p) => TypeModel::Cpp(texts(p@)),
        }
    }
}

/// How a primitive type is written.
pub open spec fn primitive_text(p: PrimitiveRustType) -> Seq<char> {
    match p {
        PrimitiveRustType::Uint(s) => "u"@ + dec_text(s as nat),
        PrimitiveRustType::Int(s) => "i"@ + dec_text(s as nat),
        PrimitiveRustType::Float(s) => "f"@ + dec_text(s as nat),
        PrimitiveRustType::Usize => "usize"@,
        PrimitiveRustType::Bool => "bool"@,
        PrimitiveRustType::Str => "str"@,
        PrimitiveRustType::Char => "char"@,
    }
}

/// The segments of a path as they are written: each after `::`, but for `crate`.
pub open spec fn segment_texts(path: Seq<Seq<char>>) -> Seq<Seq<char>> {
    Seq::new(path.len(), |i: int| if path[i] == "crate"@ { path[i] } else { "::"@ + path[i] })
}

/// Each bound after `sign`.
pub open spec fn bound_texts(sign: Seq<char>, bounds: Seq<Seq<char>>) -> Seq<Seq<char>> {
    Seq::new(bounds.len(), |i: int| sign + bounds[i])
}

/// How each type of a list is written.
pub open spec fn types_text(v: Seq<TypeModel>) -> Seq<Seq<char>>
    decreases v,
{
    Seq::new(v.len(), |i: int| if 0 <= i < v.len() { v[i].text() } else { arbitrary() })
}

/// How each named type of a list is written.
pub open spec fn named_text(v: Seq<(Seq<char>, TypeModel)>) -> Seq<Seq<char>>
    decreases v,
{
    Seq::new(
        v.len(),
        |i: int| if 0 <= i < v.len() { v[i].0 + " = "@ + v[i].1.text() } else { arbitrary() },
    )
}

impl PathModel {
    /// How the path is written in Rust.
    pub open spec fn text(&self) -> Seq<char>
        decreases self,
    {
        if self.generics.len() == 0 && self.named_generics.len() == 0 {
            concat_all(segment_texts(self.path))
        } else {
            concat_all(segment_texts(self.path)) + "::<"@ + join_text(
                types_text(self.generics) + named_text(self.named_generics),
                ", "@,
            ) + ">"@
        }
    }
}

impl TraitModel {
    /// How the trait is written in Rust.
    pub open spec fn text(&self) -> Seq<char>
        decreases self,
    {
        match self {
            TraitModel::Normal(p) => p.text(),
            TraitModel::Fn { name, inputs, output } => {
                let head = name + "("@ + join_text(types_text(*inputs), ", "@) + ")"@;
                if **output == unit_model() {
                    head
                } else {
                    head + " -> "@ + output.text()
                }
            },
        }
    }

    /// The trait without its associated types.
    pub open spec fn without_assocs(&self) -> TraitModel {
        match self {
            TraitModel::Normal(p) => TraitModel::Normal(
                PathModel { path: p.path, generics: p.generics, named_generics: Seq::empty() },
            ),
            _ => *self,
        }
    }

    /// The associated types of the trait.
    pub open spec fn assocs(&self) -> Seq<(Seq<char>, TypeModel)> {
        match self {
            TraitModel::Normal(p) => p.named_generics,
            _ => Seq::empty(),
        }
    }
}

impl TypeModel {
    /// How the type is written in Rust.
    pub open spec fn text(&self) -> Seq<char>
        decreases self,
    {
        match self {
            TypeModel::Primitive(p) => primitive_text(*p),
            TypeModel::Ref(m, t) => (if *m == Mutability::Mut {
                "&mut "@
            } else {
                "&"@
            }) + t.text(),
            TypeModel::Raw(m, t) => (if *m == Mutability::Mut {
                "*mut "@
            } else {
                "*const "@
            }) + t.text(),
            TypeModel::Boxed(t) => "Box<"@ + t.text() + ">"@,
            TypeModel::Slice(t) => "["@ + t.text() + "]"@,
            TypeModel::Dyn(t, b) => "dyn "@ + t.text() + concat_all(bound_texts("+ "@, *b)),
            TypeModel::Impl(t, b) => "impl "@ + t.text() + concat_all(bound_texts(" + "@, *b)),
            TypeModel::Tuple(v) => "("@ + join_text(types_text(*v), ", "@) + ")"@,
            TypeModel::Adt(p) => p.text(),
            TypeModel::TypeVar(v) => *v,
            TypeModel::Cpp(p) => "c++::"@ + join_text(*p, "::"@),
        }
    }
}

/// Whether two lists of types are the same.
pub fn types_same(a: &Vec<RustType>, b: &Vec<RustType>) -> (r: bool)
    ensures
        r == (types_view(a@) == types_view(b@)),
    decreases a,
{
    if a.len() != b.len() {
        proof {
            assert(types_view(a@).len() != types_view(b@).len());
        }
        return false;
    }
    let mut i: usize = 0;
    while i < a.len()
        invariant
            i <= a.len(),
            a.len() == b.len(),
            forall|k: int| 0 <= k < i ==> (#[trigger] a@[k]).view() == b@[k].view(),
        decreases a.len() - i,
    {
        if !a[i].same_as(&b[i]) {
            proof {
                assert(types_view(a@)[i as int] != types_view(b@)[i as int]);
            }
            return false;
        }
        i += 1;
    }
    proof {
        assert(types_view(a@) =~= types_view(b@));
    }
    true
}

/// Whether two lists of named types are the same.
pub fn named_same(a: &Vec<(String, RustType)>, b: &Vec<(String, RustType)>) -> (r: bool)
    ensures
        r == (named_view(a@) == named_view(b@)),
    decreases a,
{
    if a.len() != b.len() {
        proof {
            assert(named_view(a@).len() != named_view(b@).len());
        }
        return false;
    }
    let mut i: usize = 0;
    while i < a.len()
        invariant
            i <= a.len(),
            a.len() == b.len(),
            forall|k: int|
                0 <= k < i ==> (#[trigger] a@[k]).0@ == b@[k].0@ && a@[k].1.view() == b@[k].1.view(),
        decreases a.len() - i,
    {
        if a[i].0 != b[i].0 || !a[i].1.same_as(&b[i].1) {
            proof {
                assert(named_view(a@)[i as int] != named_view(b@)[i as int]);
            }
            return false;
        }
        i += 1;
    }
    proof {
        assert(named_view(a@) =~= named_view(b@));
    }
    true
}

/// A copy of a list of types.
pub fn types_copy(v: &Vec<RustType>) -> (r: Vec<RustType>)
    ensures
        types_view(r@) == types_view(v@),
        r@.len() == v@.len(),
    decreases v,
{
    let mut r: Vec<RustType> = Vec::new();
    let mut i: usize = 0;
    while i < v.len()
        invariant
            i <= v.len(),
            r.len() == i,
            forall|k: int| 0 <= k < i ==> (#[trigger] r@[k]).view() == v@[k].view(),
        decreases v.len() - i,
    {
        r.push(v[i].copy());
        i += 1;
    }
    proof {
        assert(types_view(r@) =~= types_view(v@));
    }
    r
}

/// A copy of a list of named types.
pub fn named_copy(v: &Vec<(String, RustType)>) -> (r: Vec<(String, RustType)>)
    ensures
        named_view(r@) == named_view(v@),
        r@.len() == v@.len(),
    decreases v,
{
    let mut r: Vec<(String, RustType)> = Vec::new();
    let mut i: usize = 0;
    while i < v.len()
        invariant
            i <= v.len(),
            r.len() == i,
            forall|k: int|
                0 <= k < i ==> (#[trigger] r@[k]).0@ == v@[k].0@ && r@[k].1.view() == v@[k].1.view(),
        decreases v.len() - i,
    {
        r.push((v[i].0.clone(), v[i].1.copy()));
        i += 1;
    }
    proof {
        assert(named_view(r@) =~= named_view(v@));
    }
    r
}

/// How each type of a list is written.
pub fn type_texts(v: &Vec<RustType>) -> (r: Vec<String>)
    ensures
        texts(r@) == types_text(types_view(v@)),
        r@.len() == v@.len(),
    decreases v,
{
    let mut r: Vec<String> = Vec::new();
    let mut i: usize = 0;
    while i < v.len()
        invariant
            i <= v.len(),
            r.len() == i,
            forall|k: int| 0 <= k < i ==> (#[trigger] r@[k])@ == v@[k].view().text(),
        decreases v.len() - i,
    {
        r.push(v[i].to_text());
        i += 1;
    }
    proof {
        assert(texts(r@) =~= types_text(types_view(v@)));
    }
    r
}

/// `front`, followed by the named types as they are written.
fn with_named_texts(front: Vec<String>, n: &Vec<(String, RustType)>) -> (r: Vec<String>)
    ensures
        texts(r@) == texts(front@) + named_text(named_view(n@)),
    decreases n,
{
    let ghost head = front@;
    let mut r = front;
    let mut i: usize = 0;
    proof {
        assert(texts(r@) =~= texts(head) + named_text(named_view(n@)).take(0));
    }
    while i < n.len()
        invariant
            i <= n.len(),
            texts(r@) == texts(head) + named_text(named_view(n@)).take(i as int),
        decreases n.len() - i,
    {
        let mut s = n[i].0.clone();
        s.append(" = ");
        s.append(n[i].1.to_text().as_str());
        proof {
            let all = named_text(named_view(n@));
            assert(named_view(n@)[i as int] == (n@[i as int].0@, n@[i as int].1.view()));
            assert(s@ == all[i as int]);
            lemma_texts_push(r@, s);
            assert(texts(head) + all.take(i + 1) =~= (texts(head) + all.take(i as int)).push(s@));
        }
        r.push(s);
        i += 1;
    }
    proof {
        let all = named_text(named_view(n@));
        assert(all.take(i as int) =~= all);
    }
    r
}

/// The segments of a path, as they are written.
fn path_segments(path: &Vec<String>) -> (r: Vec<String>)
    ensures
        texts(r@) == segment_texts(texts(path@)),
{
    let mut r: Vec<String> = Vec::new();
    let mut i: usize = 0;
    while i < path.len()
        invariant
            i <= path.len(),
            r.len() == i,
            forall|k: int|
                0 <= k < i ==> (#[trigger] r@[k])@ == segment_texts(texts(path@))[k],
        decreases path.len() - i,
    {
        if str_eq(path[i].as_str(), "crate") {
            r.push(path[i].clone());
        } else {
            let mut s = String::from_str("::");
            s.append(path[i].as_str());
            r.push(s);
        }
        i += 1;
    }
    proof {
        assert(texts(r@) =~= segment_texts(texts(path@)));
    }
    r
}

/// Each bound after `sign`.
fn signed_bounds(sign: &str, bounds: &Vec<String>) -> (r: Vec<String>)
    ensures
        texts(r@) == bound_texts(sign@, texts(bounds@)),
{
    let mut r: Vec<String> = Vec::new();
    let mut i: usize = 0;
    while i < bounds.len()
        invariant
            i <= bounds.len(),
            r.len() == i,
            forall|k: int| 0 <= k < i ==> (#[trigger] r@[k])@ == sign@ + bounds@[k]@,
        decreases bounds.len() - i,
    {
        let mut s = String::from_str(sign);
        s.append(bounds[i].as_str());
        r.push(s);
        i += 1;
    }
    proof {
        assert(texts(r@) =~= bound_texts(sign@, texts(bounds@)));
    }
    r
}

impl PrimitiveRustType {
    /// How the type is written.
    pub fn to_text(&self) -> (r: String)
        ensures
            r@ == primitive_text(*self),
    {
        match self {
            PrimitiveRustType::Uint(s) => {
                let mut r = String::from_str("u");
                r.append(decimal(*s as usize).as_str());
                r
            },
            PrimitiveRustType::Int(s) => {
                let mut r = String::from_str("i");
                r.append(decimal(*s as usize).as_str());
                r
            },
            PrimitiveRustType::Float(s) => {
                let mut r = String::from_str("f");
                r.append(decimal(*s as usize).as_str());
                r
            },
            PrimitiveRustType::Usize => String::from_str("usize"),
            PrimitiveRustType::Bool => String::from_str("bool"),
            PrimitiveRustType::Str => String::from_str("str"),
            PrimitiveRustType::Char => String::from_str("char"),
        }
    }
}

impl RustPathAndGenerics {
    /// How the path is written in Rust.
    pub fn to_text(&self) -> (r: String)
        ensures
            r@ == self@.text(),
        decreases self,
    {
        let segments = path_segments(&self.path);
        let mut r = crate::text::concat_strings(&segments);
        if !(self.generics.len() == 0 && self.named_generics.len() == 0) {
            let args = with_named_texts(type_texts(&self.generics), &self.named_generics);
            r.append("::<");
            r.append(join(&args, ", ").as_str());
            r.append(">");
        }
        r
    }

    /// Whether two paths are the same.
    pub fn same_as(&self, other: &RustPathAndGenerics) -> (r: bool)
        ensures
            r == (self@ == other@),
        decreases self,
    {
        strings_eq(&self.path, &other.path) && types_same(&self.generics, &other.generics)
            && named_same(&self.named_generics, &other.named_generics)
    }

    /// A copy of the path.
    pub fn copy(&self) -> (r: RustPathAndGenerics)
        ensures
            r@ == self@,
        decreases self,
    {
        RustPathAndGenerics {
            path: strings_copy(&self.path),
            generics: types_copy(&self.generics),
            named_generics: named_copy(&self.named_generics),
        }
    }
}

impl RustTrait {
    /// How the trait is written in Rust.
    pub fn to_text(&self) -> (r: String)
        ensures
            r@ == self@.text(),
        decreases self,
    {
        match self {
            RustTrait::Normal(p) => p.to_text(),
            RustTrait::Fn { name, inputs, output } => {
                let mut r = name.clone();
                r.append("(");
                let args = type_texts(inputs);
                r.append(join(&args, ", ").as_str());
                r.append(")");
                if !output.is_unit() {
                    r.append(" -> ");
                    r.append(output.to_text().as_str());
                }
                r
            },
        }
    }

    /// Whether two traits are the same.
    pub fn same_as(&self, other: &RustTrait) -> (r: bool)
        ensures
            r == (self@ == other@),
        decreases self,
    {
        match (self, other) {
            (RustTrait::Normal(a), RustTrait::Normal(b)) => a.same_as(b),
            (
                RustTrait::Fn { name: n1, inputs: i1, output: o1 },
                RustTrait::Fn { name: n2, inputs: i2, output: o2 },
            ) => *n1 == *n2 && types_same(i1, i2) && o1.same_as(o2),
            _ => false,
        }
    }

    /// A copy of the trait.
    pub fn copy(&self) -> (r: RustTrait)
        ensures
            r@ == self@,
        decreases self,
    {
        match self {
            RustTrait::Normal(p) => RustTrait::Normal(p.copy()),
            RustTrait::Fn { name, inputs, output } => RustTrait::Fn {
                name: name.clone(),
                inputs: types_copy(inputs),
                output: Box::new(output.copy()),
            },
        }
    }

    /// The trait without its associated types, and those types.
    pub fn take_assocs(&self) -> (r: (RustTrait, Vec<(String, RustType)>))
        ensures
            r.0@ == self@.without_assocs(),
            named_view(r.1@) == self@.assocs(),
    {
        match self {
            RustTrait::Normal(p) => {
                let tr = RustTrait::Normal(
                    RustPathAndGenerics {
                        path: strings_copy(&p.path),
                        generics: types_copy(&p.generics),
                        named_generics: Vec::new(),
                    },
                );
                proof {
                    assert(named_view(Seq::<(String, RustType)>::empty()) =~= Seq::empty());
                }
                (tr, named_copy(&p.named_generics))
            },
            RustTrait::Fn { .. } => {
                let none: Vec<(String, RustType)> = Vec::new();
                proof {
                    assert(named_view(none@) =~= Seq::empty());
                }
                (self.copy(), none)
            },
        }
    }
}

impl RustType {
    /// How the type is written in Rust.
    pub fn to_text(&self) -> (r: String)
        ensures
            r@ == self@.text(),
        decreases self,
    {
        match self {
            RustType::Primitive(p) => p.to_text(),
            RustType::Ref(m, t) => {
                let mut r = String::from_str(
                    if *m == Mutability::Mut {
                        "&mut "
                    } else {
                        "&"
                    },
                );
                r.append(t.to_text().as_str());
                r
            },
            RustType::Raw(m, t) => {
                let mut r = String::from_str(
                    if *m == Mutability::Mut {
                        "*mut "
                    } else {
                        "*const "
                    },
                );
                r.append(t.to_text().as_str());
                r
            },
            RustType::Boxed(t) => {
                let mut r = String::from_str("Box<");
                r.append(t.to_text().as_str());
                r.append(">");
                r
            },
            RustType::Slice(t) => {
                let mut r = String::from_str("[");
                r.append(t.to_text().as_str());
                r.append("]");
                r
            },
            RustType::Dyn(t, b) => {
                let mut r = String::from_str("dyn ");
                r.append(t.to_text().as_str());
                let bounds = signed_bounds("+ ", b);
                r.append(crate::text::concat_strings(&bounds).as_str());
                r
            },
            RustType::Impl(t, b) => {
                let mut r = String::from_str("impl ");
                r.append(t.to_text().as_str());
                let bounds = signed_bounds(" + ", b);
                r.append(crate::text::concat_strings(&bounds).as_str());
                r
            },
            RustType::Tuple(v) => {
                let mut r = String::from_str("(");
                let args = type_texts(v);
                r.append(join(&args, ", ").as_str());
                r.append(")");
                r
            },
            RustType::Adt(p) => p.to_text(),
            RustType::TypeVar(v) => v.clone(),
            RustType::Cpp(p) => {
                let mut r = String::from_str("c++::");
                r.append(join(p, "::").as_str());
                r
            },
        }
    }

    /// Whether this is the unit type.
    pub fn is_unit(&self) -> (r: bool)
        ensures
            r == (self@ == unit_model()),
    {
        match self {
            RustType::Tuple(v) => {
                proof {
                    if v@.len() == 0 {
                        assert(types_view(v@) =~= Seq::empty());
                    }
                    assert(types_view(v@).len() == v@.len());
                }
                v.len() == 0
            },
            _ => false,
        }
    }

    /// The unit type.
    pub fn unit() -> (r: RustType)
        ensures
            r@ == unit_model(),
    {
        let r = RustType::Tuple(Vec::new());
        proof {
            assert(types_view(Seq::<RustType>::empty()) =~= Seq::empty());
        }
        r
    }

    /// Whether two types are the same.
    pub fn same_as(&self, other: &RustType) -> (r: bool)
        ensures
            r == (self@ == other@),
        decreases self,
    {
        match (self, other) {
            (RustType::Primitive(a), RustType::Primitive(b)) => *a == *b,
            (RustType::Ref(m, a), RustType::Ref(n, b)) => *m == *n && a.same_as(b),
            (RustType::Raw(m, a), RustType::Raw(n, b)) => *m == *n && a.same_as(b),
            (RustType::Boxed(a), RustType::Boxed(b)) => a.same_as(b),
            (RustType::Slice(a), RustType::Slice(b)) => a.same_as(b),
            (RustType::Dyn(a, m), RustType::Dyn(b, n)) => strings_eq(m, n) && a.same_as(b),
            (RustType::Impl(a, m), RustType::Impl(b, n)) => strings_eq(m, n) && a.same_as(b),
            (RustType::Tuple(a), RustType::Tuple(b)) => types_same(a, b),
            (RustType::Adt(a), RustType::Adt(b)) => a.same_as(b),
            (RustType::TypeVar(a), RustType::TypeVar(b)) => *a == *b,
            (RustType::Cpp(a), RustType::Cpp(b)) => strings_eq(a, b),
            _ => false,
        }
    }

    /// A copy of the type.
    pub fn copy(&self) -> (r: RustType)
        ensures
            r@ == self@,
        decreases self,
    {
        match self {
            RustType::Primitive(p) => RustType::Primitive(*p),
            RustType::Ref(m, t) => RustType::Ref(*m, Box::new(t.copy())),
            RustType::Raw(m, t) => RustType::Raw(*m, Box::new(t.copy())),
            RustType::Boxed(t) => RustType::Boxed(Box::new(t.copy())),
            RustType::Slice(t) => RustType::Slice(Box::new(t.copy())),
            RustType::Dyn(t, b) => RustType::Dyn(t.copy(), strings_copy(b)),
            RustType::Impl(t, b) => RustType::Impl(t.copy(), strings_copy(b)),
            RustType::Tuple(v) => RustType::Tuple(types_copy(v)),
            RustType::Adt(p) => RustType::Adt(p.copy()),
            RustType::TypeVar(v) => RustType::TypeVar(v.clone()),
            RustType::Cpp(p) => RustType::Cpp(strings_copy(p)),
        }
    }
}

} // verus!
