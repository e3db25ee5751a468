//! The declarations of an interface: what the `.zng` files say of each type,
//! trait and function.

use crate::rust_types::{
    named_copy, named_same, named_view, types_copy, types_same, types_view, Mutability, PathModel,
    RustPathAndGenerics, RustTrait, RustType, TraitModel, TypeModel,
};
use crate::text::{strings_copy, strings_eq, texts};
use vstd::prelude::*;

verus! {

broadcast use vstd::std_specs::vec::group_vec_axioms;

#[derive(Clone, Copy, Debug, PartialEq, Eq, Hash, Structural)]
pub enum LayoutPolicy {
    /// The value lives on the C++ stack, in that many bytes at that alignment.
    StackAllocated { size: usize, align: usize },
    /// As `StackAllocated`, where size and alignment are upper bounds.
    Conservative { size: usize, align: usize },
    /// The value lives on the Rust heap.
    HeapAllocated,
    /// C++ holds references to the value alone.
    OnlyByRef,
}

impl LayoutPolicy {
    /// The layout of a type without data.
    #[verifier::allow_in_spec]
    pub fn zero_sized_type() -> LayoutPolicy
        returns
            (LayoutPolicy::StackAllocated { size: 0, align: 1 }),
    {
        LayoutPolicy::StackAllocated { size: 0, align: 1 }
    }
}

#[derive(Clone, Copy, Debug, PartialEq, Eq, Hash, Structural)]
pub enum ZngurMethodReceiver {
    Static,
    Ref(Mutability),
    Move,
}

#[derive(Clone, Copy, Debug, PartialEq, Eq, Hash, Structural)]
pub enum ZngurWellknownTrait {
    Debug,
    Drop,
    Unsized,
    Copy,
}

/// A method signature.
#[derive(Debug, PartialEq, Eq, Hash)]
pub struct ZngurMethod {
    pub name: String,
    pub generics: Vec<RustType>,
    pub receiver: ZngurMethodReceiver,
    pub inputs: Vec<RustType>,
    pub output: RustType,
    pub is_safe: bool,
}

/// What a [`ZngurMethod`] holds.
#[verifier::ext_equal]
pub struct MethodModel {
    pub name: Seq<char>,
    pub generics: Seq<TypeModel>,
    pub receiver: ZngurMethodReceiver,
    pub inputs: Seq<TypeModel>,
    pub output: TypeModel,
    pub is_safe: bool,
}

/// A method of a type, and how it is called.
#[derive(Debug, PartialEq, Eq, Hash)]
pub struct ZngurMethodDetails {
    pub data: ZngurMethod,
    pub use_path: Option<Vec<String>>,
    pub deref: Option<(RustType, Mutability)>,
    pub cpp_name: Option<String>,
}

/// What a [`ZngurMethodDetails`] holds.
#[verifier::ext_equal]
pub struct MethodDetailsModel {
    pub data: MethodModel,
    pub use_path: Option<Seq<Seq<char>>>,
    pub deref: Option<(TypeModel, Mutability)>,
    pub cpp_name: Option<Seq<char>>,
}

/// A field of a type; no offset means that Rust tells it.
#[derive(Debug, PartialEq, Eq, Hash)]
pub struct ZngurField {
    pub name: String,
    pub ty: RustType,
    pub offset: Option<usize>,
}

/// What a [`ZngurField`] holds.
#[verifier::ext_equal]
pub struct FieldModel {
    pub name: Seq<char>,
    pub ty: TypeModel,
    pub offset: Option<usize>,
}

/// The fields that build a value of a type.
#[derive(Debug, PartialEq, Eq, Hash)]
pub struct ZngurConstructor {
    pub inputs: Vec<(String, RustType)>,
}

/// What a [`ZngurConstructor`] holds.
#[verifier::ext_equal]
pub struct ConstructorModel {
    pub inputs: Seq<(Seq<char>, TypeModel)>,
}

/// A variant of an enum.
#[derive(Debug, PartialEq, Eq, Hash)]
pub struct ZngurVariant {
    pub name: String,
    pub fields: Vec<ZngurField>,
    pub exhaustive: bool,
}

/// What a [`ZngurVariant`] holds.
#[verifier::ext_equal]
pub struct VariantModel {
    pub name: Seq<char>,
    pub fields: Seq<FieldModel>,
    pub exhaustive: bool,
}

/// A C++ type whose values Rust holds in place.
#[derive(Debug, PartialEq, Eq, Hash)]
pub struct CppStackOwned {
    pub cpp_type: String,
    pub size: usize,
    pub align: usize,
}

/// What a [`CppStackOwned`] holds.
#[verifier::ext_equal]
pub struct CppStackOwnedModel {
    pub cpp_type: Seq<char>,
    pub size: usize,
    pub align: usize,
}

/// A trait and the methods that C++ implements.
#[derive(Debug, PartialEq, Eq, Hash)]
pub struct ZngurTrait {
    pub tr: RustTrait,
    pub methods: Vec<ZngurMethod>,
}

/// What a [`ZngurTrait`] holds.
#[verifier::ext_equal]
pub struct ZngurTraitModel {
    pub tr: TraitModel,
    pub methods: Seq<MethodModel>,
}

/// A free function of Rust.
#[derive(Debug, PartialEq, Eq, Hash)]
pub struct ZngurFn {
    pub path: RustPathAndGenerics,
    pub inputs: Vec<RustType>,
    pub output: RustType,
}

/// What a [`ZngurFn`] holds.
#[verifier::ext_equal]
pub struct FnModel {
    pub path: PathModel,
    pub inputs: Seq<TypeModel>,
    pub output: TypeModel,
}

/// A function that C++ provides.
#[derive(Debug, PartialEq, Eq, Hash)]
pub struct ZngurExternCppFn {
    pub name: String,
    pub inputs: Vec<RustType>,
    pub output: RustType,
    pub is_safe: bool,
}

/// What a [`ZngurExternCppFn`] holds.
#[verifier::ext_equal]
pub struct ExternCppFnModel {
    pub name: Seq<char>,
    pub inputs: Seq<TypeModel>,
    pub output: TypeModel,
    pub is_safe: bool,
}

/// An impl block that C++ provides.
#[derive(Debug, PartialEq, Eq, Hash)]
pub struct ZngurExternCppImpl {
    pub tr: Option<RustTrait>,
    pub ty: RustType,
    pub methods: Vec<ZngurMethod>,
}

/// What a [`ZngurExternCppImpl`] holds.
#[verifier::ext_equal]
pub struct ExternCppImplModel {
    pub tr: Option<TraitModel>,
    pub ty: TypeModel,
    pub methods: Seq<MethodModel>,
}

/// The text of an optional string.
pub open spec fn opt_text(s: Option<String>) -> Option<Seq<char>> {
    match s {
        Some(x) => Some(x@),
        None => None,
    }
}

/// The texts of an optional list of strings.
pub open spec fn opt_texts(s: Option<Vec<String>>) -> Option<Seq<Seq<char>>> {
    match s {
        Some(x) => Some(texts(x@)),
        None => None,
    }
}

/// What an optional deref target holds.
pub open spec fn deref_view(d: Option<(RustType, Mutability)>) -> Option<(TypeModel, Mutability)> {
    match d {
        Some(x) => Some((x.0.view(), x.1)),
        None => None,
    }
}

/// What an optional trait holds.
pub open spec fn opt_trait(t: Option<RustTrait>) -> Option<TraitModel> {
    match t {
        Some(x) => Some(x.view()),
        None => None,
    }
}

fn opt_usize_same(a: Option<usize>, b: Option<usize>) -> (r: bool)
    ensures
        r == (a == b),
{
    match (a, b) {
        (Some(x), Some(y)) => x == y,
        (None, None) => true,
        _ => false,
    }
}

pub fn opt_text_same(a: &Option<String>, b: &Option<String>) -> (r: bool)
    ensures
        r == (opt_text(*a) == opt_text(*b)),
{
    match (a, b) {
        (Some(x), Some(y)) => *x == *y,
        (None, None) => true,
        _ => false,
    }
}

pub fn opt_text_copy(a: &Option<String>) -> (r: Option<String>)
    ensures
        opt_text(r) == opt_text(*a),
{
    match a {
        Some(x) => Some(x.clone()),
        None => None,
    }
}

fn opt_texts_same(a: &Option<Vec<String>>, b: &Option<Vec<String>>) -> (r: bool)
    ensures
        r == (opt_texts(*a) == opt_texts(*b)),
{
    match (a, b) {
        (Some(x), Some(y)) => strings_eq(x, y),
        (None, None) => true,
        _ => false,
    }
}

pub fn opt_texts_copy(a: &Option<Vec<String>>) -> (r: Option<Vec<String>>)
    ensures
        opt_texts(r) == opt_texts(*a),
{
    match a {
        Some(x) => Some(strings_copy(x)),
        None => None,
    }
}

fn deref_same(a: &Option<(RustType, Mutability)>, b: &Option<(RustType, Mutability)>) -> (r: bool)
    ensures
        r == (deref_view(*a) == deref_view(*b)),
{
    match (a, b) {
        (Some(x), Some(y)) => x.0.same_as(&y.0) && x.1 == y.1,
        (None, None) => true,
        _ => false,
    }
}

pub fn deref_copy(a: &Option<(RustType, Mutability)>) -> (r: Option<(RustType, Mutability)>)
    ensures
        deref_view(r) == deref_view(*a),
{
    match a {
        Some(x) => Some((x.0.copy(), x.1)),
        None => None,
    }
}

fn opt_trait_same(a: &Option<RustTrait>, b: &Option<RustTrait>) -> (r: bool)
    ensures
        r == (opt_trait(*a) == opt_trait(*b)),
{
    match (a, b) {
        (Some(x), Some(y)) => x.same_as(y),
        (None, None) => true,
        _ => false,
    }
}

pub fn opt_trait_copy(a: &Option<RustTrait>) -> (r: Option<RustTrait>)
    ensures
        opt_trait(r) == opt_trait(*a),
{
    match a {
        Some(x) => Some(x.copy()),
        None => None,
    }
}

impl ZngurMethod {
    pub open spec fn view(&self) -> MethodModel {
        MethodModel {
            name: self.name@,
            generics: types_view(self.generics@),
            receiver: self.receiver,
            inputs: types_view(self.inputs@),
            output: self.output.view(),
            is_safe: self.is_safe,
        }
    }

    /// Whether two values are the same.
    pub fn same_as(&self, other: &ZngurMethod) -> (r: bool)
        ensures
            r == (self@ == other@),
    {
        self.name == other.name && types_same(&self.generics, &other.generics) && self.receiver == other.receiver && types_same(&self.inputs, &other.inputs) && self.output.same_as(&other.output) && self.is_safe == other.is_safe
    }

    /// A copy.
    pub fn copy(&self) -> (r: ZngurMethod)
        ensures
            r@ == self@,
    {
        ZngurMethod {
            name: self.name.clone(),
            generics: types_copy(&self.generics),
            receiver: self.receiver,
            inputs: types_copy(&self.inputs),
            output: self.output.copy(),
            is_safe: self.is_safe,
        }
    }
}

impl ZngurMethodDetails {
    pub open spec fn view(&self) -> MethodDetailsModel {
        MethodDetailsModel {
            data: self.data.view(),
            use_path: opt_texts(self.use_path),
            deref: deref_view(self.deref),
            cpp_name: opt_text(self.cpp_name),
        }
    }

    /// Whether two values are the same.
    pub fn same_as(&self, other: &ZngurMethodDetails) -> (r: bool)
        ensures
            r == (self@ == other@),
    {
        self.data.same_as(&other.data) && opt_texts_same(&self.use_path, &other.use_path) && deref_same(&self.deref, &other.deref) && opt_text_same(&self.cpp_name, &other.cpp_name)
    }

    /// A copy.
    pub fn copy(&self) -> (r: ZngurMethodDetails)
        ensures
            r@ == self@,
    {
        ZngurMethodDetails {
            data: self.data.copy(),
            use_path: opt_texts_copy(&self.use_path),
            deref: deref_copy(&self.deref),
            cpp_name: opt_text_copy(&self.cpp_name),
        }
    }
}

impl ZngurField {
    pub open spec fn view(&self) -> FieldModel {
        FieldModel {
            name: self.name@,
            ty: self.ty.view(),
            offset: self.offset,
        }
    }

    /// Whether two values are the same.
    pub fn same_as(&self, other: &ZngurField) -> (r: bool)
        ensures
            r == (self@ == other@),
    {
        self.name == other.name && self.ty.same_as(&other.ty) && opt_usize_same(self.offset, other.offset)
    }

    /// A copy.
    pub fn copy(&self) -> (r: ZngurField)
        ensures
            r@ == self@,
    {
        ZngurField {
            name: self.name.clone(),
            ty: self.ty.copy(),
            offset: self.offset,
        }
    }
}

impl ZngurConstructor {
    pub open spec fn view(&self) -> ConstructorModel {
        ConstructorModel {
            inputs: named_view(self.inputs@),
        }
    }

    /// Whether two values are the same.
    pub fn same_as(&self, other: &ZngurConstructor) -> (r: bool)
        ensures
            r == (self@ == other@),
    {
        named_same(&self.inputs, &other.inputs)
    }

    /// A copy.
    pub fn copy(&self) -> (r: ZngurConstructor)
        ensures
            r@ == self@,
    {
        ZngurConstructor {
            inputs: named_copy(&self.inputs),
        }
    }
}

impl ZngurVariant {
    pub open spec fn view(&self) -> VariantModel {
        VariantModel {
            name: self.name@,
            fields: fields_view(self.fields@),
            exhaustive: self.exhaustive,
        }
    }

    /// Whether two values are the same.
    pub fn same_as(&self, other: &ZngurVariant) -> (r: bool)
        ensures
            r == (self@ == other@),
    {
        self.name == other.name && fields_same(&self.fields, &other.fields) && self.exhaustive == other.exhaustive
    }

    /// A copy.
    pub fn copy(&self) -> (r: ZngurVariant)
        ensures
            r@ == self@,
    {
        ZngurVariant {
            name: self.name.clone(),
            fields: fields_copy(&self.fields),
            exhaustive: self.exhaustive,
        }
    }
}

impl CppStackOwned {
    pub open spec fn view(&self) -> CppStackOwnedModel {
        CppStackOwnedModel {
            cpp_type: self.cpp_type@,
            size: self.size,
            align: self.align,
        }
    }

    /// Whether two values are the same.
    pub fn same_as(&self, other: &CppStackOwned) -> (r: bool)
        ensures
            r == (self@ == other@),
    {
        self.cpp_type == other.cpp_type && self.size == other.size && self.align == other.align
    }

    /// A copy.
    pub fn copy(&self) -> (r: CppStackOwned)
        ensures
            r@ == self@,
    {
        CppStackOwned {
            cpp_type: self.cpp_type.clone(),
            size: self.size,
            align: self.align,
        }
    }
}

impl ZngurTrait {
    pub open spec fn view(&self) -> ZngurTraitModel {
        ZngurTraitModel {
            tr: self.tr.view(),
            methods: methods_view(self.methods@),
        }
    }

    /// Whether two values are the same.
    pub fn same_as(&self, other: &ZngurTrait) -> (r: bool)
        ensures
            r == (self@ == other@),
    {
        self.tr.same_as(&other.tr) && methods_same(&self.methods, &other.methods)
    }

    /// A copy.
    pub fn copy(&self) -> (r: ZngurTrait)
        ensures
            r@ == self@,
    {
        ZngurTrait {
            tr: self.tr.copy(),
            methods: methods_copy(&self.methods),
        }
    }
}

impl ZngurFn {
    pub open spec fn view(&self) -> FnModel {
        FnModel {
            path: self.path.view(),
            inputs: types_view(self.inputs@),
            output: self.output.view(),
        }
    }

    /// Whether two values are the same.
    pub fn same_as(&self, other: &ZngurFn) -> (r: bool)
        ensures
            r == (self@ == other@),
    {
        self.path.same_as(&other.path) && types_same(&self.inputs, &other.inputs) && self.output.same_as(&other.output)
    }

    /// A copy.
    pub fn copy(&self) -> (r: ZngurFn)
        ensures
            r@ == self@,
    {
        ZngurFn {
            path: self.path.copy(),
            inputs: types_copy(&self.inputs),
            output: self.output.copy(),
        }
    }
}

impl ZngurExternCppFn {
    pub open spec fn view(&self) -> ExternCppFnModel {
        ExternCppFnModel {
            name: self.name@,
            inputs: types_view(self.inputs@),
            output: self.output.view(),
            is_safe: self.is_safe,
        }
    }

    /// Whether two values are the same.
    pub fn same_as(&self, other: &ZngurExternCppFn) -> (r: bool)
        ensures
            r == (self@ == other@),
    {
        self.name == other.name && types_same(&self.inputs, &other.inputs) && self.output.same_as(&other.output) && self.is_safe == other.is_safe
    }

    /// A copy.
    pub fn copy(&self) -> (r: ZngurExternCppFn)
        ensures
            r@ == self@,
    {
        ZngurExternCppFn {
            name: self.name.clone(),
            inputs: types_copy(&self.inputs),
            output: self.output.copy(),
            is_safe: self.is_safe,
        }
    }
}

impl ZngurExternCppImpl {
    pub open spec fn view(&self) -> ExternCppImplModel {
        ExternCppImplModel {
            tr: opt_trait(self.tr),
            ty: self.ty.view(),
            methods: methods_view(self.methods@),
        }
    }

    /// Whether two values are the same.
    pub fn same_as(&self, other: &ZngurExternCppImpl) -> (r: bool)
        ensures
            r == (self@ == other@),
    {
        opt_trait_same(&self.tr, &other.tr) && self.ty.same_as(&other.ty) && methods_same(&self.methods, &other.methods)
    }

    /// A copy.
    pub fn copy(&self) -> (r: ZngurExternCppImpl)
        ensures
            r@ == self@,
    {
        ZngurExternCppImpl {
            tr: opt_trait_copy(&self.tr),
            ty: self.ty.copy(),
            methods: methods_copy(&self.methods),
        }
    }
}

/// What a list of [`ZngurMethod`] holds.
pub open spec fn methods_view(v: Seq<ZngurMethod>) -> Seq<MethodModel> {
    Seq::new(v.len(), |i: int| v[i].view())
}

/// Whether two lists are the same.
pub fn methods_same(a: &Vec<ZngurMethod>, b: &Vec<ZngurMethod>) -> (r: bool)
    ensures
        r == (methods_view(a@) == methods_view(b@)),
{
    if a.len() != b.len() {
        proof {
            assert(methods_view(a@).len() != methods_view(b@).len());
        }
        return false;
    }
    let mut i: usize = 0;
    while i < a.len()
        invariant
            i <= a.len(),
            a.len() == b.len(),
            forall|k: int| 0 <= k < i ==> (#[trigger] a@[k]).view() == b@[k].view(),
        decreases a.len() - i,
    {
        if !a[i].same_as(&b[i]) {
            proof {
                assert(methods_view(a@)[i as int] != methods_view(b@)[i as int]);
            }
            return false;
        }
        i += 1;
    }
    proof {
        assert(methods_view(a@) =~= methods_view(b@));
    }
    true
}

/// A copy of a list.
pub fn methods_copy(v: &Vec<ZngurMethod>) -> (r: Vec<ZngurMethod>)
    ensures
        methods_view(r@) == methods_view(v@),
        r@.len() == v@.len(),
{
    let mut r: Vec<ZngurMethod> = Vec::new();
    let mut i: usize = 0;
    while i < v.len()
        invariant
            i <= v.len(),
            r.len() == i,
            forall|k: int| 0 <= k < i ==> (#[trigger] r@[k]).view() == v@[k].view(),
        decreases v.len() - i,
    {
        r.push(v[i].copy());
        i += 1;
    }
    proof {
        assert(methods_view(r@) =~= methods_view(v@));
    }
    r
}

/// What a list of [`ZngurMethodDetails`] holds.
pub open spec fn method_details_view(v: Seq<ZngurMethodDetails>) -> Seq<MethodDetailsModel> {
    Seq::new(v.len(), |i: int| v[i].view())
}

/// What a list of [`ZngurField`] holds.
pub open spec fn fields_view(v: Seq<ZngurField>) -> Seq<FieldModel> {
    Seq::new(v.len(), |i: int| v[i].view())
}

/// Whether two lists are the same.
pub fn fields_same(a: &Vec<ZngurField>, b: &Vec<ZngurField>) -> (r: bool)
    ensures
        r == (fields_view(a@) == fields_view(b@)),
{
    if a.len() != b.len() {
        proof {
            assert(fields_view(a@).len() != fields_view(b@).len());
        }
        return false;
    }
    let mut i: usize = 0;
    while i < a.len()
        invariant
            i <= a.len(),
            a.len() == b.len(),
            forall|k: int| 0 <= k < i ==> (#[trigger] a@[k]).view() == b@[k].view(),
        decreases a.len() - i,
    {
        if !a[i].same_as(&b[i]) {
            proof {
                assert(fields_view(a@)[i as int] != fields_view(b@)[i as int]);
            }
            return false;
        }
        i += 1;
    }
    proof {
        assert(fields_view(a@) =~= fields_view(b@));
    }
    true
}

/// A copy of a list.
pub fn fields_copy(v: &Vec<ZngurField>) -> (r: Vec<ZngurField>)
    ensures
        fields_view(r@) == fields_view(v@),
        r@.len() == v@.len(),
{
    let mut r: Vec<ZngurField> = Vec::new();
    let mut i: usize = 0;
    while i < v.len()
        invariant
            i <= v.len(),
            r.len() == i,
            forall|k: int| 0 <= k < i ==> (#[trigger] r@[k]).view() == v@[k].view(),
        decreases v.len() - i,
    {
        r.push(v[i].copy());
        i += 1;
    }
    proof {
        assert(fields_view(r@) =~= fields_view(v@));
    }
    r
}

/// What a list of [`ZngurVariant`] holds.
pub open spec fn variants_view(v: Seq<ZngurVariant>) -> Seq<VariantModel> {
    Seq::new(v.len(), |i: int| v[i].view())
}

/// What a list of [`ZngurTrait`] holds.
pub open spec fn traits_view(v: Seq<ZngurTrait>) -> Seq<ZngurTraitModel> {
    Seq::new(v.len(), |i: int| v[i].view())
}

/// What a list of [`ZngurFn`] holds.
pub open spec fn fns_view(v: Seq<ZngurFn>) -> Seq<FnModel> {
    Seq::new(v.len(), |i: int| v[i].view())
}

/// What a list of [`ZngurExternCppFn`] holds.
pub open spec fn extern_fns_view(v: Seq<ZngurExternCppFn>) -> Seq<ExternCppFnModel> {
    Seq::new(v.len(), |i: int| v[i].view())
}

/// What a list of [`ZngurExternCppImpl`] holds.
pub open spec fn extern_impls_view(v: Seq<ZngurExternCppImpl>) -> Seq<ExternCppImplModel> {
    Seq::new(v.len(), |i: int| v[i].view())
}

/// A C++ type whose values live on the C++ heap, by its name.
#[derive(Debug, PartialEq, Eq, Hash)]
pub struct CppHeapAllocated(pub String);

/// A C++ type that Rust sees through references alone, by its name.
#[derive(Debug, PartialEq, Eq, Hash)]
pub struct CppRef(pub String);

/// All that is declared of one type.
#[derive(Debug, PartialEq, Eq)]
pub struct ZngurType {
    pub ty: RustType,
    pub layout: Option<LayoutPolicy>,
    pub wellknown_traits: Vec<ZngurWellknownTrait>,
    pub methods: Vec<ZngurMethodDetails>,
    pub exhaustive: bool,
    pub constructor: Option<ZngurConstructor>,
    pub variants: Vec<ZngurVariant>,
    pub fields: Vec<ZngurField>,
    pub cpp_heap_allocated: Option<CppHeapAllocated>,
    pub cpp_ref: Option<CppRef>,
    pub cpp_stack_owned: Option<CppStackOwned>,
}

/// What a [`ZngurType`] holds.
#[verifier::ext_equal]
pub struct ZngurTypeModel {
    pub ty: TypeModel,
    pub layout: Option<LayoutPolicy>,
    pub wellknown_traits: Seq<ZngurWellknownTrait>,
    pub methods: Seq<MethodDetailsModel>,
    pub exhaustive: bool,
    pub constructor: Option<ConstructorModel>,
    pub variants: Seq<VariantModel>,
    pub fields: Seq<FieldModel>,
    pub cpp_heap_allocated: Option<Seq<char>>,
    pub cpp_ref: Option<Seq<char>>,
    pub cpp_stack_owned: Option<CppStackOwnedModel>,
}

pub open spec fn opt_constructor(c: Option<ZngurConstructor>) -> Option<ConstructorModel> {
    match c {
        Some(x) => Some(x.view()),
        None => None,
    }
}

pub open spec fn opt_heap(c: Option<CppHeapAllocated>) -> Option<Seq<char>> {
    match c {
        Some(x) => Some(x.0@),
        None => None,
    }
}

pub open spec fn opt_cpp_ref(c: Option<CppRef>) -> Option<Seq<char>> {
    match c {
        Some(x) => Some(x.0@),
        None => None,
    }
}

pub open spec fn opt_stack(c: Option<CppStackOwned>) -> Option<CppStackOwnedModel> {
    match c {
        Some(x) => Some(x.view()),
        None => None,
    }
}

impl ZngurType {
    pub open spec fn view(&self) -> ZngurTypeModel {
        ZngurTypeModel {
            ty: self.ty.view(),
            layout: self.layout,
            wellknown_traits: self.wellknown_traits@,
            methods: method_details_view(self.methods@),
            exhaustive: self.exhaustive,
            constructor: opt_constructor(self.constructor),
            variants: variants_view(self.variants@),
            fields: fields_view(self.fields@),
            cpp_heap_allocated: opt_heap(self.cpp_heap_allocated),
            cpp_ref: opt_cpp_ref(self.cpp_ref),
            cpp_stack_owned: opt_stack(self.cpp_stack_owned),
        }
    }
}

/// What a list of [`ZngurType`] holds.
pub open spec fn zngur_types_view(v: Seq<ZngurType>) -> Seq<ZngurTypeModel> {
    Seq::new(v.len(), |i: int| v[i].view())
}

/// Headers that the generated C++ code needs on top of its own.
#[derive(Debug, PartialEq, Eq)]
pub struct AdditionalIncludes(pub String);

/// Whether a Rust panic reaches C++ as an exception.
#[derive(Debug, PartialEq, Eq, Clone, Copy)]
pub struct ConvertPanicToException(pub bool);

/// A module whose generated header is used.
#[derive(Debug, PartialEq, Eq)]
pub struct ModuleImport {
    pub path: String,
}

/// What a list of [`ModuleImport`] holds.
pub open spec fn modules_view(v: Seq<ModuleImport>) -> Seq<Seq<char>> {
    Seq::new(v.len(), |i: int| v[i].path@)
}

/// What a list of configuration values holds.
pub open spec fn cfg_view(v: Seq<(String, Option<String>)>) -> Seq<(Seq<char>, Option<Seq<char>>)> {
    Seq::new(v.len(), |i: int| (v[i].0@, opt_text(v[i].1)))
}

/// A whole interface.
#[derive(Debug, PartialEq, Eq)]
pub struct ZngurSpec {
    pub imported_modules: Vec<ModuleImport>,
    pub types: Vec<ZngurType>,
    pub traits: Vec<ZngurTrait>,
    pub funcs: Vec<ZngurFn>,
    pub extern_cpp_funcs: Vec<ZngurExternCppFn>,
    pub extern_cpp_impls: Vec<ZngurExternCppImpl>,
    pub additional_includes: AdditionalIncludes,
    pub convert_panic_to_exception: ConvertPanicToException,
    pub cpp_include_header_name: String,
    pub mangling_base: String,
    pub cpp_namespace: Option<String>,
    pub rust_cfg: Vec<(String, Option<String>)>,
}

/// What a [`ZngurSpec`] holds.
#[verifier::ext_equal]
pub struct SpecModel {
    pub imported_modules: Seq<Seq<char>>,
    pub types: Seq<ZngurTypeModel>,
    pub traits: Seq<ZngurTraitModel>,
    pub funcs: Seq<FnModel>,
    pub extern_cpp_funcs: Seq<ExternCppFnModel>,
    pub extern_cpp_impls: Seq<ExternCppImplModel>,
    pub additional_includes: Seq<char>,
    pub convert_panic_to_exception: bool,
    pub cpp_include_header_name: Seq<char>,
    pub mangling_base: Seq<char>,
    pub cpp_namespace: Option<Seq<char>>,
    pub rust_cfg: Seq<(Seq<char>, Option<Seq<char>>)>,
}

/// The interface that declares nothing.
pub open spec fn empty_spec() -> SpecModel {
    SpecModel {
        imported_modules: Seq::empty(),
        types: Seq::empty(),
        traits: Seq::empty(),
        funcs: Seq::empty(),
        extern_cpp_funcs: Seq::empty(),
        extern_cpp_impls: Seq::empty(),
        additional_includes: Seq::empty(),
        convert_panic_to_exception: false,
        cpp_include_header_name: Seq::empty(),
        mangling_base: Seq::empty(),
        cpp_namespace: None,
        rust_cfg: Seq::empty(),
    }
}

impl ZngurSpec {
    pub open spec fn view(&self) -> SpecModel {
        SpecModel {
            imported_modules: modules_view(self.imported_modules@),
            types: zngur_types_view(self.types@),
            traits: traits_view(self.traits@),
            funcs: fns_view(self.funcs@),
            extern_cpp_funcs: extern_fns_view(self.extern_cpp_funcs@),
            extern_cpp_impls: extern_impls_view(self.extern_cpp_impls@),
            additional_includes: self.additional_includes.0@,
            convert_panic_to_exception: self.convert_panic_to_exception.0,
            cpp_include_header_name: self.cpp_include_header_name@,
            mangling_base: self.mangling_base@,
            cpp_namespace: opt_text(self.cpp_namespace),
            rust_cfg: cfg_view(self.rust_cfg@),
        }
    }

    /// The interface that declares nothing.
    pub fn empty() -> (r: ZngurSpec)
        ensures
            r@ == empty_spec(),
    {
        let r = ZngurSpec {
            imported_modules: Vec::new(),
            types: Vec::new(),
            traits: Vec::new(),
            funcs: Vec::new(),
            extern_cpp_funcs: Vec::new(),
            extern_cpp_impls: Vec::new(),
            additional_includes: AdditionalIncludes(String::new()),
            convert_panic_to_exception: ConvertPanicToException(false),
            cpp_include_header_name: String::new(),
            mangling_base: String::new(),
            cpp_namespace: None,
            rust_cfg: Vec::new(),
        };
        proof {
            assert(r@ =~= empty_spec());
        }
        r
    }
}

} // verus!
