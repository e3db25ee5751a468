//! What the C++ half of an interface holds.

use crate::coro::{opt_coro, CoroModel, CoroSupport};
use crate::cpp::{cpp_types_view, path_from, plain_type, CppPath, CppType, CppTypeModel};
use crate::def::{
    opt_cpp_ref, opt_stack, opt_text, opt_trait, CppRef, CppStackOwned, CppStackOwnedModel,
    ZngurMethodReceiver,
};
use crate::rust_types::{RustTrait, RustType, TraitModel, TypeModel};
use crate::text::{replace, replace_text, texts};
use vstd::prelude::*;

verus! {

broadcast use vstd::std_specs::vec::group_vec_axioms;

/// A method of a trait that C++ implements.
#[derive(Debug)]
pub struct CppTraitMethod {
    pub name: String,
    pub rust_link_name: String,
    pub inputs: Vec<CppType>,
    pub output: CppType,
}

/// What a [`CppTraitMethod`] holds.
#[verifier::ext_equal]
pub struct TraitMethodModel {
    pub name: Seq<char>,
    pub rust_link_name: Seq<char>,
    pub inputs: Seq<CppTypeModel>,
    pub output: CppTypeModel,
}

impl CppTraitMethod {
    pub open spec fn view(&self) -> TraitMethodModel {
        TraitMethodModel {
            name: self.name@,
            rust_link_name: self.rust_link_name@,
            inputs: cpp_types_view(self.inputs@),
            output: self.output@,
        }
    }
}

/// What a list of trait methods holds.
pub open spec fn trait_methods_view(v: Seq<CppTraitMethod>) -> Seq<TraitMethodModel> {
    Seq::new(v.len(), |i: int| v[i]@)
}

/// A function as C++ calls it.
#[derive(Debug)]
pub struct CppFnSig {
    pub rust_link_name: String,
    pub inputs: Vec<CppType>,
    pub output: CppType,
}

/// What a [`CppFnSig`] holds.
#[verifier::ext_equal]
pub struct SigModel {
    pub rust_link_name: Seq<char>,
    pub inputs: Seq<CppTypeModel>,
    pub output: CppTypeModel,
}

impl CppFnSig {
    pub open spec fn view(&self) -> SigModel {
        SigModel {
            rust_link_name: self.rust_link_name@,
            inputs: cpp_types_view(self.inputs@),
            output: self.output@,
        }
    }
}

/// What an optional [`CppFnSig`] holds.
pub open spec fn opt_sig(s: Option<CppFnSig>) -> Option<SigModel> {
    match s {
        Some(s) => Some(s@),
        None => None,
    }
}

/// A Rust function that C++ calls.
#[derive(Debug)]
pub struct CppFnDefinition {
    pub name: CppPath,
    pub sig: CppFnSig,
}

/// What a [`CppFnDefinition`] holds.
#[verifier::ext_equal]
pub struct FnDefModel {
    pub name: Seq<Seq<char>>,
    pub sig: SigModel,
}

impl CppFnDefinition {
    pub open spec fn view(&self) -> FnDefModel {
        FnDefModel { name: self.name@, sig: self.sig@ }
    }
}

/// What a list of functions holds.
pub open spec fn fn_defs_view(v: Seq<CppFnDefinition>) -> Seq<FnDefModel> {
    Seq::new(v.len(), |i: int| v[i]@)
}

/// A C++ function that Rust calls.
#[derive(Debug)]
pub struct CppExportedFnDefinition {
    pub name: String,
    pub sig: CppFnSig,
}

/// What a named signature holds: an exported function, or a method.
#[verifier::ext_equal]
pub struct NamedSigModel {
    pub name: Seq<char>,
    pub sig: SigModel,
}

impl CppExportedFnDefinition {
    pub open spec fn view(&self) -> NamedSigModel {
        NamedSigModel { name: self.name@, sig: self.sig@ }
    }
}

/// What a list of exported functions holds.
pub open spec fn exported_fns_view(v: Seq<CppExportedFnDefinition>) -> Seq<NamedSigModel> {
    Seq::new(v.len(), |i: int| v[i]@)
}

/// An implementation block that C++ writes for Rust.
#[derive(Debug)]
pub struct CppExportedImplDefinition {
    pub tr: Option<CppType>,
    pub ty: CppType,
    pub methods: Vec<(String, CppFnSig)>,
}

/// What a [`CppExportedImplDefinition`] holds.
#[verifier::ext_equal]
pub struct ExportedImplModel {
    pub tr: Option<CppTypeModel>,
    pub ty: CppTypeModel,
    pub methods: Seq<NamedSigModel>,
}

/// What an optional C++ type holds.
pub open spec fn opt_cpp_type(t: Option<CppType>) -> Option<CppTypeModel> {
    match t {
        Some(t) => Some(t@),
        None => None,
    }
}

/// What a list of named signatures holds.
pub open spec fn named_sigs_view(v: Seq<(String, CppFnSig)>) -> Seq<NamedSigModel> {
    Seq::new(v.len(), |i: int| NamedSigModel { name: v[i].0@, sig: v[i].1@ })
}

impl CppExportedImplDefinition {
    pub open spec fn view(&self) -> ExportedImplModel {
        ExportedImplModel {
            tr: opt_cpp_type(self.tr),
            ty: self.ty@,
            methods: named_sigs_view(self.methods@),
        }
    }
}

/// What a list of implementation blocks holds.
pub open spec fn exported_impls_view(v: Seq<CppExportedImplDefinition>) -> Seq<ExportedImplModel> {
    Seq::new(v.len(), |i: int| v[i]@)
}

/// A method of a type.
#[derive(Debug)]
pub struct CppMethod {
    pub name: String,
    pub kind: ZngurMethodReceiver,
    pub sig: CppFnSig,
}

/// What a [`CppMethod`] holds.
#[verifier::ext_equal]
pub struct CppMethodModel {
    pub name: Seq<char>,
    pub kind: ZngurMethodReceiver,
    pub sig: SigModel,
}

impl CppMethod {
    pub open spec fn view(&self) -> CppMethodModel {
        CppMethodModel { name: self.name@, kind: self.kind, sig: self.sig@ }
    }
}

/// What a list of methods holds.
pub open spec fn cpp_methods_view(v: Seq<CppMethod>) -> Seq<CppMethodModel> {
    Seq::new(v.len(), |i: int| v[i]@)
}

/// A trait, as C++ makes trait objects of it.
#[derive(Debug)]
pub enum CppTraitDefinition {
    Fn { sig: CppFnSig },
    Normal {
        as_ty: CppType,
        methods: Vec<CppTraitMethod>,
        link_name: String,
        link_name_ref: String,
    },
}

/// What a [`CppTraitDefinition`] holds.
#[verifier::ext_equal]
pub enum TraitDefModel {
    Fn { sig: SigModel },
    Normal {
        as_ty: CppTypeModel,
        methods: Seq<TraitMethodModel>,
        link_name: Seq<char>,
        link_name_ref: Seq<char>,
    },
}

impl CppTraitDefinition {
    pub open spec fn view(&self) -> TraitDefModel {
        match self {
            CppTraitDefinition::Fn { sig } => TraitDefModel::Fn { sig: sig@ },
            CppTraitDefinition::Normal { as_ty, methods, link_name, link_name_ref } =>
                TraitDefModel::Normal {
                as_ty: as_ty@,
                methods: trait_methods_view(methods@),
                link_name: link_name@,
                link_name_ref: link_name_ref@,
            },
        }
    }
}

/// What a list of traits and their definitions holds.
pub open spec fn trait_defs_view(v: Seq<(RustTrait, CppTraitDefinition)>) -> Seq<
    (TraitModel, TraitDefModel),
> {
    Seq::new(v.len(), |i: int| (v[i].0@, v[i].1@))
}

/// The definition of a trait, from the `i`-th on.
pub open spec fn trait_def_of(v: Seq<(TraitModel, TraitDefModel)>, tr: TraitModel, i: int) -> Option<
    TraitDefModel,
>
    decreases v.len() - i,
{
    if i < 0 || i >= v.len() {
        None
    } else if v[i].0 == tr {
        Some(v[i].1)
    } else {
        trait_def_of(v, tr, i + 1)
    }
}

/// How C++ holds values of a type.
#[derive(Debug, PartialEq, Eq)]
pub enum CppLayoutPolicy {
    StackAllocated { size: usize, align: usize },
    HeapAllocated { size_fn: String, alloc_fn: String, free_fn: String },
    OnlyByRef,
}

/// What a [`CppLayoutPolicy`] holds.
#[verifier::ext_equal]
pub enum CppLayoutModel {
    StackAllocated { size: usize, align: usize },
    HeapAllocated { size_fn: Seq<char>, alloc_fn: Seq<char>, free_fn: Seq<char> },
    OnlyByRef,
}

impl CppLayoutPolicy {
    pub open spec fn view(&self) -> CppLayoutModel {
        match self {
            CppLayoutPolicy::StackAllocated { size, align } => CppLayoutModel::StackAllocated {
                size: *size,
                align: *align,
            },
            CppLayoutPolicy::HeapAllocated { size_fn, alloc_fn, free_fn } =>
                CppLayoutModel::HeapAllocated {
                size_fn: size_fn@,
                alloc_fn: alloc_fn@,
                free_fn: free_fn@,
            },
            CppLayoutPolicy::OnlyByRef => CppLayoutModel::OnlyByRef,
        }
    }

    /// Whether C++ holds only references to the type.
    pub fn is_only_by_ref(&self) -> (r: bool)
        ensures
            r == (self@ is OnlyByRef),
    {
        matches!(self, CppLayoutPolicy::OnlyByRef)
    }
}

/// Where a field stands.
#[derive(Debug)]
pub enum ZngurFieldDataOffset {
    /// At a declared offset.
    Offset(usize),
    /// At the offset that a Rust constant of that link name holds.
    Auto(String),
    /// At the offset that a Rust function of that link name computes.
    AutoDynamic(String),
}

/// What a [`ZngurFieldDataOffset`] holds.
#[verifier::ext_equal]
pub enum OffsetModel {
    Offset(usize),
    Auto(Seq<char>),
    AutoDynamic(Seq<char>),
}

impl ZngurFieldDataOffset {
    pub open spec fn view(&self) -> OffsetModel {
        match self {
            ZngurFieldDataOffset::Offset(n) => OffsetModel::Offset(*n),
            ZngurFieldDataOffset::Auto(s) => OffsetModel::Auto(s@),
            ZngurFieldDataOffset::AutoDynamic(s) => OffsetModel::AutoDynamic(s@),
        }
    }
}

/// A field, as C++ reads it.
#[derive(Debug)]
pub struct ZngurFieldData {
    pub name: String,
    pub ty: RustType,
    pub offset: ZngurFieldDataOffset,
}

/// What a [`ZngurFieldData`] holds.
#[verifier::ext_equal]
pub struct FieldDataModel {
    pub name: Seq<char>,
    pub ty: TypeModel,
    pub offset: OffsetModel,
}

impl ZngurFieldData {
    pub open spec fn view(&self) -> FieldDataModel {
        FieldDataModel { name: self.name@, ty: self.ty@, offset: self.offset@ }
    }
}

/// What a list of fields holds.
pub open spec fn field_data_view(v: Seq<ZngurFieldData>) -> Seq<FieldDataModel> {
    Seq::new(v.len(), |i: int| v[i]@)
}

/// A well-known trait, with the link names that it needs.
#[derive(Debug)]
pub enum ZngurWellknownTraitData {
    Debug { pretty_print: String, debug_print: String },
    Drop { drop_in_place: String },
    Unsized,
    Copy,
}

/// What a [`ZngurWellknownTraitData`] holds.
#[verifier::ext_equal]
pub enum WellknownModel {
    Debug { pretty_print: Seq<char>, debug_print: Seq<char> },
    Drop { drop_in_place: Seq<char> },
    Unsized,
    Copy,
}

impl ZngurWellknownTraitData {
    pub open spec fn view(&self) -> WellknownModel {
        match self {
            ZngurWellknownTraitData::Debug { pretty_print, debug_print } => WellknownModel::Debug {
                pretty_print: pretty_print@,
                debug_print: debug_print@,
            },
            ZngurWellknownTraitData::Drop { drop_in_place } => WellknownModel::Drop {
                drop_in_place: drop_in_place@,
            },
            ZngurWellknownTraitData::Unsized => WellknownModel::Unsized,
            ZngurWellknownTraitData::Copy => WellknownModel::Copy,
        }
    }
}

/// What a list of well-known traits holds.
pub open spec fn wellknown_data_view(v: Seq<ZngurWellknownTraitData>) -> Seq<WellknownModel> {
    Seq::new(v.len(), |i: int| v[i]@)
}

/// A variant, as C++ makes and tests it.
#[derive(Debug)]
pub struct CppVariant {
    pub name: String,
    pub constructor: Option<CppFnSig>,
    pub match_check: String,
    pub fields: Vec<ZngurFieldData>,
}

/// What a [`CppVariant`] holds.
#[verifier::ext_equal]
pub struct CppVariantModel {
    pub name: Seq<char>,
    pub constructor: Option<SigModel>,
    pub match_check: Seq<char>,
    pub fields: Seq<FieldDataModel>,
}

impl CppVariant {
    pub open spec fn view(&self) -> CppVariantModel {
        CppVariantModel {
            name: self.name@,
            constructor: opt_sig(self.constructor),
            match_check: self.match_check@,
            fields: field_data_view(self.fields@),
        }
    }
}

/// What a list of variants holds.
pub open spec fn cpp_variants_view(v: Seq<CppVariant>) -> Seq<CppVariantModel> {
    Seq::new(v.len(), |i: int| v[i]@)
}

/// A C++ value that Rust holds: the link name of the bridge, and the C++ type.
#[derive(Debug)]
pub struct CppValue(pub String, pub String);

/// What an optional [`CppValue`] holds.
pub open spec fn opt_cpp_value(v: Option<CppValue>) -> Option<(Seq<char>, Seq<char>)> {
    match v {
        Some(v) => Some((v.0@, v.1@)),
        None => None,
    }
}

/// A type, as C++ declares it.
#[derive(Debug)]
pub struct CppTypeDefinition {
    pub ty: CppType,
    pub layout: CppLayoutPolicy,
    pub methods: Vec<CppMethod>,
    pub constructor: Option<CppFnSig>,
    pub variants: Vec<CppVariant>,
    pub discriminant: Option<String>,
    pub fields: Vec<ZngurFieldData>,
    pub from_trait: Option<RustTrait>,
    pub from_trait_ref: Option<RustTrait>,
    pub wellknown_traits: Vec<ZngurWellknownTraitData>,
    pub cpp_value: Option<CppValue>,
    pub cpp_ref: Option<CppRef>,
    pub cpp_stack_owned: Option<CppStackOwned>,
}

/// What a [`CppTypeDefinition`] holds.
#[verifier::ext_equal]
pub struct TypeDefModel {
    pub ty: CppTypeModel,
    pub layout: CppLayoutModel,
    pub methods: Seq<CppMethodModel>,
    pub constructor: Option<SigModel>,
    pub variants: Seq<CppVariantModel>,
    pub discriminant: Option<Seq<char>>,
    pub fields: Seq<FieldDataModel>,
    pub from_trait: Option<TraitModel>,
    pub from_trait_ref: Option<TraitModel>,
    pub wellknown_traits: Seq<WellknownModel>,
    pub cpp_value: Option<(Seq<char>, Seq<char>)>,
    pub cpp_ref: Option<Seq<char>>,
    pub cpp_stack_owned: Option<CppStackOwnedModel>,
}

/// Whether `Unsized` is among the traits.
pub open spec fn is_unsized(v: Seq<WellknownModel>) -> bool {
    exists|i: int| 0 <= i < v.len() && #[trigger] v[i] is Unsized
}

impl CppTypeDefinition {
    pub open spec fn view(&self) -> TypeDefModel {
        TypeDefModel {
            ty: self.ty@,
            layout: self.layout@,
            methods: cpp_methods_view(self.methods@),
            constructor: opt_sig(self.constructor),
            variants: cpp_variants_view(self.variants@),
            discriminant: opt_text(self.discriminant),
            fields: field_data_view(self.fields@),
            from_trait: opt_trait(self.from_trait),
            from_trait_ref: opt_trait(self.from_trait_ref),
            wellknown_traits: wellknown_data_view(self.wellknown_traits@),
            cpp_value: opt_cpp_value(self.cpp_value),
            cpp_ref: opt_cpp_ref(self.cpp_ref),
            cpp_stack_owned: opt_stack(self.cpp_stack_owned),
        }
    }

    /// Whether the type is unsized.
    pub fn has_unsized(&self) -> (r: bool)
        ensures
            r == is_unsized(self@.wellknown_traits),
    {
        let mut i: usize = 0;
        while i < self.wellknown_traits.len()
            invariant
                i <= self.wellknown_traits.len(),
                forall|k: int| 0 <= k < i ==> !(#[trigger] self@.wellknown_traits[k] is Unsized),
            decreases self.wellknown_traits.len() - i,
        {
            proof {
                assert(self@.wellknown_traits[i as int] == self.wellknown_traits@[i as int]@);
            }
            if matches!(&self.wellknown_traits[i], ZngurWellknownTraitData::Unsized) {
                return true;
            }
            i += 1;
        }
        false
    }
}

/// A type of which nothing is known yet.
pub open spec fn unfilled_type() -> TypeDefModel {
    TypeDefModel {
        ty: plain_type(path_from("fill::me::you::forgot::it"@)),
        layout: CppLayoutModel::OnlyByRef,
        methods: Seq::empty(),
        constructor: None,
        variants: Seq::empty(),
        discriminant: None,
        fields: Seq::empty(),
        from_trait: None,
        from_trait_ref: None,
        wellknown_traits: Seq::empty(),
        cpp_value: None,
        cpp_ref: None,
        cpp_stack_owned: None,
    }
}

impl Default for CppTypeDefinition {
    fn default() -> (r: CppTypeDefinition)
        ensures
            r@ == unfilled_type(),
    {
        let r = CppTypeDefinition {
            ty: CppType {
                path: CppPath::from_text("fill::me::you::forgot::it"),
                generic_args: Vec::new(),
                tail: None,
            },
            layout: CppLayoutPolicy::OnlyByRef,
            methods: Vec::new(),
            constructor: None,
            variants: Vec::new(),
            discriminant: None,
            fields: Vec::new(),
            from_trait: None,
            from_trait_ref: None,
            wellknown_traits: Vec::new(),
            cpp_value: None,
            cpp_ref: None,
            cpp_stack_owned: None,
        };
        proof {
            assert(r@.ty.generic_args =~= Seq::empty());
            assert(r@ =~= unfilled_type());
        }
        r
    }
}

/// What a list of types holds.
pub open spec fn type_defs_view(v: Seq<CppTypeDefinition>) -> Seq<TypeDefModel> {
    Seq::new(v.len(), |i: int| v[i]@)
}

/// The functions by which C++ learns of a panic in Rust.
#[derive(Debug)]
pub struct PanicToExceptionSymbols {
    /// Tells whether Rust has panicked.
    pub detect_panic: String,
    /// Takes the panic away.
    pub take_panic: String,
}

/// What a [`PanicToExceptionSymbols`] holds.
#[verifier::ext_equal]
pub struct PanicModel {
    pub detect_panic: Seq<char>,
    pub take_panic: Seq<char>,
}

/// What an optional [`PanicToExceptionSymbols`] holds.
pub open spec fn opt_panic(p: Option<PanicToExceptionSymbols>) -> Option<PanicModel> {
    match p {
        Some(p) => Some(
            PanicModel { detect_panic: p.detect_panic@, take_panic: p.take_panic@ },
        ),
        None => None,
    }
}

/// The C++ half of an interface.
#[derive(Debug)]
pub struct CppFile {
    pub header_file_name: String,
    pub type_defs: Vec<CppTypeDefinition>,
    /// The traits that C++ makes objects of, each one once.
    pub trait_defs: Vec<(RustTrait, CppTraitDefinition)>,
    pub fn_defs: Vec<CppFnDefinition>,
    pub exported_fn_defs: Vec<CppExportedFnDefinition>,
    pub exported_impls: Vec<CppExportedImplDefinition>,
    pub additional_includes: String,
    pub panic_to_exception: Option<PanicToExceptionSymbols>,
    pub rust_cfg_defines: Vec<String>,
    pub zng_header_in_place: bool,
    pub coro_support: Option<CoroSupport>,
}

/// What a [`CppFile`] holds.
#[verifier::ext_equal]
pub struct CppFileModel {
    pub header_file_name: Seq<char>,
    pub type_defs: Seq<TypeDefModel>,
    pub trait_defs: Seq<(TraitModel, TraitDefModel)>,
    pub fn_defs: Seq<FnDefModel>,
    pub exported_fn_defs: Seq<NamedSigModel>,
    pub exported_impls: Seq<ExportedImplModel>,
    pub additional_includes: Seq<char>,
    pub panic_to_exception: Option<PanicModel>,
    pub rust_cfg_defines: Seq<Seq<char>>,
    pub zng_header_in_place: bool,
    pub coro_support: Option<CoroModel>,
}

impl CppFile {
    pub open spec fn view(&self) -> CppFileModel {
        CppFileModel {
            header_file_name: self.header_file_name@,
            type_defs: type_defs_view(self.type_defs@),
            trait_defs: trait_defs_view(self.trait_defs@),
            fn_defs: fn_defs_view(self.fn_defs@),
            exported_fn_defs: exported_fns_view(self.exported_fn_defs@),
            exported_impls: exported_impls_view(self.exported_impls@),
            additional_includes: self.additional_includes@,
            panic_to_exception: opt_panic(self.panic_to_exception),
            rust_cfg_defines: texts(self.rust_cfg_defines@),
            zng_header_in_place: self.zng_header_in_place,
            coro_support: opt_coro(self.coro_support),
        }
    }
}

/// The text of a header: where panics become exceptions, no function is
/// `noexcept`.
pub open spec fn header_text(text: Seq<char>, panic_to_exception: bool) -> Seq<char> {
    if panic_to_exception {
        replace_text(text, " noexcept "@, " "@)
    } else {
        text
    }
}

/// Whether the C++ half needs a source file besides its header.
pub open spec fn source_needed(f: CppFileModel) -> bool {
    f.trait_defs.len() > 0 || f.exported_fn_defs.len() > 0 || f.exported_impls.len() > 0
}

impl CppFile {
    /// The files of the C++ half, from the texts that the header and the source
    /// are laid out as.
    pub fn render(&self, header: String, source: String) -> (r: (String, Option<String>))
        ensures
            r.0@ == header_text(header@, self@.panic_to_exception is Some),
            opt_text(r.1) == (if source_needed(self@) {
                Some(source@)
            } else {
                None
            }),
    {
        proof {
            reveal_strlit(" noexcept ");
        }
        let h = if self.panic_to_exception.is_some() {
            replace(header.as_str(), " noexcept ", " ")
        } else {
            header
        };
        let needed = self.trait_defs.len() > 0 || self.exported_fn_defs.len() > 0
            || self.exported_impls.len() > 0;
        if needed {
            (h, Some(source))
        } else {
            (h, None)
        }
    }
}

} // verus!
