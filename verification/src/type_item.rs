//! What a `type` item declares.

use crate::cfg::{InMemoryRustCfgProvider, CfgModel, Remark, RemarkModel};
use crate::conditional::{list_steps, remarks_view, steps_view, walk_list, Step, StepModel};
use crate::def::{
    fields_view, method_details_view, opt_constructor, opt_cpp_ref, opt_heap, opt_stack,
    variants_view, ConstructorModel, CppHeapAllocated, CppRef, CppStackOwned, CppStackOwnedModel,
    FieldModel, LayoutPolicy, MethodDetailsModel, VariantModel, ZngurConstructor, ZngurField,
    ZngurMethodDetails, ZngurMethodReceiver, ZngurType, ZngurTypeModel, ZngurVariant,
    ZngurWellknownTrait,
};
use crate::lower::{
    any_rule, below, child, cpp_trait_in_tree, find_below, find_child, find_first_leaf,
    find_last_leaf, first_leaf, has_cpp_trait, has_rule, is_rule, kids, last_leaf, last_tree,
    leaf_number, leaf_text, leaf_tok, lower_child_path, lower_method, lower_named, lower_type_in,
    lower_types, method_of, named_in, path_of, segments_of, span_of, tree_is, tree_span, type_in,
    types_in, Source, SourceModel,
};
use crate::merge::add_type;
use crate::peg::{Rule, Tree, Trees};
use crate::report::{
    error_report, fatal_count, lemma_fatal_push, warning_report, Color, Label, LabelModel, Report,
    ReportKind, ReportModel, ReportSpan, SpanKey, SpanKeyModel,
};
use crate::rust_types::{named_view, types_view, RustType, TypeModel};
use crate::scope::{resolve, EntityModel, EntityPath, Scope, ScopeModel, Span};
use crate::text::{dec_text, decimal, str_eq};
use crate::token::{Tok, Word};
use crate::work::{BuilderModel, TemplateDef, TemplateModel, ZngurSpecBuilder};
use vstd::prelude::*;

verus! {

broadcast use vstd::std_specs::vec::group_vec_axioms;

/// What is said where a path into the tree of C++ types names a trait.
pub open spec fn cpp_only_message() -> Seq<char> {
    "a c++::-only path was used somewhere that can't support it"@
}

/// The type that is declared, where its name stands, and where the declaration
/// stands.
#[verifier::ext_equal]
pub struct Declared {
    pub ty: TypeModel,
    pub ty_span: Span,
    pub src: SourceModel,
    pub sc: ScopeModel,
}

/// What the entries of a declaration have said so far.
pub struct Decl {
    pub methods: Vec<ZngurMethodDetails>,
    pub constructor: Option<ZngurConstructor>,
    pub variants: Vec<ZngurVariant>,
    pub fields: Vec<ZngurField>,
    pub traits: Vec<(ZngurWellknownTrait, Span)>,
    pub layout: Option<LayoutPolicy>,
    pub layout_span: Option<Span>,
    pub exhaustive: bool,
    pub heap: Option<CppHeapAllocated>,
    pub cpp_ref: Option<CppRef>,
    pub stack: Option<CppStackOwned>,
}

/// What a [`Decl`] holds.
#[verifier::ext_equal]
pub struct DeclModel {
    pub methods: Seq<MethodDetailsModel>,
    pub constructor: Option<ConstructorModel>,
    pub variants: Seq<VariantModel>,
    pub fields: Seq<FieldModel>,
    pub traits: Seq<(ZngurWellknownTrait, Span)>,
    pub layout: Option<LayoutPolicy>,
    pub layout_span: Option<Span>,
    pub exhaustive: bool,
    pub heap: Option<Seq<char>>,
    pub cpp_ref: Option<Seq<char>>,
    pub stack: Option<CppStackOwnedModel>,
}

impl Decl {
    pub open spec fn view(&self) -> DeclModel {
        DeclModel {
            methods: method_details_view(self.methods@),
            constructor: opt_constructor(self.constructor),
            variants: variants_view(self.variants@),
            fields: fields_view(self.fields@),
            traits: self.traits@,
            layout: self.layout,
            layout_span: self.layout_span,
            exhaustive: self.exhaustive,
            heap: opt_heap(self.heap),
            cpp_ref: opt_cpp_ref(self.cpp_ref),
            stack: opt_stack(self.stack),
        }
    }
}

/// The declaration that says nothing.
pub open spec fn empty_decl() -> DeclModel {
    DeclModel {
        methods: Seq::empty(),
        constructor: None,
        variants: Seq::empty(),
        fields: Seq::empty(),
        traits: Seq::empty(),
        layout: None,
        layout_span: None,
        exhaustive: true,
        heap: None,
        cpp_ref: None,
        stack: None,
    }
}

/// Size and alignment among properties, and what is wrong with the others.
#[verifier::ext_equal]
pub struct Props {
    pub size: Option<usize>,
    pub align: Option<usize>,
    pub wrong: Seq<RemarkModel>,
}

/// The place of the `i`-th token.
pub open spec fn token_span(src: SourceModel, i: usize) -> Span {
    span_of(src, i, if i < usize::MAX {
        (i + 1) as usize
    } else {
        i
    })
}

/// The properties among the trees; of two of one name the later one counts.
pub open spec fn props_in(ts: Trees, src: SourceModel) -> Props
    decreases ts,
{
    match ts {
        Trees::Nil => Props { size: None, align: None, wrong: Seq::empty() },
        Trees::Snoc(rest, x) => {
            let p = props_in(*rest, src);
            if !is_rule(*x, Rule::Prop) {
                p
            } else {
                let k = below(*x);
                let key = leaf_text(src, first_leaf(k));
                let value = leaf_number(src, last_leaf(k));
                if key == "size"@ {
                    Props { size: Some(value), ..p }
                } else if key == "align"@ {
                    Props { align: Some(value), ..p }
                } else {
                    Props {
                        wrong: p.wrong.push(
                            RemarkModel {
                                message: "Unknown property"@,
                                span: token_span(src, first_leaf(k)),
                            },
                        ),
                        ..p
                    }
                }
            }
        },
    }
}

/// What is wrong with properties that have to give size and alignment.
pub open spec fn props_errors(p: Props, ty_span: Span) -> Seq<RemarkModel> {
    let e = if p.size is None {
        p.wrong.push(
            RemarkModel { message: "Size is not declared for this type"@, span: ty_span },
        )
    } else {
        p.wrong
    };
    if p.align is None {
        e.push(RemarkModel { message: "Align is not declared for this type"@, span: ty_span })
    } else {
        e
    }
}

/// A declaration and the interface once a layout was found at `span`.
pub open spec fn layout_found(
    l: LayoutPolicy,
    span: Span,
    c: Declared,
    d: DeclModel,
    w: BuilderModel,
) -> (DeclModel, BuilderModel) {
    let w = w.noted(SpanKeyModel::Layout(c.ty), span);
    if d.layout_span is Some {
        (
            DeclModel { layout: Some(l), ..d },
            w.error("Duplicate layout policy found"@, span),
        )
    } else {
        (DeclModel { layout: Some(l), layout_span: Some(span), ..d }, w)
    }
}

/// As [`layout_found`], for a layout with properties.
pub open spec fn sized_layout_found(
    x: Tree,
    conservative: bool,
    c: Declared,
    d: DeclModel,
    w: BuilderModel,
) -> (DeclModel, BuilderModel) {
    let p = props_in(below(child(below(x), Rule::Props)), c.src);
    let e = props_errors(p, c.ty_span);
    if e.len() > 0 {
        (d, w.errors(e, e.len()))
    } else {
        let size = p.size->0;
        let align = p.align->0;
        layout_found(
            if conservative {
                LayoutPolicy::Conservative { size, align }
            } else {
                LayoutPolicy::StackAllocated { size, align }
            },
            tree_span(c.src, x),
            c,
            d,
            w,
        )
    }
}

/// The well-known trait that a tree is.
pub open spec fn wellknown_of(k: Trees, src: SourceModel) -> ZngurWellknownTrait {
    if first_leaf(k) == usize::MAX {
        ZngurWellknownTrait::Unsized
    } else if leaf_tok(src, first_leaf(k)) == Some(Tok::Ident(Word::Debug)) {
        ZngurWellknownTrait::Debug
    } else {
        ZngurWellknownTrait::Copy
    }
}

/// The well-known traits among the trees.
pub open spec fn wellknown_in(ts: Trees, src: SourceModel) -> Seq<(ZngurWellknownTrait, Span)>
    decreases ts,
{
    match ts {
        Trees::Nil => Seq::empty(),
        Trees::Snoc(rest, x) => if is_rule(*x, Rule::WellknownTrait) {
            wellknown_in(*rest, src).push((wellknown_of(below(*x), src), tree_span(src, *x)))
        } else {
            wellknown_in(*rest, src)
        },
    }
}

/// The types, each with its number as its name.
pub open spec fn numbered_types(v: Seq<TypeModel>) -> Seq<(Seq<char>, TypeModel)> {
    Seq::new(v.len(), |i: int| (dec_text(i as nat), v[i]))
}

/// The constructor that a tree is.
pub open spec fn constructor_of(x: Tree, src: SourceModel, sc: ScopeModel) -> ConstructorModel {
    let k = below(x);
    ConstructorModel {
        inputs: if has_rule(k, Rule::TupleArgs) {
            numbered_types(types_in(below(child(k, Rule::TupleArgs)), src, sc))
        } else if has_rule(k, Rule::NamedArgs) {
            named_in(below(child(k, Rule::NamedArgs)), src, sc)
        } else {
            Seq::empty()
        },
    }
}

/// The field that a tree is.
pub open spec fn field_of(x: Tree, src: SourceModel, sc: ScopeModel) -> FieldModel {
    let k = below(x);
    let o = last_leaf(k);
    FieldModel {
        name: leaf_text(src, first_leaf(k)),
        ty: type_in(k, src, sc),
        offset: if leaf_tok(src, o) == Some(Tok::Number) {
            Some(leaf_number(src, o))
        } else {
            None
        },
    }
}

/// What the entries of a variant among the trees say: whether it is exhaustive,
/// its fields, and the interface.
pub open spec fn variant_entries(ts: Trees, c: Declared, w: BuilderModel) -> (
    bool,
    Seq<FieldModel>,
    BuilderModel,
)
    decreases ts,
{
    match ts {
        Trees::Nil => (true, Seq::empty(), w),
        Trees::Snoc(rest, t) => {
            let (exhaustive, fields, w) = variant_entries(*rest, c, w);
            let x = last_tree(below(*t));
            let span = tree_span(c.src, *t);
            if !is_rule(*t, Rule::VariantEntry) {
                (exhaustive, fields, w)
            } else if is_rule(x, Rule::NonExhaustive) {
                (
                    false,
                    fields,
                    if exhaustive {
                        w
                    } else {
                        w.error("Duplicate non_exhaustive annotation found"@, span)
                    },
                )
            } else {
                let f = field_of(x, c.src, c.sc);
                let w = if f.offset is Some {
                    w.error("static offsets on enum fields are not supported"@, span)
                } else {
                    w
                };
                (
                    exhaustive,
                    fields.push(f),
                    w.noted(SpanKeyModel::Field(c.ty, Some(f.name), f.name), span),
                )
            }
        },
    }
}

/// The declaration and the interface once a method was found.
pub open spec fn method_found(
    x: Tree,
    span: Span,
    c: Declared,
    d: DeclModel,
    w: BuilderModel,
) -> (DeclModel, BuilderModel) {
    let k = below(x);
    let data = method_of(child(k, Rule::Method), c.src, c.sc);
    let (deref, w) = if has_rule(k, Rule::DerefTo) {
        match data.receiver {
            ZngurMethodReceiver::Ref(m) => (
                Some((type_in(below(child(k, Rule::DerefTo)), c.src, c.sc), m)),
                w,
            ),
            _ => (None, w.error("Deref needs reference receiver"@, span)),
        }
    } else {
        (None, w)
    };
    let target = if has_rule(k, Rule::UsePath) {
        Some(
            resolve(
                c.sc,
                path_of(child(below(child(k, Rule::UsePath)), Rule::Path), c.src),
            ),
        )
    } else {
        None
    };
    if target matches Some(EntityModel::Cpp(_)) {
        (d, w.error(cpp_only_message(), span))
    } else {
        let m = MethodDetailsModel {
            data,
            use_path: match target {
                Some(e) => Some(segments_of(e)),
                None => None,
            },
            deref,
            cpp_name: if has_rule(k, Rule::CppName) {
                Some(leaf_text(c.src, first_leaf(below(child(k, Rule::CppName)))))
            } else {
                None
            },
        };
        (
            DeclModel { methods: d.methods.push(m), ..d },
            w.noted(SpanKeyModel::Method(c.ty, data), span),
        )
    }
}

/// The declaration and the interface once a C++ type that is held in place was
/// found.
pub open spec fn stack_found(
    x: Tree,
    span: Span,
    c: Declared,
    d: DeclModel,
    w: BuilderModel,
) -> (DeclModel, BuilderModel) {
    let k = below(x);
    let p = props_in(below(child(k, Rule::Props)), c.src);
    let e = props_errors(p, c.ty_span);
    if e.len() > 0 {
        (d, w.errors(e, e.len()))
    } else {
        let size = p.size->0;
        let align = p.align->0;
        (
            DeclModel {
                stack: Some(
                    CppStackOwnedModel {
                        cpp_type: leaf_text(c.src, first_leaf(k)),
                        size,
                        align,
                    },
                ),
                layout: Some(LayoutPolicy::StackAllocated { size, align }),
                ..d
            },
            w.noted(SpanKeyModel::CppStackOwned(c.ty), span),
        )
    }
}

/// The declaration and the interface once a type that C++ sees by reference was
/// found.
pub open spec fn cpp_ref_found(
    x: Tree,
    span: Span,
    c: Declared,
    d: DeclModel,
    w: BuilderModel,
) -> (DeclModel, BuilderModel) {
    match d.layout_span {
        Some(at) => (d, w.error("Duplicate layout policy found"@, at)),
        None => (
            DeclModel {
                layout: Some(LayoutPolicy::zero_sized_type()),
                layout_span: Some(span),
                cpp_ref: Some(leaf_text(c.src, first_leaf(below(x)))),
                ..d
            },
            w.noted(SpanKeyModel::CppRef(c.ty), span),
        ),
    }
}

/// The declaration and the interface once an entry was read.
pub open spec fn entry_read(t: Tree, c: Declared, d: DeclModel, w: BuilderModel) -> (
    DeclModel,
    BuilderModel,
) {
    let span = tree_span(c.src, t);
    let x = last_tree(below(t));
    let k = below(x);
    if cpp_trait_in_tree(t, c.src, c.sc) {
        (d, w.error(cpp_only_message(), span))
    } else {
        match x {
            Tree::Leaf(_) => (d, w),
            Tree::Node(q, _, _, _) => match q {
                Rule::LayoutStack => sized_layout_found(x, false, c, d, w),
                Rule::LayoutConservative => sized_layout_found(x, true, c, d, w),
                Rule::LayoutOnlyByRef => layout_found(
                    LayoutPolicy::OnlyByRef,
                    tree_span(c.src, x),
                    c,
                    d,
                    w,
                ),
                Rule::LayoutHeap => layout_found(
                    LayoutPolicy::HeapAllocated,
                    tree_span(c.src, x),
                    c,
                    d,
                    w,
                ),
                Rule::Traits => (
                    DeclModel { traits: d.traits + wellknown_in(k, c.src), ..d },
                    w,
                ),
                Rule::NonExhaustive => (
                    DeclModel { exhaustive: false, ..d },
                    if d.exhaustive {
                        w
                    } else {
                        w.error("Duplicate non_exhaustive annotation found"@, span)
                    },
                ),
                Rule::Constructor => {
                    let made = constructor_of(x, c.src, c.sc);
                    let w = if d.constructor is Some {
                        w.error("Duplicate constructor found"@, span)
                    } else {
                        w
                    };
                    (
                        DeclModel { constructor: Some(made), ..d },
                        w.noted(SpanKeyModel::Constructor(c.ty, made), span),
                    )
                },
                Rule::Variant => {
                    let (exhaustive, fields, w) = variant_entries(k, c, w);
                    let name = leaf_text(c.src, first_leaf(k));
                    (
                        DeclModel {
                            variants: d.variants.push(VariantModel { name, fields, exhaustive }),
                            ..d
                        },
                        w,
                    )
                },
                Rule::Field => {
                    let f = field_of(x, c.src, c.sc);
                    (
                        DeclModel { fields: d.fields.push(f), ..d },
                        w.noted(SpanKeyModel::Field(c.ty, None, f.name), span),
                    )
                },
                Rule::MethodItem => method_found(x, span, c, d, w),
                Rule::CppValue => (
                    DeclModel { heap: Some(leaf_text(c.src, last_leaf(k))), ..d },
                    w.warning(
                        "#cpp_value is deprecated; use #cpp_heap_allocated instead"@,
                        span,
                    ),
                ),
                Rule::CppHeapAllocated => (
                    DeclModel { heap: Some(leaf_text(c.src, first_leaf(k))), ..d },
                    w.noted(SpanKeyModel::CppHeapAllocated(c.ty), span),
                ),
                Rule::CppRef => cpp_ref_found(x, span, c, d, w),
                Rule::CppStackOwned => stack_found(x, span, c, d, w),
                _ => (d, w),
            },
        }
    }
}

/// The declaration and the interface after the first `n` steps.
pub open spec fn entries_read(
    steps: Seq<StepModel>,
    n: nat,
    c: Declared,
    d: DeclModel,
    w: BuilderModel,
) -> (DeclModel, BuilderModel)
    decreases n,
{
    if n == 0 || n > steps.len() {
        (d, w)
    } else {
        let (d, w) = entries_read(steps, (n - 1) as nat, c, d, w);
        match steps[n - 1] {
            StepModel::Take(t) => entry_read(t, c, d, w),
            StepModel::Complain(r) => (d, w.error(r.message, r.span)),
        }
    }
}

/// The number of errors so far.
pub open spec fn errors_in(w: BuilderModel) -> nat {
    fatal_count(w.reports, w.reports.len())
}

/// An error is one error more.
pub proof fn lemma_error(w: BuilderModel, message: Seq<char>, span: Span)
    ensures
        errors_in(w.error(message, span)) == errors_in(w) + 1,
{
    lemma_fatal_push(w.reports, error_report(message, w.at(span)));
}

/// Some remarks are as many errors more.
pub proof fn lemma_errors(w: BuilderModel, v: Seq<RemarkModel>, n: nat)
    requires
        n <= v.len(),
    ensures
        errors_in(w.errors(v, n)) == errors_in(w) + n,
    decreases n,
{
    if n > 0 {
        lemma_errors(w, v, (n - 1) as nat);
        lemma_error(w.errors(v, (n - 1) as nat), v[n - 1].message, v[n - 1].span);
    }
}

proof fn lemma_variant_entries(ts: Trees, c: Declared, w: BuilderModel)
    ensures
        errors_in(variant_entries(ts, c, w).2) >= errors_in(w),
    decreases ts,
{
    match ts {
        Trees::Nil => {},
        Trees::Snoc(rest, t) => {
            lemma_variant_entries(*rest, c, w);
            let w1 = variant_entries(*rest, c, w).2;
            let span = tree_span(c.src, *t);
            lemma_error(w1, "Duplicate non_exhaustive annotation found"@, span);
            lemma_error(w1, "static offsets on enum fields are not supported"@, span);
        },
    }
}

/// Whether a type that C++ sees by reference has no size, unless it is held in
/// place too.
spec fn cpp_ref_sized(d: DeclModel) -> bool {
    d.cpp_ref is Some && d.stack is None ==> d.layout == Some(LayoutPolicy::zero_sized_type())
        && d.layout_span is Some
}

proof fn lemma_entry(t: Tree, c: Declared, d: DeclModel, w: BuilderModel)
    ensures
        errors_in(entry_read(t, c, d, w).1) >= errors_in(w),
        errors_in(entry_read(t, c, d, w).1) == 0 && cpp_ref_sized(d) ==> cpp_ref_sized(
            entry_read(t, c, d, w).0,
        ),
{
    let span = tree_span(c.src, t);
    let x = last_tree(below(t));
    let k = below(x);
    lemma_error(w, cpp_only_message(), span);
    lemma_error(w, "Duplicate non_exhaustive annotation found"@, span);
    lemma_error(w, "Duplicate constructor found"@, span);
    lemma_error(w, "Deref needs reference receiver"@, span);
    lemma_error(
        w.error("Deref needs reference receiver"@, span),
        cpp_only_message(),
        span,
    );
    lemma_variant_entries(k, c, w);
    lemma_fatal_push(
        w.reports,
        warning_report(
            "#cpp_value is deprecated; use #cpp_heap_allocated instead"@,
            w.at(span),
        ),
    );
    let at = tree_span(c.src, x);
    let noted = w.noted(SpanKeyModel::Layout(c.ty), at);
    lemma_error(noted, "Duplicate layout policy found"@, at);
    if d.layout_span is Some {
        lemma_error(w, "Duplicate layout policy found"@, d.layout_span->0);
    }
    let p = props_in(below(child(k, Rule::Props)), c.src);
    let e = props_errors(p, c.ty_span);
    lemma_errors(w, e, e.len());
}

proof fn lemma_entries(steps: Seq<StepModel>, n: nat, c: Declared, d: DeclModel, w: BuilderModel)
    requires
        n <= steps.len(),
    ensures
        errors_in(entries_read(steps, n, c, d, w).1) >= errors_in(w),
        errors_in(entries_read(steps, n, c, d, w).1) == 0 && cpp_ref_sized(d) ==> cpp_ref_sized(
            entries_read(steps, n, c, d, w).0,
        ),
    decreases n,
{
    if n > 0 {
        lemma_entries(steps, (n - 1) as nat, c, d, w);
        let (d1, w1) = entries_read(steps, (n - 1) as nat, c, d, w);
        match steps[n - 1] {
            StepModel::Take(t) => {
                lemma_entry(t, c, d1, w1);
            },
            StepModel::Complain(r) => {
                lemma_error(w1, r.message, r.span);
            },
        }
    }
}

/// A type that C++ sees by reference has no size, where its declaration has no
/// error and does not also say that the C++ type is held in place.
pub proof fn law_cpp_ref_has_no_size(steps: Seq<StepModel>, c: Declared, w: BuilderModel)
    requires
        errors_in(entries_read(steps, steps.len(), c, empty_decl(), w).1) == 0,
        entries_read(steps, steps.len(), c, empty_decl(), w).0.cpp_ref is Some,
        entries_read(steps, steps.len(), c, empty_decl(), w).0.stack is None,
    ensures
        entries_read(steps, steps.len(), c, empty_decl(), w).0.layout == Some(
            LayoutPolicy::zero_sized_type(),
        ),
{
    lemma_entries(steps, steps.len(), c, empty_decl(), w);
}

/// A second layout in a declaration is an error.
pub proof fn law_second_layout_is_an_error(
    l: LayoutPolicy,
    span: Span,
    c: Declared,
    d: DeclModel,
    w: BuilderModel,
)
    requires
        d.layout_span is Some,
    ensures
        errors_in(layout_found(l, span, c, d, w).1) == errors_in(w) + 1,
{
    lemma_error(
        w.noted(SpanKeyModel::Layout(c.ty), span),
        "Duplicate layout policy found"@,
        span,
    );
}

/// The place of the first `?Sized` among the traits.
pub open spec fn unsized_at(v: Seq<(ZngurWellknownTrait, Span)>, i: int) -> Option<Span>
    decreases v.len() - i,
{
    if i < 0 || i >= v.len() {
        None
    } else if v[i].0 == ZngurWellknownTrait::Unsized {
        Some(v[i].1)
    } else {
        unsized_at(v, i + 1)
    }
}

/// The report of a layout for a type whose layout is given already.
pub open spec fn unsized_report(layout: ReportSpan, decl: ReportSpan) -> ReportModel {
    ReportModel {
        fatal: true,
        kind: ReportKind::Error,
        at: layout,
        message: "Duplicate layout policy found for unsized type."@,
        labels: seq![
            LabelModel {
                at: layout,
                message: "Unsized types have implicit layout policy, remove this."@,
                color: Color::Red,
            },
            LabelModel {
                at: decl,
                message: "Type declared as unsized here."@,
                color: Color::Blue,
            },
        ],
        notes: Seq::empty(),
    }
}

/// The type that a declaration declares, and the interface.
pub open spec fn decl_done(ty: TypeModel, d: DeclModel, w: BuilderModel) -> (
    ZngurTypeModel,
    BuilderModel,
) {
    let hit = unsized_at(d.traits, 0);
    let w = match (hit, d.layout_span) {
        (Some(u), Some(l)) => w.reported(unsized_report(w.at(l), w.at(u))),
        _ => w,
    };
    (
        ZngurTypeModel {
            ty,
            layout: if hit is Some {
                Some(LayoutPolicy::OnlyByRef)
            } else {
                d.layout
            },
            wellknown_traits: Seq::new(d.traits.len(), |i: int| d.traits[i].0),
            methods: d.methods,
            exhaustive: d.exhaustive,
            constructor: d.constructor,
            variants: d.variants,
            fields: d.fields,
            cpp_heap_allocated: d.heap,
            cpp_ref: d.cpp_ref,
            cpp_stack_owned: d.stack,
        },
        w,
    )
}

/// The interface once a template was declared.
pub open spec fn template_declared(z: ZngurTypeModel, span: Span, w: BuilderModel) -> BuilderModel {
    BuilderModel { templates: w.templates.push(TemplateModel { ty: z, at: w.at(span) }), ..w }
}

/// The interface once a type was declared.
pub open spec fn type_declared(z: ZngurTypeModel, span: Span, w: BuilderModel) -> BuilderModel {
    let w = w.noted(SpanKeyModel::Ty(z.ty), span);
    let (spec, e) = add_type(w.spec, z);
    let w = BuilderModel { spec, ..w };
    match e {
        Some(f) => w.error(f.message, span),
        None => w,
    }
}

/// The interface once a `type` item was read.
pub open spec fn type_item_read(t: Tree, src: SourceModel, sc: ScopeModel, cfg: CfgModel, w: BuilderModel) -> BuilderModel {
    let k = below(t);
    let name = child(k, Rule::Type);
    let ty_span = tree_span(src, name);
    let is_template = has_rule(k, Rule::TypeVars);
    let sc = if is_template {
        ScopeModel {
            type_vars: crate::lower::leaf_texts(below(child(k, Rule::TypeVars)), src),
            ..sc
        }
    } else {
        sc
    };
    let ty = crate::lower::type_of(name, src, sc);
    if cpp_trait_in_tree(name, src, sc) {
        w.error(cpp_only_message(), ty_span)
    } else {
        let w = if ty == crate::rust_types::unit_model() {
            w.error("Unit type is declared implicitly. Remove this entirely."@, ty_span)
        } else {
            w
        };
        let steps = list_steps(below(child(k, Rule::TypeBody)), false, src, cfg);
        let c = Declared { ty, ty_span, src, sc };
        let (d, w) = entries_read(steps, steps.len(), c, empty_decl(), w);
        let (z, w) = decl_done(ty, d, w);
        if is_template {
            template_declared(z, ty_span, w)
        } else {
            type_declared(z, ty_span, w)
        }
    }
}

/// The type that is declared, and where.
struct DeclCtx<'a> {
    ty: &'a RustType,
    ty_span: Span,
    src: &'a Source,
    sc: &'a Scope,
}

impl<'a> DeclCtx<'a> {
    spec fn view(&self) -> Declared {
        Declared { ty: self.ty.view(), ty_span: self.ty_span, src: self.src.view(), sc: self.sc.view() }
    }
}

/// Size and alignment among properties, and what is wrong with the others.
struct PropList {
    size: Option<usize>,
    align: Option<usize>,
    wrong: Vec<Remark>,
}

impl PropList {
    spec fn view(&self) -> Props {
        Props { size: self.size, align: self.align, wrong: remarks_view(self.wrong@) }
    }
}

fn span_of_token(src: &Source, i: usize) -> (r: Span)
    ensures
        r == token_span(src@, i),
{
    src.span(
        i,
        if i < usize::MAX {
            i + 1
        } else {
            i
        },
    )
}

fn push_remark(v: &mut Vec<Remark>, message: &str, span: Span)
    ensures
        remarks_view(final(v)@) == remarks_view(old(v)@).push(
            RemarkModel { message: message@, span },
        ),
{
    let r = Remark { message: String::from_str(message), span };
    proof {
        assert(remarks_view(v@.push(r)) =~= remarks_view(v@).push(r@));
    }
    v.push(r);
}

fn read_props(ts: &Trees, src: &Source) -> (r: PropList)
    ensures
        r@ == props_in(*ts, src@),
    decreases ts,
{
    match ts {
        Trees::Nil => {
            let r = PropList { size: None, align: None, wrong: Vec::new() };
            proof {
                assert(remarks_view(r.wrong@) =~= Seq::empty());
            }
            r
        },
        Trees::Snoc(rest, x) => {
            let mut p = read_props(rest, src);
            match &**x {
                Tree::Node(q, _, _, k) => {
                    if *q == Rule::Prop {
                        let first = find_first_leaf(k);
                        let key = src.text_at(first);
                        let value = src.number_at(find_last_leaf(k));
                        if str_eq(key.as_str(), "size") {
                            p.size = Some(value);
                        } else if str_eq(key.as_str(), "align") {
                            p.align = Some(value);
                        } else {
                            push_remark(
                                &mut p.wrong,
                                "Unknown property",
                                span_of_token(src, first),
                            );
                        }
                    }
                },
                _ => {},
            }
            p
        },
    }
}

/// Size and alignment among the properties below a node, or what is wrong.
fn check_size_align(k: &Trees, c: &DeclCtx<'_>) -> (r: Result<(usize, usize), Vec<Remark>>)
    ensures
        ({
            let p = props_in(below(child(*k, Rule::Props)), c@.src);
            let e = props_errors(p, c@.ty_span);
            match r {
                Ok((size, align)) => e.len() == 0 && p.size == Some(size) && p.align == Some(align),
                Err(v) => e.len() > 0 && remarks_view(v@) == e,
            }
        }),
{
    let p = match find_below(k, Rule::Props) {
        Some(ts) => read_props(ts, c.src),
        None => {
            let none = Trees::Nil;
            read_props(&none, c.src)
        },
    };
    let PropList { size, align, mut wrong } = p;
    if size.is_none() {
        push_remark(&mut wrong, "Size is not declared for this type", c.ty_span);
    }
    if align.is_none() {
        push_remark(&mut wrong, "Align is not declared for this type", c.ty_span);
    }
    proof {
        assert(remarks_view(wrong@).len() == wrong@.len());
    }
    if wrong.len() > 0 {
        return Err(wrong);
    }
    match (size, align) {
        (Some(a), Some(b)) => Ok((a, b)),
        _ => Err(wrong),
    }
}

fn add_layout(
    l: LayoutPolicy,
    span: Span,
    c: &DeclCtx<'_>,
    d: &mut Decl,
    w: &mut ZngurSpecBuilder,
)
    ensures
        (final(d)@, final(w)@) == layout_found(l, span, c@, old(d)@, old(w)@),
{
    w.record_span(SpanKey::Layout(c.ty.copy()), span);
    d.layout = Some(l);
    match d.layout_span {
        Some(_) => {
            w.add_error_str("Duplicate layout policy found", span);
        },
        None => {
            d.layout_span = Some(span);
        },
    }
}

fn add_sized_layout(
    x: &Tree,
    k: &Trees,
    conservative: bool,
    c: &DeclCtx<'_>,
    d: &mut Decl,
    w: &mut ZngurSpecBuilder,
)
    requires
        *k == below(*x),
    ensures
        (final(d)@, final(w)@) == sized_layout_found(*x, conservative, c@, old(d)@, old(w)@),
{
    match check_size_align(k, c) {
        Ok((size, align)) => {
            let l = if conservative {
                LayoutPolicy::Conservative { size, align }
            } else {
                LayoutPolicy::StackAllocated { size, align }
            };
            add_layout(l, c.src.span_of_tree(x), c, d, w);
        },
        Err(e) => {
            proof {
                assert(remarks_view(e@).len() == e@.len());
            }
            w.add_remarks(&e);
        },
    }
}

fn read_wellknown(ts: &Trees, src: &Source) -> (r: Vec<(ZngurWellknownTrait, Span)>)
    ensures
        r@ == wellknown_in(*ts, src@),
    decreases ts,
{
    match ts {
        Trees::Nil => Vec::new(),
        Trees::Snoc(rest, x) => {
            let mut r = read_wellknown(rest, src);
            match &**x {
                Tree::Node(q, _, _, k) => {
                    if *q == Rule::WellknownTrait {
                        let i = find_first_leaf(k);
                        let t = if i == usize::MAX {
                            ZngurWellknownTrait::Unsized
                        } else {
                            match src.tok_at(i) {
                                Some(Tok::Ident(Word::Debug)) => ZngurWellknownTrait::Debug,
                                _ => ZngurWellknownTrait::Copy,
                            }
                        };
                        r.push((t, src.span_of_tree(x)));
                    }
                },
                _ => {},
            }
            r
        },
    }
}

fn number_types(v: Vec<RustType>) -> (r: Vec<(String, RustType)>)
    ensures
        named_view(r@) == numbered_types(types_view(v@)),
{
    let mut r: Vec<(String, RustType)> = Vec::new();
    let mut i: usize = 0;
    while i < v.len()
        invariant
            i <= v.len(),
            r.len() == i,
            forall|j: int|
                0 <= j < i ==> (#[trigger] r@[j]).0@ == dec_text(j as nat) && r@[j].1.view()
                    == v@[j].view(),
        decreases v.len() - i,
    {
        r.push((decimal(i), v[i].copy()));
        i += 1;
    }
    proof {
        assert(named_view(r@) =~= numbered_types(types_view(v@)));
    }
    r
}

fn read_constructor(x: &Tree, src: &Source, sc: &Scope) -> (r: ZngurConstructor)
    ensures
        r@ == constructor_of(*x, src@, sc@),
{
    let none = Trees::Nil;
    let k = match kids(x) {
        Some(k) => k,
        None => &none,
    };
    let inputs = if any_rule(k, Rule::TupleArgs) {
        let args = match find_below(k, Rule::TupleArgs) {
            Some(a) => a,
            None => &none,
        };
        number_types(lower_types(args, src, sc))
    } else if any_rule(k, Rule::NamedArgs) {
        let args = match find_below(k, Rule::NamedArgs) {
            Some(a) => a,
            None => &none,
        };
        lower_named(args, src, sc)
    } else {
        let v: Vec<(String, RustType)> = Vec::new();
        proof {
            assert(named_view(v@) =~= Seq::empty());
        }
        v
    };
    ZngurConstructor { inputs }
}

fn read_field(x: &Tree, src: &Source, sc: &Scope) -> (r: ZngurField)
    ensures
        r@ == field_of(*x, src@, sc@),
{
    let none = Trees::Nil;
    let k = match kids(x) {
        Some(k) => k,
        None => &none,
    };
    let o = find_last_leaf(k);
    let offset = match src.tok_at(o) {
        Some(Tok::Number) => Some(src.number_at(o)),
        _ => None,
    };
    ZngurField {
        name: src.text_at(find_first_leaf(k)),
        ty: lower_type_in(k, src, sc),
        offset,
    }
}

/// The last of the trees below a node.
fn last_below(t: &Tree) -> (r: Option<&Tree>)
    ensures
        match r {
            Some(x) => *x == last_tree(below(*t)),
            None => last_tree(below(*t)) == Tree::Leaf(usize::MAX),
        },
{
    match t {
        Tree::Leaf(_) => None,
        Tree::Node(_, _, _, k) => match &**k {
            Trees::Nil => None,
            Trees::Snoc(_, x) => Some(x),
        },
    }
}

fn read_variant(ts: &Trees, c: &DeclCtx<'_>, w: &mut ZngurSpecBuilder) -> (r: (
    bool,
    Vec<ZngurField>,
))
    ensures
        (r.0, fields_view(r.1@), final(w)@) == variant_entries(*ts, c@, old(w)@),
    decreases ts,
{
    match ts {
        Trees::Nil => {
            let v: Vec<ZngurField> = Vec::new();
            proof {
                assert(fields_view(v@) =~= Seq::empty());
            }
            (true, v)
        },
        Trees::Snoc(rest, t) => {
            let (exhaustive, mut fields) = read_variant(rest, c, w);
            if !tree_is(t, Rule::VariantEntry) {
                return (exhaustive, fields);
            }
            let span = c.src.span_of_tree(t);
            let none = Tree::Leaf(usize::MAX);
            let x = match last_below(t) {
                Some(x) => x,
                None => &none,
            };
            if tree_is(x, Rule::NonExhaustive) {
                if !exhaustive {
                    w.add_error_str("Duplicate non_exhaustive annotation found", span);
                }
                (false, fields)
            } else {
                let f = read_field(x, c.src, c.sc);
                if f.offset.is_some() {
                    w.add_error_str("static offsets on enum fields are not supported", span);
                }
                w.record_span(
                    SpanKey::Field(c.ty.copy(), Some(f.name.clone()), f.name.clone()),
                    span,
                );
                proof {
                    assert(fields_view(fields@.push(f)) =~= fields_view(fields@).push(f@));
                }
                fields.push(f);
                (exhaustive, fields)
            }
        },
    }
}

fn add_method(
    x: &Tree,
    k: &Trees,
    span: Span,
    c: &DeclCtx<'_>,
    d: &mut Decl,
    w: &mut ZngurSpecBuilder,
)
    requires
        *k == below(*x),
    ensures
        (final(d)@, final(w)@) == method_found(*x, span, c@, old(d)@, old(w)@),
{
    let none = Trees::Nil;
    let no_tree = Tree::Leaf(usize::MAX);
    let data = match find_child(k, Rule::Method) {
        Some(m) => lower_method(m, c.src, c.sc),
        None => lower_method(&no_tree, c.src, c.sc),
    };
    let deref = if any_rule(k, Rule::DerefTo) {
        match data.receiver {
            ZngurMethodReceiver::Ref(m) => {
                let to = match find_below(k, Rule::DerefTo) {
                    Some(a) => a,
                    None => &none,
                };
                Some((lower_type_in(to, c.src, c.sc), m))
            },
            _ => {
                w.add_error_str("Deref needs reference receiver", span);
                None
            },
        }
    } else {
        None
    };
    let use_path = if any_rule(k, Rule::UsePath) {
        let at = match find_below(k, Rule::UsePath) {
            Some(a) => a,
            None => &none,
        };
        let path = lower_child_path(at, c.src);
        match c.sc.resolve_path(&path) {
            EntityPath::Rust(p) => Some(p),
            EntityPath::Cpp(_) => {
                w.add_error_str(
                    "a c++::-only path was used somewhere that can't support it",
                    span,
                );
                return;
            },
        }
    } else {
        None
    };
    let cpp_name = if any_rule(k, Rule::CppName) {
        let at = match find_below(k, Rule::CppName) {
            Some(a) => a,
            None => &none,
        };
        Some(c.src.text_at(find_first_leaf(at)))
    } else {
        None
    };
    w.record_span(SpanKey::Method(c.ty.copy(), data.copy()), span);
    let m = ZngurMethodDetails { data, use_path, deref, cpp_name };
    proof {
        assert(method_details_view(d.methods@.push(m)) =~= method_details_view(d.methods@).push(
            m@,
        ));
    }
    d.methods.push(m);
}

fn add_stack_owned(
    x: &Tree,
    k: &Trees,
    span: Span,
    c: &DeclCtx<'_>,
    d: &mut Decl,
    w: &mut ZngurSpecBuilder,
)
    requires
        *k == below(*x),
    ensures
        (final(d)@, final(w)@) == stack_found(*x, span, c@, old(d)@, old(w)@),
{
    match check_size_align(k, c) {
        Ok((size, align)) => {
            w.record_span(SpanKey::CppStackOwned(c.ty.copy()), span);
            d.stack = Some(
                CppStackOwned { cpp_type: c.src.text_at(find_first_leaf(k)), size, align },
            );
            d.layout = Some(LayoutPolicy::StackAllocated { size, align });
        },
        Err(e) => {
            proof {
                assert(remarks_view(e@).len() == e@.len());
            }
            w.add_remarks(&e);
        },
    }
}

fn add_cpp_ref(
    x: &Tree,
    k: &Trees,
    span: Span,
    c: &DeclCtx<'_>,
    d: &mut Decl,
    w: &mut ZngurSpecBuilder,
)
    requires
        *k == below(*x),
    ensures
        (final(d)@, final(w)@) == cpp_ref_found(*x, span, c@, old(d)@, old(w)@),
{
    match d.layout_span {
        Some(at) => {
            w.add_error_str("Duplicate layout policy found", at);
        },
        None => {
            d.layout = Some(LayoutPolicy::zero_sized_type());
            d.layout_span = Some(span);
            w.record_span(SpanKey::CppRef(c.ty.copy()), span);
            d.cpp_ref = Some(CppRef(c.src.text_at(find_first_leaf(k))));
        },
    }
}

fn add_variant(k: &Trees, c: &DeclCtx<'_>, d: &mut Decl, w: &mut ZngurSpecBuilder)
    ensures
        ({
            let (exhaustive, fields, w1) = variant_entries(*k, c@, old(w)@);
            let name = leaf_text(c@.src, first_leaf(*k));
            &&& final(d)@ == (DeclModel {
                variants: old(d)@.variants.push(VariantModel { name, fields, exhaustive }),
                ..old(d)@
            })
            &&& final(w)@ == w1
        }),
{
    let (exhaustive, fields) = read_variant(k, c, w);
    let v = ZngurVariant { name: c.src.text_at(find_first_leaf(k)), fields, exhaustive };
    proof {
        assert(variants_view(d.variants@.push(v)) =~= variants_view(d.variants@).push(v@));
    }
    d.variants.push(v);
}

/// Reads an entry of a declaration.
fn read_entry(t: &Tree, c: &DeclCtx<'_>, d: &mut Decl, w: &mut ZngurSpecBuilder)
    ensures
        (final(d)@, final(w)@) == entry_read(*t, c@, old(d)@, old(w)@),
{
    let span = c.src.span_of_tree(t);
    if has_cpp_trait(t, c.src, c.sc) {
        w.add_error_str("a c++::-only path was used somewhere that can't support it", span);
        return;
    }
    let x = match last_below(t) {
        Some(x) => x,
        None => {
            return;
        },
    };
    match x {
        Tree::Leaf(_) => {},
        Tree::Node(q, _, _, k) => match q {
            Rule::LayoutStack => add_sized_layout(x, k, false, c, d, w),
            Rule::LayoutConservative => add_sized_layout(x, k, true, c, d, w),
            Rule::LayoutOnlyByRef => add_layout(
                LayoutPolicy::OnlyByRef,
                c.src.span_of_tree(x),
                c,
                d,
                w,
            ),
            Rule::LayoutHeap => add_layout(
                LayoutPolicy::HeapAllocated,
                c.src.span_of_tree(x),
                c,
                d,
                w,
            ),
            Rule::Traits => {
                let mut more = read_wellknown(k, c.src);
                d.traits.append(&mut more);
            },
            Rule::NonExhaustive => {
                if !d.exhaustive {
                    w.add_error_str("Duplicate non_exhaustive annotation found", span);
                }
                d.exhaustive = false;
            },
            Rule::Constructor => {
                if d.constructor.is_some() {
                    w.add_error_str("Duplicate constructor found", span);
                }
                let made = read_constructor(x, c.src, c.sc);
                w.record_span(SpanKey::Constructor(c.ty.copy(), made.copy()), span);
                d.constructor = Some(made);
            },
            Rule::Variant => add_variant(k, c, d, w),
            Rule::Field => {
                let f = read_field(x, c.src, c.sc);
                w.record_span(SpanKey::Field(c.ty.copy(), None, f.name.clone()), span);
                proof {
                    assert(fields_view(d.fields@.push(f)) =~= fields_view(d.fields@).push(f@));
                }
                d.fields.push(f);
            },
            Rule::MethodItem => add_method(x, k, span, c, d, w),
            Rule::CppValue => {
                w.add_warning_str(
                    "#cpp_value is deprecated; use #cpp_heap_allocated instead",
                    span,
                );
                d.heap = Some(CppHeapAllocated(c.src.text_at(find_last_leaf(k))));
            },
            Rule::CppHeapAllocated => {
                w.record_span(SpanKey::CppHeapAllocated(c.ty.copy()), span);
                d.heap = Some(CppHeapAllocated(c.src.text_at(find_first_leaf(k))));
            },
            Rule::CppRef => add_cpp_ref(x, k, span, c, d, w),
            Rule::CppStackOwned => add_stack_owned(x, k, span, c, d, w),
            _ => {},
        },
    }
}

fn read_entries(steps: &Vec<Step<'_>>, c: &DeclCtx<'_>, d: &mut Decl, w: &mut ZngurSpecBuilder)
    ensures
        (final(d)@, final(w)@) == entries_read(
            steps_view(steps@),
            steps@.len(),
            c@,
            old(d)@,
            old(w)@,
        ),
{
    let mut i: usize = 0;
    while i < steps.len()
        invariant
            i <= steps.len(),
            (d@, w@) == entries_read(steps_view(steps@), i as nat, c@, old(d)@, old(w)@),
        decreases steps.len() - i,
    {
        proof {
            assert(steps_view(steps@)[i as int] == steps@[i as int].view());
        }
        match &steps[i] {
            Step::Take(t) => read_entry(t, c, d, w),
            Step::Complain(r) => w.add_error_str(r.message.as_str(), r.span),
        }
        i += 1;
    }
}

fn find_unsized(v: &Vec<(ZngurWellknownTrait, Span)>) -> (r: Option<Span>)
    ensures
        r == unsized_at(v@, 0),
{
    let mut i: usize = 0;
    while i < v.len()
        invariant
            i <= v.len(),
            unsized_at(v@, i as int) == unsized_at(v@, 0),
        decreases v.len() - i,
    {
        if v[i].0 == ZngurWellknownTrait::Unsized {
            return Some(v[i].1);
        }
        i += 1;
    }
    None
}

fn make_unsized_report(layout: ReportSpan, decl: ReportSpan) -> (r: Report)
    ensures
        r@ == unsized_report(layout, decl),
{
    let mut labels: Vec<Label> = Vec::new();
    labels.push(
        Label {
            at: layout,
            message: String::from_str("Unsized types have implicit layout policy, remove this."),
            color: Color::Red,
        },
    );
    labels.push(
        Label {
            at: decl,
            message: String::from_str("Type declared as unsized here."),
            color: Color::Blue,
        },
    );
    let r = Report {
        fatal: true,
        kind: ReportKind::Error,
        at: layout,
        message: String::from_str("Duplicate layout policy found for unsized type."),
        labels,
        notes: Vec::new(),
    };
    proof {
        assert(r@.labels =~= unsized_report(layout, decl).labels);
        assert(r@.notes =~= Seq::empty());
    }
    r
}

fn finish_decl(ty: RustType, d: Decl, w: &mut ZngurSpecBuilder) -> (r: ZngurType)
    ensures
        (r@, final(w)@) == decl_done(ty@, d@, old(w)@),
{
    let hit = find_unsized(&d.traits);
    match (hit, d.layout_span) {
        (Some(u), Some(l)) => {
            let at = ReportSpan { source_id: w.source_id, span: l };
            let decl = ReportSpan { source_id: w.source_id, span: u };
            w.add_report(make_unsized_report(at, decl));
        },
        _ => {},
    }
    let mut wellknown_traits: Vec<ZngurWellknownTrait> = Vec::new();
    let mut i: usize = 0;
    while i < d.traits.len()
        invariant
            i <= d.traits.len(),
            wellknown_traits.len() == i,
            forall|j: int| 0 <= j < i ==> wellknown_traits@[j] == d.traits@[j].0,
        decreases d.traits.len() - i,
    {
        wellknown_traits.push(d.traits[i].0);
        i += 1;
    }
    proof {
        assert(wellknown_traits@ =~= Seq::new(d@.traits.len(), |i: int| d@.traits[i].0));
    }
    ZngurType {
        ty,
        layout: if hit.is_some() {
            Some(LayoutPolicy::OnlyByRef)
        } else {
            d.layout
        },
        wellknown_traits,
        methods: d.methods,
        exhaustive: d.exhaustive,
        constructor: d.constructor,
        variants: d.variants,
        fields: d.fields,
        cpp_heap_allocated: d.heap,
        cpp_ref: d.cpp_ref,
        cpp_stack_owned: d.stack,
    }
}

fn declare_template(z: ZngurType, span: Span, w: &mut ZngurSpecBuilder)
    ensures
        final(w)@ == template_declared(z@, span, old(w)@),
{
    let t = TemplateDef { ty: z, at: ReportSpan { source_id: w.source_id, span } };
    proof {
        assert(crate::work::templates_view(w.templates@.push(t)) =~= crate::work::templates_view(
            w.templates@,
        ).push(t@));
    }
    w.templates.push(t);
}

fn declare_type(z: ZngurType, span: Span, w: &mut ZngurSpecBuilder)
    ensures
        final(w)@ == type_declared(z@, span, old(w)@),
{
    w.record_span(SpanKey::Ty(z.ty.copy()), span);
    match w.spec.merge_type_decl(z) {
        Ok(_) => {},
        Err(e) => w.add_error_str(e.message.as_str(), span),
    }
}

fn new_decl() -> (r: Decl)
    ensures
        r@ == empty_decl(),
{
    let r = Decl {
        methods: Vec::new(),
        constructor: None,
        variants: Vec::new(),
        fields: Vec::new(),
        traits: Vec::new(),
        layout: None,
        layout_span: None,
        exhaustive: true,
        heap: None,
        cpp_ref: None,
        stack: None,
    };
    proof {
        assert(r@ =~= empty_decl());
    }
    r
}

/// Reads a `type` item.
pub fn read_type_item(
    t: &Tree,
    src: &Source,
    sc: &Scope,
    cfg: &InMemoryRustCfgProvider,
    w: &mut ZngurSpecBuilder,
)
    ensures
        final(w)@ == type_item_read(*t, src@, sc@, cfg@, old(w)@),
{
    let none = Trees::Nil;
    let no_tree = Tree::Leaf(usize::MAX);
    let k = match kids(t) {
        Some(k) => k,
        None => &none,
    };
    let name = match find_child(k, Rule::Type) {
        Some(n) => n,
        None => &no_tree,
    };
    let ty_span = src.span_of_tree(name);
    let is_template = any_rule(k, Rule::TypeVars);
    let vars = match find_below(k, Rule::TypeVars) {
        Some(v) => v,
        None => &none,
    };
    let inner = if is_template {
        sc.with_type_vars(crate::lower::lower_leaf_texts(vars, src))
    } else {
        copy_scope(sc)
    };
    let ty = crate::lower::lower_type(name, src, &inner);
    if has_cpp_trait(name, src, &inner) {
        w.add_error_str("a c++::-only path was used somewhere that can't support it", ty_span);
        return;
    }
    if ty.is_unit() {
        w.add_error_str("Unit type is declared implicitly. Remove this entirely.", ty_span);
    }
    let body = match find_below(k, Rule::TypeBody) {
        Some(b) => b,
        None => &none,
    };
    let mut steps: Vec<Step<'_>> = Vec::new();
    proof {
        assert(steps_view(steps@) =~= Seq::empty());
    }
    walk_list(body, false, src, cfg, &mut steps);
    proof {
        let l = list_steps(*body, false, src@, cfg@);
        assert(Seq::<StepModel>::empty() + l =~= l);
        assert(steps_view(steps@).len() == steps@.len());
    }
    let mut d = new_decl();
    let c = DeclCtx { ty: &ty, ty_span, src, sc: &inner };
    read_entries(&steps, &c, &mut d, w);
    let z = finish_decl(ty.copy(), d, w);
    if is_template {
        declare_template(z, ty_span, w);
    } else {
        declare_type(z, ty_span, w);
    }
}

fn copy_scope(sc: &Scope) -> (r: Scope)
    ensures
        r@ == sc@,
{
    sc.with_type_vars(crate::text::strings_copy(&sc.type_vars))
}

} // verus!
