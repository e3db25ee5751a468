//! What declarations say: which part of a type each entry gives, what it takes for
//! that, and which entries are errors.

use crate::cfg::CfgModel;
use crate::coro::{first_named, future_output};
use crate::def::{LayoutPolicy, ZngurMethodReceiver, ZngurWellknownTrait};
use crate::items::{
    extern_impl_added, fn_added, impl_methods_in, item_added, merge_added, misplaced_module,
    panic_added, safe_method,
};
use crate::lower::{
    below, child, cpp_trait_in_tree, first_leaf, future_of, has_rule, inputs_in, is_rule,
    last_leaf, last_tree, leaf_number, leaf_text, leaf_tok, method_of, output_in, path_of,
    tree_span, type_in, SourceModel,
};
use crate::peg::{one_tree, Rule, Tree, Trees};
use crate::report::{lemma_fatal_push, ReportKind};
use crate::rust_file::returned_type;
use crate::rust_types::TypeModel;
use crate::scope::{EntityModel, ParsedPathStart, ScopeModel, Span};
use crate::text::occurs_at;
use crate::token::{Tok, Word};
use crate::type_item::{
    decl_done, entry_read, errors_in, field_of, lemma_error, lemma_errors, props_errors, props_in,
    unsized_at, unsized_report, variant_entries, wellknown_of, DeclModel, Declared,
};
use crate::work::BuilderModel;
use vstd::prelude::*;

verus! {

/// Whether an entry of a type is of a kind, and holds these trees.
pub open spec fn is_entry(t: Tree, q: Rule, k: Trees, c: Declared) -> bool {
    last_tree(below(t)) matches Tree::Node(r, _, _, trees) && r == q && *trees == k
        && !cpp_trait_in_tree(t, c.src, c.sc)
}

/// The properties of a layout give a size and an alignment, and nothing else.
pub open spec fn gives_size(k: Trees, src: SourceModel, size: usize, align: usize) -> bool {
    let p = props_in(below(child(k, Rule::Props)), src);
    p.size == Some(size) && p.align == Some(align) && p.wrong.len() == 0
}

/// A property `size` gives the size and `align` the alignment, each the number
/// behind it, whatever was given before; anything else is wrong.
pub proof fn law_properties_are_read(ts: Trees, from: usize, to: usize, k: Trees, src: SourceModel)
    ensures
        ({
            let key = leaf_text(src, first_leaf(k));
            let n = leaf_number(src, last_leaf(k));
            let before = props_in(ts, src);
            let after = props_in(
                Trees::Snoc(
                    Box::new(ts),
                    Box::new(Tree::Node(Rule::Prop, from, to, Box::new(k))),
                ),
                src,
            );
            &&& key == "size"@ ==> after.size == Some(n) && after.align == before.align
                && after.wrong == before.wrong
            &&& key == "align"@ ==> after.align == Some(n) && after.size == before.size
                && after.wrong == before.wrong
            &&& key != "size"@ && key != "align"@ ==> after.size == before.size && after.align
                == before.align && after.wrong.len() == before.wrong.len() + 1
        }),
{
    reveal_strlit("size");
    reveal_strlit("align");
    assert("size"@.len() == 4 && "align"@.len() == 5);
}

/// A layout is the one that is written: of the given size and alignment, exactly
/// for `#layout` and at most for `#layout_conservative`, on the heap, or by
/// reference alone; nothing else of the type changes.
pub proof fn law_layouts_are_read(t: Tree, k: Trees, c: Declared, d: DeclModel, w: BuilderModel, size: usize, align: usize)
    ensures
        is_entry(t, Rule::LayoutStack, k, c) && gives_size(k, c.src, size, align) ==> entry_read(
            t,
            c,
            d,
            w,
        ).0.layout == Some(LayoutPolicy::StackAllocated { size, align }),
        is_entry(t, Rule::LayoutConservative, k, c) && gives_size(k, c.src, size, align)
            ==> entry_read(t, c, d, w).0.layout == Some(LayoutPolicy::Conservative { size, align }),
        is_entry(t, Rule::LayoutHeap, k, c) ==> entry_read(t, c, d, w).0.layout == Some(
            LayoutPolicy::HeapAllocated,
        ),
        is_entry(t, Rule::LayoutOnlyByRef, k, c) ==> entry_read(t, c, d, w).0.layout == Some(
            LayoutPolicy::OnlyByRef,
        ),
        is_entry(t, Rule::CppStackOwned, k, c) && gives_size(k, c.src, size, align) ==> {
            let e = entry_read(t, c, d, w).0;
            &&& e.layout == Some(LayoutPolicy::StackAllocated { size, align })
            &&& e.stack is Some && e.stack->0.size == size && e.stack->0.align == align
            &&& e.stack->0.cpp_type == leaf_text(c.src, first_leaf(k))
        },
        is_entry(t, Rule::LayoutStack, k, c) || is_entry(t, Rule::LayoutConservative, k, c)
            || is_entry(t, Rule::LayoutHeap, k, c) || is_entry(t, Rule::LayoutOnlyByRef, k, c) ==> {
            let e = entry_read(t, c, d, w).0;
            &&& e.methods == d.methods && e.fields == d.fields && e.variants == d.variants
            &&& e.traits == d.traits && e.constructor == d.constructor
            &&& e.exhaustive == d.exhaustive && e.heap == d.heap
            &&& e.cpp_ref == d.cpp_ref && e.stack == d.stack
        },
{
}

/// A layout whose properties give no size or no alignment, or something else, is an
/// error for each of these, and gives no layout.
pub proof fn law_bad_layouts_are_errors(t: Tree, k: Trees, c: Declared, d: DeclModel, w: BuilderModel)
    requires
        is_entry(t, Rule::LayoutStack, k, c) || is_entry(t, Rule::LayoutConservative, k, c)
            || is_entry(t, Rule::CppStackOwned, k, c),
    ensures
        ({
            let p = props_in(below(child(k, Rule::Props)), c.src);
            let bad = p.wrong.len() + (if p.size is None {
                1nat
            } else {
                0nat
            }) + (if p.align is None {
                1nat
            } else {
                0nat
            });
            bad > 0 ==> errors_in(entry_read(t, c, d, w).1) == errors_in(w) + bad && entry_read(
                t,
                c,
                d,
                w,
            ).0 == d
        }),
{
    let p = props_in(below(child(k, Rule::Props)), c.src);
    let e = props_errors(p, c.ty_span);
    lemma_errors(w, e, e.len());
}

/// A field is added behind those before it, with its name and its type, at the
/// offset that is written, or at one that is found out where none is.
pub proof fn law_fields_are_read(t: Tree, k: Trees, c: Declared, d: DeclModel, w: BuilderModel)
    requires
        is_entry(t, Rule::Field, k, c),
    ensures
        ({
            let e = entry_read(t, c, d, w).0;
            let f = e.fields.last();
            &&& e.fields.len() == d.fields.len() + 1
            &&& e.fields.drop_last() == d.fields
            &&& f.name == leaf_text(c.src, first_leaf(k))
            &&& f.ty == type_in(k, c.src, c.sc)
            &&& (f.offset is Some <==> leaf_tok(c.src, last_leaf(k)) == Some(Tok::Number))
            &&& (f.offset matches Some(n) ==> n == leaf_number(c.src, last_leaf(k)))
            &&& e.methods == d.methods && e.variants == d.variants && e.traits == d.traits
            &&& e.constructor == d.constructor && e.layout == d.layout
            &&& e.exhaustive == d.exhaustive
        }),
        errors_in(entry_read(t, c, d, w).1) == errors_in(w),
{
    assert(entry_read(t, c, d, w).0.fields.drop_last() =~= d.fields);
}

/// A well-known trait is the one that is written: `Debug`, `Copy`, or `?Sized`,
/// which has no name of its own.
pub proof fn law_wellknown_traits_are_read(i: usize, src: SourceModel)
    requires
        i < src.toks.len() <= usize::MAX,
    ensures
        src.toks[i as int].tok == Tok::Ident(Word::Debug) ==> wellknown_of(
            one_tree(Tree::Leaf(i)),
            src,
        ) == ZngurWellknownTrait::Debug,
        src.toks[i as int].tok == Tok::Ident(Word::Copy) ==> wellknown_of(
            one_tree(Tree::Leaf(i)),
            src,
        ) == ZngurWellknownTrait::Copy,
        wellknown_of(Trees::Nil, src) == ZngurWellknownTrait::Unsized,
{
    reveal_with_fuel(first_leaf, 3);
    assert(i < usize::MAX);
    assert(first_leaf(one_tree(Tree::Leaf(i))) == i);
}

/// A type is not exhaustive once it says so, and saying so twice is an error.
pub proof fn law_non_exhaustive_is_said_once(t: Tree, k: Trees, c: Declared, d: DeclModel, w: BuilderModel)
    requires
        is_entry(t, Rule::NonExhaustive, k, c),
    ensures
        !entry_read(t, c, d, w).0.exhaustive,
        errors_in(entry_read(t, c, d, w).1) == errors_in(w) + (if d.exhaustive {
            0nat
        } else {
            1nat
        }),
{
    lemma_error(
        w,
        "Duplicate non_exhaustive annotation found"@,
        tree_span(c.src, t),
    );
}

/// A type has the constructor that is written, and a second one is an error.
pub proof fn law_constructor_is_given_once(t: Tree, k: Trees, c: Declared, d: DeclModel, w: BuilderModel)
    requires
        is_entry(t, Rule::Constructor, k, c),
    ensures
        entry_read(t, c, d, w).0.constructor is Some,
        errors_in(entry_read(t, c, d, w).1) == errors_in(w) + (if d.constructor is Some {
            1nat
        } else {
            0nat
        }),
{
    lemma_error(w, "Duplicate constructor found"@, tree_span(c.src, t));
}

/// `deref` goes through a reference of the mutability of the receiver, and is an
/// error where the receiver is no reference.
pub proof fn law_deref_needs_a_reference(t: Tree, k: Trees, c: Declared, d: DeclModel, w: BuilderModel)
    requires
        is_entry(t, Rule::MethodItem, k, c),
        !has_rule(k, Rule::UsePath),
    ensures
        ({
            let e = entry_read(t, c, d, w);
            let m = e.0.methods.last();
            &&& e.0.methods.len() == d.methods.len() + 1
            &&& e.0.methods.drop_last() == d.methods
            &&& m.use_path is None
            &&& (!has_rule(k, Rule::DerefTo) ==> m.deref is None && errors_in(e.1) == errors_in(w))
            &&& (has_rule(k, Rule::DerefTo) && m.data.receiver is Ref ==> (m.deref matches Some(
                to,
            ) && ZngurMethodReceiver::Ref(to.1) == m.data.receiver) && errors_in(e.1) == errors_in(w))
            &&& (has_rule(k, Rule::DerefTo) && !(m.data.receiver is Ref) ==> m.deref is None
                && errors_in(e.1) == errors_in(w) + 1)
        }),
{
    lemma_error(w, "Deref needs reference receiver"@, tree_span(c.src, t));
    assert(entry_read(t, c, d, w).0.methods.drop_last() =~= d.methods);
}

/// A type that wraps a C++ value names the C++ type that is written, and the old
/// way to say it gives the same but a warning, which is no error.
pub proof fn law_cpp_values_are_read(t: Tree, k: Trees, c: Declared, d: DeclModel, w: BuilderModel)
    ensures
        is_entry(t, Rule::CppHeapAllocated, k, c) ==> entry_read(t, c, d, w).0.heap == Some(
            leaf_text(c.src, first_leaf(k)),
        ) && entry_read(t, c, d, w).1.reports == w.reports,
        is_entry(t, Rule::CppValue, k, c) ==> {
            let e = entry_read(t, c, d, w);
            &&& e.0.heap == Some(leaf_text(c.src, last_leaf(k)))
            &&& errors_in(e.1) == errors_in(w)
            &&& e.1.reports.len() == w.reports.len() + 1
            &&& e.1.reports.last().kind == ReportKind::Warning
        },
        is_entry(t, Rule::CppRef, k, c) && d.layout_span is None ==> entry_read(
            t,
            c,
            d,
            w,
        ).0.cpp_ref == Some(leaf_text(c.src, first_leaf(k))),
{
    if is_entry(t, Rule::CppValue, k, c) {
        lemma_fatal_push(
            w.reports,
            crate::report::warning_report(
                "#cpp_value is deprecated; use #cpp_heap_allocated instead"@,
                w.at(tree_span(c.src, t)),
            ),
        );
    }
}

proof fn lemma_unsized(v: Seq<(ZngurWellknownTrait, Span)>, i: int)
    requires
        0 <= i <= v.len(),
    ensures
        unsized_at(v, i) is Some <==> exists|j: int|
            i <= j < v.len() && (#[trigger] v[j]).0 == ZngurWellknownTrait::Unsized,
    decreases v.len() - i,
{
    if i < v.len() && v[i].0 != ZngurWellknownTrait::Unsized {
        lemma_unsized(v, i + 1);
    }
}

/// A type that is `?Sized` is seen by reference alone, and giving it a layout is an
/// error; any other type has the layout that it is given.
pub proof fn law_unsized_types_are_seen_by_reference(ty: TypeModel, d: DeclModel, w: BuilderModel)
    ensures
        ({
            let (z, after) = decl_done(ty, d, w);
            let is_unsized = z.wellknown_traits.contains(ZngurWellknownTrait::Unsized);
            &&& is_unsized ==> z.layout == Some(LayoutPolicy::OnlyByRef)
            &&& !is_unsized ==> z.layout == d.layout
            &&& errors_in(after) == errors_in(w) + (if is_unsized && d.layout_span is Some {
                1nat
            } else {
                0nat
            })
        }),
{
    lemma_unsized(d.traits, 0);
    let (z, after) = decl_done(ty, d, w);
    let v = z.wellknown_traits;
    if unsized_at(d.traits, 0) is Some {
        let j = choose|j: int|
            0 <= j < d.traits.len() && (#[trigger] d.traits[j]).0 == ZngurWellknownTrait::Unsized;
        assert(v[j] == ZngurWellknownTrait::Unsized);
    } else if v.contains(ZngurWellknownTrait::Unsized) {
        let j = choose|j: int| 0 <= j < v.len() && v[j] == ZngurWellknownTrait::Unsized;
        assert(d.traits[j].0 == ZngurWellknownTrait::Unsized);
    }
    if unsized_at(d.traits, 0) is Some && d.layout_span is Some {
        let u = unsized_at(d.traits, 0)->0;
        lemma_fatal_push(
            w.reports,
            unsized_report(w.at(d.layout_span->0), w.at(u)),
        );
    }
}

/// What a type declares reaches its definition as it was declared.
pub proof fn law_declarations_are_kept(ty: TypeModel, d: DeclModel, w: BuilderModel)
    ensures
        ({
            let z = decl_done(ty, d, w).0;
            &&& z.ty == ty
            &&& z.methods == d.methods
            &&& z.fields == d.fields
            &&& z.variants == d.variants
            &&& z.constructor == d.constructor
            &&& z.exhaustive == d.exhaustive
            &&& z.cpp_heap_allocated == d.heap
            &&& z.cpp_ref == d.cpp_ref
            &&& z.cpp_stack_owned == d.stack
            &&& z.wellknown_traits.len() == d.traits.len()
            &&& forall|i: int|
                0 <= i < d.traits.len() ==> #[trigger] z.wellknown_traits[i] == d.traits[i].0
        }),
{
}

/// What an `async` method gives back is a future of its output, which C++ knows as
/// one once it is boxed.
pub proof fn law_async_methods_give_futures(t: Tree, src: SourceModel, sc: ScopeModel, plain: Tree)
    requires
        has_rule(below(t), Rule::Async),
        !has_rule(below(plain), Rule::Async),
        inputs_in(below(t), src, sc) == inputs_in(below(plain), src, sc),
        output_in(below(t), src, sc) == output_in(
            below(plain),
            src,
            sc,
        ),
    ensures
        future_output(returned_type(method_of(t, src, sc).output)) == Some(
            (method_of(plain, src, sc).output, false),
        ),
{
    let out = method_of(plain, src, sc).output;
    reveal_with_fuel(first_named, 2);
    assert(future_of(out) == method_of(t, src, sc).output);
    let bounds = Seq::<Seq<char>>::empty();
    assert(!bounds.contains("Send"@));
}

/// The inputs of a method are those that are declared, without the receiver where
/// there is one.
pub proof fn law_receiver_is_no_input(t: Tree, src: SourceModel, sc: ScopeModel)
    ensures
        ({
            let m = method_of(t, src, sc);
            let all = inputs_in(below(t), src, sc);
            &&& m.receiver == ZngurMethodReceiver::Static ==> m.inputs == all
            &&& m.receiver != ZngurMethodReceiver::Static && all.len() > 0 ==> m.inputs.len()
                == all.len() - 1 && forall|i: int|
                0 <= i < m.inputs.len() ==> #[trigger] m.inputs[i] == all[i + 1]
        }),
{
}

/// A function that C++ implements is safe exactly where it is said to be, and else
/// all that is declared of it is kept.
pub proof fn law_safety_is_declared(k: Trees, src: SourceModel, sc: ScopeModel)
    ensures
        ({
            let m = safe_method(k, src, sc);
            let plain = method_of(child(k, Rule::Method), src, sc);
            &&& (m.is_safe <==> has_rule(k, Rule::Safe))
            &&& m.name == plain.name
            &&& m.receiver == plain.receiver
            &&& m.inputs == plain.inputs
            &&& m.output == plain.output
        }),
{
}

/// A function in a module has the path of the module before its name, and cannot
/// stand among C++ types.
pub proof fn law_functions_stand_in_their_module(x: Tree, src: SourceModel, sc: ScopeModel, w: BuilderModel)
    requires
        !cpp_trait_in_tree(x, src, sc),
    ensures
        ({
            let after = fn_added(x, src, sc, w);
            let m = method_of(child(below(x), Rule::Method), src, sc);
            &&& (sc.base is Cpp ==> after.spec == w.spec && errors_in(after) == errors_in(w) + 1)
            &&& (sc.base matches EntityModel::Rust(p) ==> errors_in(after) == errors_in(w)
                && exists|i: int|
                0 <= i < after.spec.funcs.len() && (#[trigger] after.spec.funcs[i]).path.path
                    == p.push(m.name) && after.spec.funcs[i].inputs == m.inputs
                    && after.spec.funcs[i].output == m.output)
        }),
{
    let m = method_of(child(below(x), Rule::Method), src, sc);
    lemma_error(
        w,
        "a free function cannot be declared inside a c++:: scope"@,
        tree_span(src, child(below(x), Rule::Method)),
    );
    if let EntityModel::Rust(p) = sc.base {
        let f = crate::def::FnModel {
            path: crate::rust_types::PathModel {
                path: p + seq![m.name],
                generics: m.generics,
                named_generics: Seq::empty(),
            },
            inputs: m.inputs,
            output: m.output,
        };
        assert(p + seq![m.name] =~= p.push(m.name));
        let v = fn_added(x, src, sc, w).spec.funcs;
        assert(v == crate::merge::push_unique(w.spec.funcs, f));
        if w.spec.funcs.contains(f) {
            let i = choose|i: int| 0 <= i < w.spec.funcs.len() && w.spec.funcs[i] == f;
            assert(v[i] == f);
        } else {
            assert(v[v.len() - 1] == f);
        }
    }
}

/// Panics become exceptions once the main file asks for it; in a file that is
/// merged that is an error and changes nothing.
pub proof fn law_panics_are_asked_for_in_the_main_file(x: Tree, src: SourceModel, w: BuilderModel)
    ensures
        !w.nested ==> panic_added(x, src, w).spec.convert_panic_to_exception && panic_added(
            x,
            src,
            w,
        ).reports == w.reports,
        w.nested ==> panic_added(x, src, w).spec == w.spec && errors_in(panic_added(x, src, w))
            == errors_in(w) + 1,
{
    lemma_error(
        w,
        "Using `#convert_panic_to_exception` in imported zngur files is not supported. This directive can only be used in the main zngur file."@,
        tree_span(src, x),
    );
}

/// A file is merged exactly where its path starts in the directory of the file
/// that names it; anything else is an error.
pub proof fn law_merged_files_are_relative(x: Tree, src: SourceModel, w: BuilderModel)
    ensures
        ({
            let path = leaf_text(src, first_leaf(below(x)));
            let after = merge_added(x, src, w);
            let relative = path == "."@ || path == ".."@ || occurs_at(path, "./"@, 0) || occurs_at(
                path,
                "../"@,
                0,
            );
            &&& relative ==> after.imports == w.imports.push(path) && errors_in(after) == errors_in(
                w,
            )
            &&& !relative ==> after.imports == w.imports && errors_in(after) > errors_in(w)
        }),
{
    let path = leaf_text(src, first_leaf(below(x)));
    let span = tree_span(src, x);
    lemma_error(w, "Absolute paths imports are not supported."@, span);
    lemma_error(
        w,
        "Module import is not supported. Use a relative path instead."@,
        span,
    );
    lemma_error(
        w.error("Absolute paths imports are not supported."@, span),
        "Module import is not supported. Use a relative path instead."@,
        span,
    );
    reveal_strlit("/");
    reveal_strlit(".");
    reveal_strlit("..");
    reveal_strlit("./");
    reveal_strlit("../");
    if occurs_at(path, "/"@, 0) {
        assert(path.subrange(0, 1)[0] == path[0]);
        assert(path[0] == '/');
        if occurs_at(path, "./"@, 0) {
            assert(path.subrange(0, 2)[0] == path[0]);
        }
        if occurs_at(path, "../"@, 0) {
            assert(path.subrange(0, 3)[0] == path[0]);
        }
    }
}

/// An imported module is added behind those before it, and an additional text of
/// the header behind that before it; nothing else changes.
pub proof fn law_imports_and_additions_are_kept(
    t: Tree,
    q: Rule,
    k: Trees,
    in_module: bool,
    src: SourceModel,
    sc: ScopeModel,
    cfg: CfgModel,
    levels: nat,
    w: BuilderModel,
)
    requires
        last_tree(below(t)) matches Tree::Node(r, _, _, trees) && r == q && *trees == k,
    ensures
        ({
            let after = item_added(t, in_module, src, sc, cfg, levels, w);
            let text = leaf_text(src, first_leaf(k));
            &&& q == Rule::Import ==> after.spec.imported_modules
                == w.spec.imported_modules.push(text) && after.spec.additional_includes
                == w.spec.additional_includes
            &&& q == Rule::Includes ==> after.spec.additional_includes
                == w.spec.additional_includes + text && after.spec.imported_modules
                == w.spec.imported_modules
            &&& q == Rule::Import || q == Rule::Includes ==> after.reports == w.reports
                && after.spec.types == w.spec.types && after.spec.traits == w.spec.traits
                && after.spec.funcs == w.spec.funcs
            &&& q == Rule::Alias || q == Rule::Unstable ==> after == w
        }),
{
}

/// A module that is anchored elsewhere cannot stand in another one.
pub proof fn law_anchored_modules_stand_at_the_top(
    t: Tree,
    k: Trees,
    src: SourceModel,
    sc: ScopeModel,
    cfg: CfgModel,
    levels: nat,
    w: BuilderModel,
)
    requires
        last_tree(below(t)) matches Tree::Node(r, _, _, trees) && r == Rule::Mod && *trees == k,
        path_of(child(k, Rule::Path), src).start != ParsedPathStart::Relative,
    ensures
        item_added(t, true, src, sc, cfg, levels, w).spec == w.spec,
        errors_in(item_added(t, true, src, sc, cfg, levels, w)) == errors_in(w) + 1,
{
    let path = path_of(child(k, Rule::Path), src);
    lemma_error(w, misplaced_module(path.start)->0, path.span);
}

/// An implementation block is of a trait exactly where it names one, of the type
/// that it names, and has its methods.
pub proof fn law_implementation_blocks_are_read(x: Tree, src: SourceModel, sc: ScopeModel, w: BuilderModel)
    requires
        !cpp_trait_in_tree(x, src, sc),
    ensures
        ({
            let after = extern_impl_added(x, src, sc, w);
            let k = below(x);
            &&& errors_in(after) == errors_in(w)
            &&& exists|i: int|
                0 <= i < after.spec.extern_cpp_impls.len() && ((#[trigger]
                after.spec.extern_cpp_impls[i]).tr is Some <==> has_rule(k, Rule::TraitFor))
                    && after.spec.extern_cpp_impls[i].ty == type_in(k, src, sc)
                    && after.spec.extern_cpp_impls[i].methods == impl_methods_in(k, src, sc)
        }),
{
    let k = below(x);
    let b = crate::def::ExternCppImplModel {
        tr: if has_rule(k, Rule::TraitFor) {
            Some(crate::lower::trait_in(below(child(k, Rule::TraitFor)), src, sc))
        } else {
            None
        },
        ty: type_in(k, src, sc),
        methods: impl_methods_in(k, src, sc),
    };
    let v = extern_impl_added(x, src, sc, w).spec.extern_cpp_impls;
    assert(v == crate::merge::push_unique(w.spec.extern_cpp_impls, b));
    if w.spec.extern_cpp_impls.contains(b) {
        let i = choose|i: int|
            0 <= i < w.spec.extern_cpp_impls.len() && w.spec.extern_cpp_impls[i] == b;
        assert(v[i] == b);
    } else {
        assert(v[v.len() - 1] == b);
    }
}

/// A variant is exhaustive until it says otherwise, and an offset that is written
/// for one of its fields is an error.
pub proof fn law_variants_are_read(ts: Trees, entry: Tree, c: Declared, w: BuilderModel)
    requires
        is_rule(entry, Rule::VariantEntry),
    ensures
        variant_entries(Trees::Nil, c, w) == (true, Seq::<crate::def::FieldModel>::empty(), w),
        ({
            let before = variant_entries(ts, c, w);
            let after = variant_entries(Trees::Snoc(Box::new(ts), Box::new(entry)), c, w);
            let x = last_tree(below(entry));
            let field = field_of(x, c.src, c.sc);
            &&& is_rule(x, Rule::NonExhaustive) ==> !after.0 && after.1 == before.1 && errors_in(
                after.2,
            ) == errors_in(before.2) + (if before.0 {
                0nat
            } else {
                1nat
            })
            &&& !is_rule(x, Rule::NonExhaustive) ==> after.0 == before.0 && after.1
                == before.1.push(field) && errors_in(after.2) == errors_in(before.2) + (
            if field.offset is Some {
                1nat
            } else {
                0nat
            })
        }),
{
    let before = variant_entries(ts, c, w);
    let span = tree_span(c.src, entry);
    lemma_error(before.2, "Duplicate non_exhaustive annotation found"@, span);
    lemma_error(before.2, "static offsets on enum fields are not supported"@, span);
}

} // verus!
