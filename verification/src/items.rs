//! What the items of a file add to the interface.

use crate::cfg::{CfgModel, InMemoryRustCfgProvider, Remark, RemarkModel};
use crate::conditional::{list_steps, remarks_view, steps_view, walk_list, Step, StepModel};
use crate::def::{
    methods_view, ExternCppFnModel, ExternCppImplModel, FnModel, MethodModel, SpecModel,
    ZngurExternCppFn, ZngurExternCppImpl, ZngurFn, ZngurMethod, ZngurTrait, ZngurTraitModel,
};
use crate::def::{modules_view, ModuleImport};
use crate::lower::{
    any_rule, below, child, cpp_trait_in_tree, find_below, find_child, find_first_leaf,
    find_last_leaf, first_leaf, has_cpp_trait, has_rule, is_rule, kids, last_leaf, last_tree,
    leaf_text, lower_child_path, lower_method, lower_trait_in, lower_type_in, method_of, path_of,
    trait_in, tree_is, tree_span, type_in, Source, SourceModel,
};
use crate::merge::{add_extern_fn, add_extern_impl, add_fn, add_trait};
use crate::peg::{Rule, Tree, Trees};
use crate::report::{SpanKey, SpanKeyModel};
use crate::rust_types::{named_view, PathModel, RustPathAndGenerics};
use crate::scope::{
    aliases_view, inner_scope, AliasModel, EntityModel, EntityPath, ParsedAlias, ParsedPathStart,
    Scope, ScopeModel, Span,
};
use crate::paths::{plain_path, to_plain_path};
use crate::text::{lemma_texts_push, occurs_at, starts_with, str_eq};
use crate::type_item::{cpp_only_message, read_type_item, type_item_read};
use crate::work::{BuilderModel, ZngurSpecBuilder};
use vstd::prelude::*;

verus! {

broadcast use vstd::std_specs::vec::group_vec_axioms;

/// What an item is.
pub open spec fn inner(t: Tree) -> Tree {
    last_tree(below(t))
}

/// The items of a module.
pub open spec fn module_items(x: Tree) -> Trees {
    below(child(below(x), Rule::Items))
}

/// The alias that a tree is.
pub open spec fn alias_of(x: Tree, src: SourceModel) -> AliasModel {
    AliasModel {
        name: leaf_text(src, last_leaf(below(x))),
        path: path_of(child(below(x), Rule::Path), src),
        span: tree_span(src, x),
    }
}

/// The aliases among the first `n` steps.
pub open spec fn aliases_in(steps: Seq<StepModel>, n: nat, src: SourceModel) -> Seq<AliasModel>
    decreases n,
{
    if n == 0 || n > steps.len() {
        Seq::empty()
    } else {
        let front = aliases_in(steps, (n - 1) as nat, src);
        match steps[n - 1] {
            StepModel::Take(t) => if is_rule(inner(t), Rule::Alias) {
                front.push(alias_of(inner(t), src))
            } else {
                front
            },
            _ => front,
        }
    }
}

/// What is wrong with the conditions around the items among the trees, those in
/// modules included.
pub open spec fn remarks_in(ts: Trees, src: SourceModel, cfg: CfgModel, levels: nat) -> Seq<
    RemarkModel,
>
    decreases levels, 1nat, 0nat,
{
    let steps = list_steps(ts, false, src, cfg);
    step_remarks(steps, steps.len(), src, cfg, levels)
}

/// As [`remarks_in`], for the first `n` steps.
pub open spec fn step_remarks(
    steps: Seq<StepModel>,
    n: nat,
    src: SourceModel,
    cfg: CfgModel,
    levels: nat,
) -> Seq<RemarkModel>
    decreases levels, 0nat, n,
{
    if n == 0 || n > steps.len() {
        Seq::empty()
    } else {
        let front = step_remarks(steps, (n - 1) as nat, src, cfg, levels);
        match steps[n - 1] {
            StepModel::Complain(r) => front.push(r),
            StepModel::Take(t) => if is_rule(inner(t), Rule::Mod) && levels > 0 {
                front + remarks_in(module_items(inner(t)), src, cfg, (levels - 1) as nat)
            } else {
                front
            },
        }
    }
}

/// Whether a path leads from the directory of the file that names it.
pub open spec fn is_relative_import(path: Seq<char>) -> bool {
    path == "."@ || path == ".."@ || occurs_at(path, "./"@, 0) || occurs_at(path, "../"@, 0)
}

/// The interface once a file to merge was named.
pub open spec fn merge_added(x: Tree, src: SourceModel, w: BuilderModel) -> BuilderModel {
    let path = leaf_text(src, first_leaf(below(x)));
    let span = tree_span(src, x);
    let w = if occurs_at(path, "/"@, 0) {
        w.error("Absolute paths imports are not supported."@, span)
    } else {
        w
    };
    if is_relative_import(path) {
        let w = w.noted(SpanKeyModel::Import(plain_path(path)), span);
        BuilderModel { imports: w.imports.push(path), ..w }
    } else {
        w.error("Module import is not supported. Use a relative path instead."@, span)
    }
}

/// The methods among the trees.
pub open spec fn methods_in(ts: Trees, src: SourceModel, sc: ScopeModel) -> Seq<MethodModel>
    decreases ts,
{
    match ts {
        Trees::Nil => Seq::empty(),
        Trees::Snoc(rest, x) => if is_rule(*x, Rule::Method) {
            methods_in(*rest, src, sc).push(method_of(*x, src, sc))
        } else {
            methods_in(*rest, src, sc)
        },
    }
}

/// The method below a node that says whether it is safe.
pub open spec fn safe_method(k: Trees, src: SourceModel, sc: ScopeModel) -> MethodModel {
    MethodModel {
        is_safe: has_rule(k, Rule::Safe),
        ..method_of(child(k, Rule::Method), src, sc)
    }
}

/// The methods of an impl block among the trees.
pub open spec fn impl_methods_in(ts: Trees, src: SourceModel, sc: ScopeModel) -> Seq<MethodModel>
    decreases ts,
{
    match ts {
        Trees::Nil => Seq::empty(),
        Trees::Snoc(rest, x) => if is_rule(*x, Rule::ImplMethod) {
            impl_methods_in(*rest, src, sc).push(safe_method(below(*x), src, sc))
        } else {
            impl_methods_in(*rest, src, sc)
        },
    }
}

/// The interface once a C++ function was declared.
pub open spec fn extern_fn_added(x: Tree, src: SourceModel, sc: ScopeModel, w: BuilderModel) -> BuilderModel {
    let k = below(x);
    let m = safe_method(k, src, sc);
    if cpp_trait_in_tree(x, src, sc) {
        w.error(cpp_only_message(), tree_span(src, child(k, Rule::Method)))
    } else {
        BuilderModel {
            spec: add_extern_fn(
                w.spec,
                ExternCppFnModel {
                    name: m.name,
                    inputs: m.inputs,
                    output: m.output,
                    is_safe: m.is_safe,
                },
            ),
            ..w
        }
    }
}

/// The interface once a C++ impl block was declared.
pub open spec fn extern_impl_added(x: Tree, src: SourceModel, sc: ScopeModel, w: BuilderModel) -> BuilderModel {
    let k = below(x);
    if cpp_trait_in_tree(x, src, sc) {
        w.error(cpp_only_message(), tree_span(src, child(k, Rule::Type)))
    } else {
        BuilderModel {
            spec: add_extern_impl(
                w.spec,
                ExternCppImplModel {
                    tr: if has_rule(k, Rule::TraitFor) {
                        Some(trait_in(below(child(k, Rule::TraitFor)), src, sc))
                    } else {
                        None
                    },
                    ty: type_in(k, src, sc),
                    methods: impl_methods_in(k, src, sc),
                },
            ),
            ..w
        }
    }
}

/// The interface once the C++ functions and impl blocks among the trees were
/// declared.
pub open spec fn extern_added(ts: Trees, src: SourceModel, sc: ScopeModel, w: BuilderModel) -> BuilderModel
    decreases ts,
{
    match ts {
        Trees::Nil => w,
        Trees::Snoc(rest, x) => {
            let w = extern_added(*rest, src, sc, w);
            if is_rule(*x, Rule::ExternFn) {
                extern_fn_added(*x, src, sc, w)
            } else if is_rule(*x, Rule::ExternImpl) {
                extern_impl_added(*x, src, sc, w)
            } else {
                w
            }
        },
    }
}

/// The interface once a trait was declared.
pub open spec fn trait_added(x: Tree, src: SourceModel, sc: ScopeModel, w: BuilderModel) -> BuilderModel {
    let k = below(x);
    if cpp_trait_in_tree(x, src, sc) {
        w.error(cpp_only_message(), tree_span(src, child(k, Rule::Trait)))
    } else {
        BuilderModel {
            spec: add_trait(
                w.spec,
                ZngurTraitModel {
                    tr: trait_in(k, src, sc),
                    methods: methods_in(k, src, sc),
                },
            ),
            ..w
        }
    }
}

/// The interface once a function was declared.
pub open spec fn fn_added(x: Tree, src: SourceModel, sc: ScopeModel, w: BuilderModel) -> BuilderModel {
    let k = below(x);
    let span = tree_span(src, child(k, Rule::Method));
    let m = method_of(child(k, Rule::Method), src, sc);
    if cpp_trait_in_tree(x, src, sc) {
        w.error(cpp_only_message(), span)
    } else {
        match sc.base {
            EntityModel::Cpp(_) => w.error(
                "a free function cannot be declared inside a c++:: scope"@,
                span,
            ),
            EntityModel::Rust(p) => BuilderModel {
                spec: add_fn(
                    w.spec,
                    FnModel {
                        path: PathModel {
                            path: p + seq![m.name],
                            generics: m.generics,
                            named_generics: Seq::empty(),
                        },
                        inputs: m.inputs,
                        output: m.output,
                    },
                ),
                ..w
            },
        }
    }
}

/// The interface once a file asked for panics as exceptions.
pub open spec fn panic_added(x: Tree, src: SourceModel, w: BuilderModel) -> BuilderModel {
    if w.nested {
        w.error(
            "Using `#convert_panic_to_exception` in imported zngur files is not supported. This directive can only be used in the main zngur file."@,
            tree_span(src, x),
        )
    } else {
        BuilderModel { spec: SpecModel { convert_panic_to_exception: true, ..w.spec }, ..w }
    }
}

/// What is said of a module that must not stand inside another one.
pub open spec fn misplaced_module(start: ParsedPathStart) -> Option<Seq<char>> {
    match start {
        ParsedPathStart::Relative => None,
        ParsedPathStart::Absolute => Some(
            "`::` modules can only appear at the top level of a file, not nested inside another module"@,
        ),
        ParsedPathStart::Crate => Some(
            "`crate::` modules can only appear at the top level of a file, not nested inside another module"@,
        ),
        ParsedPathStart::Cpp => Some(
            "`c++::` modules can only appear at the top level of a file, not nested inside another module"@,
        ),
    }
}

/// The interface once an item was read; `in_module` tells whether it stands in
/// a module.
pub open spec fn item_added(
    t: Tree,
    in_module: bool,
    src: SourceModel,
    sc: ScopeModel,
    cfg: CfgModel,
    levels: nat,
    w: BuilderModel,
) -> BuilderModel
    decreases levels, 1nat, 0nat,
{
    let x = inner(t);
    match x {
        Tree::Leaf(_) => w,
        Tree::Node(q, _, _, k) => match q {
            Rule::Mod => {
                let path = path_of(child(*k, Rule::Path), src);
                if in_module && misplaced_module(path.start) is Some {
                    w.error(misplaced_module(path.start)->0, path.span)
                } else if levels == 0 {
                    w
                } else {
                    let steps = list_steps(module_items(x), false, src, cfg);
                    let aliases = aliases_in(steps, steps.len(), src);
                    items_added(
                        steps,
                        steps.len(),
                        true,
                        src,
                        inner_scope(sc, aliases, path),
                        cfg,
                        (levels - 1) as nat,
                        w,
                    )
                }
            },
            Rule::Merge => merge_added(x, src, w),
            Rule::Import => BuilderModel {
                spec: SpecModel {
                    imported_modules: w.spec.imported_modules.push(leaf_text(src, first_leaf(*k))),
                    ..w.spec
                },
                ..w
            },
            Rule::TypeItem => type_item_read(x, src, sc, cfg, w),
            Rule::TraitItem => trait_added(x, src, sc, w),
            Rule::FnItem => fn_added(x, src, sc, w),
            Rule::ExternCpp => extern_added(*k, src, sc, w),
            Rule::Includes => BuilderModel {
                spec: SpecModel {
                    additional_includes: w.spec.additional_includes + leaf_text(
                        src,
                        first_leaf(*k),
                    ),
                    ..w.spec
                },
                ..w
            },
            Rule::Panic => panic_added(x, src, w),
            _ => w,
        },
    }
}

/// The interface after the first `n` steps.
pub open spec fn items_added(
    steps: Seq<StepModel>,
    n: nat,
    in_module: bool,
    src: SourceModel,
    sc: ScopeModel,
    cfg: CfgModel,
    levels: nat,
    w: BuilderModel,
) -> BuilderModel
    decreases levels, 2nat, n,
{
    if n == 0 || n > steps.len() {
        w
    } else {
        let w = items_added(steps, (n - 1) as nat, in_module, src, sc, cfg, levels, w);
        match steps[n - 1] {
            StepModel::Take(t) => item_added(t, in_module, src, sc, cfg, levels, w),
            StepModel::Complain(_) => w,
        }
    }
}

/// The scope of a file with these aliases.
pub open spec fn root_scope(aliases: Seq<AliasModel>) -> ScopeModel {
    ScopeModel {
        aliases,
        base: EntityModel::Rust(Seq::empty()),
        type_vars: Seq::empty(),
    }
}

/// The interface once the items of a file were read: first everything that is
/// wrong with its conditions, then what its items say.
pub open spec fn file_read(ts: Trees, src: SourceModel, cfg: CfgModel, w: BuilderModel) -> BuilderModel {
    let levels = src.toks.len();
    let remarks = remarks_in(ts, src, cfg, levels);
    let steps = list_steps(ts, false, src, cfg);
    let sc = root_scope(aliases_in(steps, steps.len(), src));
    items_added(
        steps,
        steps.len(),
        false,
        src,
        sc,
        cfg,
        levels,
        w.errors(remarks, remarks.len()),
    )
}

/// What an item is.
fn inner_of(t: &Tree) -> (r: Option<&Tree>)
    ensures
        match r {
            Some(x) => *x == inner(*t),
            None => inner(*t) == Tree::Leaf(usize::MAX),
        },
{
    match t {
        Tree::Leaf(_) => None,
        Tree::Node(_, _, _, k) => match &**k {
            Trees::Nil => None,
            Trees::Snoc(_, x) => Some(x),
        },
    }
}

fn collect_aliases(steps: &Vec<Step<'_>>, src: &Source) -> (r: Vec<ParsedAlias>)
    ensures
        aliases_view(r@) == aliases_in(steps_view(steps@), steps@.len(), src@),
{
    let mut r: Vec<ParsedAlias> = Vec::new();
    let mut i: usize = 0;
    proof {
        assert(aliases_view(r@) =~= Seq::empty());
    }
    while i < steps.len()
        invariant
            i <= steps.len(),
            aliases_view(r@) == aliases_in(steps_view(steps@), i as nat, src@),
        decreases steps.len() - i,
    {
        proof {
            assert(steps_view(steps@)[i as int] == steps@[i as int].view());
        }
        match &steps[i] {
            Step::Take(t) => match inner_of(t) {
                Some(x) => match x {
                    Tree::Node(q, _, _, k) => {
                        if *q == Rule::Alias {
                            let a = ParsedAlias {
                                name: src.text_at(find_last_leaf(k)),
                                path: lower_child_path(k, src),
                                span: src.span_of_tree(x),
                            };
                            proof {
                                assert(aliases_view(r@.push(a)) =~= aliases_view(r@).push(a@));
                            }
                            r.push(a);
                        }
                    },
                    _ => {},
                },
                None => {},
            },
            Step::Complain(_) => {},
        }
        i += 1;
    }
    r
}

fn walk_items<'a>(ts: &'a Trees, src: &Source, cfg: &InMemoryRustCfgProvider) -> (r: Vec<Step<'a>>)
    ensures
        steps_view(r@) == list_steps(*ts, false, src@, cfg@),
        r@.len() == list_steps(*ts, false, src@, cfg@).len(),
{
    let mut steps: Vec<Step<'a>> = Vec::new();
    proof {
        assert(steps_view(steps@) =~= Seq::empty());
    }
    walk_list(ts, false, src, cfg, &mut steps);
    proof {
        let l = list_steps(*ts, false, src@, cfg@);
        assert(Seq::<StepModel>::empty() + l =~= l);
        assert(steps_view(steps@).len() == steps@.len());
    }
    steps
}

fn collect_remarks(
    ts: &Trees,
    src: &Source,
    cfg: &InMemoryRustCfgProvider,
    levels: usize,
    out: &mut Vec<Remark>,
)
    ensures
        remarks_view(final(out)@) == remarks_view(old(out)@) + remarks_in(
            *ts,
            src@,
            cfg@,
            levels as nat,
        ),
    decreases levels,
{
    let steps = walk_items(ts, src, cfg);
    let ghost front = remarks_view(out@);
    let ghost all = steps_view(steps@);
    let mut i: usize = 0;
    proof {
        assert(front + Seq::<RemarkModel>::empty() =~= front);
    }
    while i < steps.len()
        invariant
            i <= steps.len(),
            all == steps_view(steps@),
            remarks_view(out@) == front + step_remarks(all, i as nat, src@, cfg@, levels as nat),
        decreases steps.len() - i,
    {
        let ghost so_far = step_remarks(all, i as nat, src@, cfg@, levels as nat);
        proof {
            assert(all[i as int] == steps@[i as int].view());
        }
        match &steps[i] {
            Step::Take(t) => match inner_of(t) {
                Some(x) => {
                    if tree_is(x, Rule::Mod) && levels > 0 {
                        let none = Trees::Nil;
                        let k = match kids(x) {
                            Some(k) => k,
                            None => &none,
                        };
                        let items = match find_below(k, Rule::Items) {
                            Some(b) => b,
                            None => &none,
                        };
                        collect_remarks(items, src, cfg, levels - 1, out);
                        proof {
                            let more = remarks_in(
                                module_items(*x),
                                src@,
                                cfg@,
                                (levels - 1) as nat,
                            );
                            assert(front + so_far + more =~= front + (so_far + more));
                        }
                    }
                },
                None => {},
            },
            Step::Complain(r) => {
                let copy = Remark { message: r.message.clone(), span: r.span };
                proof {
                    assert(remarks_view(out@.push(copy)) =~= remarks_view(out@).push(r@));
                    assert((front + so_far).push(r@) =~= front + so_far.push(r@));
                }
                out.push(copy);
            },
        }
        i += 1;
    }
}

fn add_merge(x: &Tree, k: &Trees, src: &Source, w: &mut ZngurSpecBuilder)
    requires
        *k == below(*x),
    ensures
        final(w)@ == merge_added(*x, src@, old(w)@),
{
    let path = src.text_at(find_first_leaf(k));
    let span = src.span_of_tree(x);
    if starts_with(path.as_str(), "/") {
        w.add_error_str("Absolute paths imports are not supported.", span);
    }
    if str_eq(path.as_str(), ".") || str_eq(path.as_str(), "..") || starts_with(path.as_str(), "./")
        || starts_with(path.as_str(), "../") {
        w.record_span(SpanKey::Import(to_plain_path(path.as_str())), span);
        proof {
            lemma_texts_push(w.imports@, path);
        }
        w.imports.push(path);
    } else {
        w.add_error_str("Module import is not supported. Use a relative path instead.", span);
    }
}

fn read_methods(ts: &Trees, src: &Source, sc: &Scope) -> (r: Vec<ZngurMethod>)
    ensures
        methods_view(r@) == methods_in(*ts, src@, sc@),
    decreases ts,
{
    match ts {
        Trees::Nil => {
            let r: Vec<ZngurMethod> = Vec::new();
            proof {
                assert(methods_view(r@) =~= Seq::empty());
            }
            r
        },
        Trees::Snoc(rest, x) => {
            let mut r = read_methods(rest, src, sc);
            if tree_is(x, Rule::Method) {
                let m = lower_method(x, src, sc);
                proof {
                    assert(methods_view(r@.push(m)) =~= methods_view(r@).push(m@));
                }
                r.push(m);
            }
            r
        },
    }
}

fn read_safe_method(k: &Trees, src: &Source, sc: &Scope) -> (r: ZngurMethod)
    ensures
        r@ == safe_method(*k, src@, sc@),
{
    let no_tree = Tree::Leaf(usize::MAX);
    let mut m = match find_child(k, Rule::Method) {
        Some(t) => lower_method(t, src, sc),
        None => lower_method(&no_tree, src, sc),
    };
    m.is_safe = any_rule(k, Rule::Safe);
    m
}

fn read_impl_methods(ts: &Trees, src: &Source, sc: &Scope) -> (r: Vec<ZngurMethod>)
    ensures
        methods_view(r@) == impl_methods_in(*ts, src@, sc@),
    decreases ts,
{
    match ts {
        Trees::Nil => {
            let r: Vec<ZngurMethod> = Vec::new();
            proof {
                assert(methods_view(r@) =~= Seq::empty());
            }
            r
        },
        Trees::Snoc(rest, x) => {
            let mut r = read_impl_methods(rest, src, sc);
            match &**x {
                Tree::Node(q, _, _, k) => {
                    if *q == Rule::ImplMethod {
                        let m = read_safe_method(k, src, sc);
                        proof {
                            assert(methods_view(r@.push(m)) =~= methods_view(r@).push(m@));
                        }
                        r.push(m);
                    }
                },
                _ => {},
            }
            r
        },
    }
}

/// The place of the last of the trees that is a node of a rule.
fn child_span(k: &Trees, r: Rule, src: &Source) -> (s: Span)
    ensures
        s == tree_span(src@, child(*k, r)),
{
    match find_child(k, r) {
        Some(t) => src.span_of_tree(t),
        None => {
            let no_tree = Tree::Leaf(usize::MAX);
            src.span_of_tree(&no_tree)
        },
    }
}

fn add_extern_function(x: &Tree, k: &Trees, src: &Source, sc: &Scope, w: &mut ZngurSpecBuilder)
    requires
        *k == below(*x),
    ensures
        final(w)@ == extern_fn_added(*x, src@, sc@, old(w)@),
{
    if has_cpp_trait(x, src, sc) {
        w.add_error_str(
            "a c++::-only path was used somewhere that can't support it",
            child_span(k, Rule::Method, src),
        );
        return;
    }
    let m = read_safe_method(k, src, sc);
    w.spec.merge_extern_fn_decl(
        ZngurExternCppFn {
            name: m.name,
            inputs: m.inputs,
            output: m.output,
            is_safe: m.is_safe,
        },
    );
}

fn add_extern_impl_block(x: &Tree, k: &Trees, src: &Source, sc: &Scope, w: &mut ZngurSpecBuilder)
    requires
        *k == below(*x),
    ensures
        final(w)@ == extern_impl_added(*x, src@, sc@, old(w)@),
{
    if has_cpp_trait(x, src, sc) {
        w.add_error_str(
            "a c++::-only path was used somewhere that can't support it",
            child_span(k, Rule::Type, src),
        );
        return;
    }
    let tr = if any_rule(k, Rule::TraitFor) {
        let none = Trees::Nil;
        let at = match find_below(k, Rule::TraitFor) {
            Some(b) => b,
            None => &none,
        };
        Some(lower_trait_in(at, src, sc))
    } else {
        None
    };
    w.spec.merge_extern_impl_decl(
        ZngurExternCppImpl {
            tr,
            ty: lower_type_in(k, src, sc),
            methods: read_impl_methods(k, src, sc),
        },
    );
}

fn add_extern(ts: &Trees, src: &Source, sc: &Scope, w: &mut ZngurSpecBuilder)
    ensures
        final(w)@ == extern_added(*ts, src@, sc@, old(w)@),
    decreases ts,
{
    match ts {
        Trees::Nil => {},
        Trees::Snoc(rest, x) => {
            add_extern(rest, src, sc, w);
            match &**x {
                Tree::Node(q, _, _, k) => {
                    if *q == Rule::ExternFn {
                        add_extern_function(x, k, src, sc, w);
                    } else if *q == Rule::ExternImpl {
                        add_extern_impl_block(x, k, src, sc, w);
                    }
                },
                _ => {},
            }
        },
    }
}

fn add_trait_item(x: &Tree, k: &Trees, src: &Source, sc: &Scope, w: &mut ZngurSpecBuilder)
    requires
        *k == below(*x),
    ensures
        final(w)@ == trait_added(*x, src@, sc@, old(w)@),
{
    if has_cpp_trait(x, src, sc) {
        w.add_error_str(
            "a c++::-only path was used somewhere that can't support it",
            child_span(k, Rule::Trait, src),
        );
        return;
    }
    w.spec.merge_trait_decl(
        ZngurTrait { tr: lower_trait_in(k, src, sc), methods: read_methods(k, src, sc) },
    );
}

fn add_fn_item(x: &Tree, k: &Trees, src: &Source, sc: &Scope, w: &mut ZngurSpecBuilder)
    requires
        *k == below(*x),
    ensures
        final(w)@ == fn_added(*x, src@, sc@, old(w)@),
{
    let span = child_span(k, Rule::Method, src);
    if has_cpp_trait(x, src, sc) {
        w.add_error_str("a c++::-only path was used somewhere that can't support it", span);
        return;
    }
    let no_tree = Tree::Leaf(usize::MAX);
    let m = match find_child(k, Rule::Method) {
        Some(t) => lower_method(t, src, sc),
        None => lower_method(&no_tree, src, sc),
    };
    match sc.simple_relative_path(m.name.as_str()) {
        EntityPath::Cpp(_) => {
            w.add_error_str("a free function cannot be declared inside a c++:: scope", span);
        },
        EntityPath::Rust(path) => {
            let named_generics = Vec::new();
            proof {
                assert(named_view(named_generics@) =~= Seq::empty());
            }
            w.spec.merge_fn_decl(
                ZngurFn {
                    path: RustPathAndGenerics { path, generics: m.generics, named_generics },
                    inputs: m.inputs,
                    output: m.output,
                },
            );
        },
    }
}

fn add_panic(x: &Tree, src: &Source, w: &mut ZngurSpecBuilder)
    ensures
        final(w)@ == panic_added(*x, src@, old(w)@),
{
    if w.nested {
        w.add_error_str(
            "Using `#convert_panic_to_exception` in imported zngur files is not supported. This directive can only be used in the main zngur file.",
            src.span_of_tree(x),
        );
    } else {
        w.spec.convert_panic_to_exception.0 = true;
    }
}

fn module_complaint(start: ParsedPathStart) -> (r: Option<&'static str>)
    ensures
        match misplaced_module(start) {
            Some(m) => r is Some && r->0@ == m,
            None => r is None,
        },
{
    match start {
        ParsedPathStart::Relative => None,
        ParsedPathStart::Absolute => Some(
            "`::` modules can only appear at the top level of a file, not nested inside another module",
        ),
        ParsedPathStart::Crate => Some(
            "`crate::` modules can only appear at the top level of a file, not nested inside another module",
        ),
        ParsedPathStart::Cpp => Some(
            "`c++::` modules can only appear at the top level of a file, not nested inside another module",
        ),
    }
}

/// Reads an item.
fn add_item(
    t: &Tree,
    in_module: bool,
    src: &Source,
    sc: &Scope,
    cfg: &InMemoryRustCfgProvider,
    levels: usize,
    w: &mut ZngurSpecBuilder,
)
    ensures
        final(w)@ == item_added(*t, in_module, src@, sc@, cfg@, levels as nat, old(w)@),
    decreases levels, 1nat,
{
    let x = match inner_of(t) {
        Some(x) => x,
        None => {
            return;
        },
    };
    match x {
        Tree::Leaf(_) => {},
        Tree::Node(q, _, _, k) => match q {
            Rule::Mod => {
                let path = lower_child_path(k, src);
                if in_module {
                    if let Some(m) = module_complaint(path.start) {
                        w.add_error_str(m, path.span);
                        return;
                    }
                }
                if levels == 0 {
                    return;
                }
                let none = Trees::Nil;
                let items = match find_below(k, Rule::Items) {
                    Some(b) => b,
                    None => &none,
                };
                let steps = walk_items(items, src, cfg);
                let aliases = collect_aliases(&steps, src);
                let inside = sc.sub_scope(&aliases, &path);
                add_items(&steps, true, src, &inside, cfg, levels - 1, w);
            },
            Rule::Merge => add_merge(x, k, src, w),
            Rule::Import => {
                let m = ModuleImport { path: src.text_at(find_first_leaf(k)) };
                proof {
                    assert(modules_view(w.spec.imported_modules@.push(m)) =~= modules_view(
                        w.spec.imported_modules@,
                    ).push(m.path@));
                }
                w.spec.imported_modules.push(m);
            },
            Rule::TypeItem => read_type_item(x, src, sc, cfg, w),
            Rule::TraitItem => add_trait_item(x, k, src, sc, w),
            Rule::FnItem => add_fn_item(x, k, src, sc, w),
            Rule::ExternCpp => add_extern(k, src, sc, w),
            Rule::Includes => {
                w.spec.additional_includes.0.append(src.text_at(find_first_leaf(k)).as_str());
            },
            Rule::Panic => add_panic(x, src, w),
            _ => {},
        },
    }
}

fn add_items(
    steps: &Vec<Step<'_>>,
    in_module: bool,
    src: &Source,
    sc: &Scope,
    cfg: &InMemoryRustCfgProvider,
    levels: usize,
    w: &mut ZngurSpecBuilder,
)
    ensures
        final(w)@ == items_added(
            steps_view(steps@),
            steps@.len(),
            in_module,
            src@,
            sc@,
            cfg@,
            levels as nat,
            old(w)@,
        ),
    decreases levels, 2nat,
{
    let mut i: usize = 0;
    while i < steps.len()
        invariant
            i <= steps.len(),
            w@ == items_added(
                steps_view(steps@),
                i as nat,
                in_module,
                src@,
                sc@,
                cfg@,
                levels as nat,
                old(w)@,
            ),
        decreases steps.len() - i,
    {
        proof {
            assert(steps_view(steps@)[i as int] == steps@[i as int].view());
        }
        match &steps[i] {
            Step::Take(t) => add_item(t, in_module, src, sc, cfg, levels, w),
            Step::Complain(_) => {},
        }
        i += 1;
    }
}

/// Reads the items of a file.
pub fn read_file(
    ts: &Trees,
    src: &Source,
    cfg: &InMemoryRustCfgProvider,
    w: &mut ZngurSpecBuilder,
)
    ensures
        final(w)@ == file_read(*ts, src@, cfg@, old(w)@),
{
    let levels: usize = src.toks.len();
    let mut remarks: Vec<Remark> = Vec::new();
    proof {
        assert(remarks_view(remarks@) =~= Seq::empty());
        assert(src@.toks.len() == src.toks@.len());
    }
    collect_remarks(ts, src, cfg, levels, &mut remarks);
    proof {
        let r = remarks_in(*ts, src@, cfg@, levels as nat);
        assert(Seq::<RemarkModel>::empty() + r =~= r);
        assert(remarks_view(remarks@).len() == remarks@.len());
    }
    w.add_remarks(&remarks);
    let steps = walk_items(ts, src, cfg);
    let sc = Scope::new_root(collect_aliases(&steps, src));
    add_items(&steps, false, src, &sc, cfg, levels, w);
}

} // verus!
