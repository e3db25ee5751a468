//! A report that was made stands: reading on adds reports behind it.

use crate::cfg::{CfgModel, RemarkModel};
use crate::conditional::{list_steps, StepModel};
use crate::def::ZngurTypeModel;
use crate::finish::{declared_types, templates_applied, types_finished, FinishModel};
use crate::items::{
    aliases_in, extern_added, file_read, inner, item_added, items_added, module_items, remarks_in,
    root_scope,
};
use crate::lower::{below, child, last_tree, path_of, SourceModel};
use crate::parse::{import_refused, import_supplied, session_done, source_of, text_read, SessionModel};
use crate::peg::{parse_file, Rule, Tree, Trees};
use crate::report::ReportModel;
use crate::scope::{inner_scope, ScopeModel};
use crate::token::{kinds, lex};
use crate::type_item::{
    entries_read, entry_read, type_item_read, variant_entries, DeclModel, Declared,
};
use crate::work::BuilderModel;
use vstd::prelude::*;

verus! {

/// Whether the reports `b` are the reports `a` with others behind them.
pub open spec fn goes_behind(a: Seq<ReportModel>, b: Seq<ReportModel>) -> bool {
    a.len() <= b.len() && forall|i: int| 0 <= i < a.len() ==> (#[trigger] b[i]) == a[i]
}

proof fn lemma_errors(w: BuilderModel, v: Seq<RemarkModel>, n: nat)
    ensures
        goes_behind(w.reports, w.errors(v, n).reports),
    decreases n,
{
    if 0 < n <= v.len() {
        lemma_errors(w, v, (n - 1) as nat);
    }
}

proof fn lemma_variant_entries(ts: Trees, c: Declared, w: BuilderModel)
    ensures
        goes_behind(w.reports, variant_entries(ts, c, w).2.reports),
    decreases ts,
{
    if let Trees::Snoc(rest, _) = ts {
        lemma_variant_entries(*rest, c, w);
    }
}

proof fn lemma_entry(t: Tree, c: Declared, d: DeclModel, w: BuilderModel)
    ensures
        goes_behind(w.reports, entry_read(t, c, d, w).1.reports),
{
    let x = last_tree(below(t));
    lemma_variant_entries(below(x), c, w);
    assert forall|v: Seq<RemarkModel>, n: nat|
        goes_behind(w.reports, (#[trigger] w.errors(v, n)).reports) by {
        lemma_errors(w, v, n);
    }
}

proof fn lemma_entries(steps: Seq<StepModel>, n: nat, c: Declared, d: DeclModel, w: BuilderModel)
    ensures
        goes_behind(w.reports, entries_read(steps, n, c, d, w).1.reports),
    decreases n,
{
    if 0 < n <= steps.len() {
        lemma_entries(steps, (n - 1) as nat, c, d, w);
        let (d1, w1) = entries_read(steps, (n - 1) as nat, c, d, w);
        if let StepModel::Take(t) = steps[n - 1] {
            lemma_entry(t, c, d1, w1);
        }
    }
}

proof fn lemma_type_item(t: Tree, src: SourceModel, sc: ScopeModel, cfg: CfgModel, w: BuilderModel)
    ensures
        goes_behind(w.reports, type_item_read(t, src, sc, cfg, w).reports),
{
    assert forall|steps: Seq<StepModel>, n: nat, c: Declared, d: DeclModel, w1: BuilderModel|
        goes_behind(w1.reports, (#[trigger] entries_read(steps, n, c, d, w1)).1.reports) by {
        lemma_entries(steps, n, c, d, w1);
    }
}

proof fn lemma_extern(ts: Trees, src: SourceModel, sc: ScopeModel, w: BuilderModel)
    ensures
        goes_behind(w.reports, extern_added(ts, src, sc, w).reports),
    decreases ts,
{
    if let Trees::Snoc(rest, _) = ts {
        lemma_extern(*rest, src, sc, w);
    }
}

proof fn lemma_item(
    t: Tree,
    in_module: bool,
    src: SourceModel,
    sc: ScopeModel,
    cfg: CfgModel,
    levels: nat,
    w: BuilderModel,
)
    ensures
        goes_behind(w.reports, item_added(t, in_module, src, sc, cfg, levels, w).reports),
    decreases levels, 1nat, 0nat,
{
    let x = inner(t);
    if let Tree::Node(q, _, _, k) = x {
        if q == Rule::Mod && levels > 0 {
            let path = path_of(child(*k, Rule::Path), src);
            let steps = list_steps(module_items(x), false, src, cfg);
            let aliases = aliases_in(steps, steps.len(), src);
            lemma_items(
                steps,
                steps.len(),
                true,
                src,
                inner_scope(sc, aliases, path),
                cfg,
                (levels - 1) as nat,
                w,
            );
        }
        lemma_type_item(x, src, sc, cfg, w);
        lemma_extern(*k, src, sc, w);
    }
}

proof fn lemma_items(
    steps: Seq<StepModel>,
    n: nat,
    in_module: bool,
    src: SourceModel,
    sc: ScopeModel,
    cfg: CfgModel,
    levels: nat,
    w: BuilderModel,
)
    ensures
        goes_behind(w.reports, items_added(steps, n, in_module, src, sc, cfg, levels, w).reports),
    decreases levels, 2nat, n,
{
    if 0 < n <= steps.len() {
        let k = (n - 1) as nat;
        lemma_items(steps, k, in_module, src, sc, cfg, levels, w);
        if let StepModel::Take(t) = steps[n - 1] {
            let w1 = items_added(steps, k, in_module, src, sc, cfg, levels, w);
            lemma_item(t, in_module, src, sc, cfg, levels, w1);
        }
    }
}

proof fn lemma_file(ts: Trees, src: SourceModel, cfg: CfgModel, w: BuilderModel)
    ensures
        goes_behind(w.reports, file_read(ts, src, cfg, w).reports),
{
    let levels = src.toks.len();
    let remarks = remarks_in(ts, src, cfg, levels);
    let steps = list_steps(ts, false, src, cfg);
    let sc = root_scope(aliases_in(steps, steps.len(), src));
    lemma_errors(w, remarks, remarks.len());
    let w1 = w.errors(remarks, remarks.len());
    lemma_items(steps, steps.len(), false, src, sc, cfg, levels, w1);
}

proof fn lemma_text(text: Seq<char>, cfg: CfgModel, w: BuilderModel)
    ensures
        goes_behind(w.reports, text_read(text, cfg, w).reports),
{
    if let Ok(toks) = lex(text) {
        if let Some((_, ts)) = parse_file(kinds(toks)).taken {
            lemma_file(below(last_tree(ts)), source_of(text, toks), cfg, w);
        }
    }
}

proof fn lemma_templates(z: ZngurTypeModel, n: nat, f: FinishModel, reports: Seq<ReportModel>)
    ensures
        goes_behind(reports, templates_applied(z, n, f, reports).2),
    decreases n,
{
    if 0 < n <= f.templates.len() {
        lemma_templates(z, (n - 1) as nat, f, reports);
    }
}

proof fn lemma_types(v: Seq<ZngurTypeModel>, n: nat, f: FinishModel, reports: Seq<ReportModel>)
    ensures
        goes_behind(reports, types_finished(v, n, f, reports).1),
    decreases n,
{
    if 0 < n <= v.len() {
        lemma_types(v, (n - 1) as nat, f, reports);
        let before = types_finished(v, (n - 1) as nat, f, reports).1;
        lemma_templates(v[n - 1], f.templates.len(), f, before);
    }
}

/// The reports so far keep their places when a file that was asked for is read,
/// or is not found, and when the reading ends.
pub proof fn law_reports_keep_their_places(s: SessionModel, path: Seq<char>, text: Seq<char>)
    ensures
        goes_behind(s.builder.reports, import_supplied(s, path, text).builder.reports),
        goes_behind(s.builder.reports, import_refused(s).builder.reports),
        goes_behind(s.builder.reports, session_done(s).reports),
{
    assert forall|w: BuilderModel|
        goes_behind(w.reports, (#[trigger] text_read(text, s.cfg, w)).reports) by {
        lemma_text(text, s.cfg, w);
    }
    let w = s.builder;
    let f = FinishModel {
        defined: declared_types(w.spec.types),
        templates: w.templates,
        records: w.records,
    };
    lemma_types(w.spec.types, w.spec.types.len(), f, w.reports);
}

} // verus!
