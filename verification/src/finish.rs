//! The last step of putting an interface together: what templates add to each
//! type, and what a type lacks.

use crate::def::{zngur_types_view, SpecModel, ZngurType, ZngurTypeModel, ZngurWellknownTrait};
use crate::merge::{
    merge_template, wellknown_contains, ConflictModel, ConflictSource, FailureModel, MergeFailure,
};
use crate::report::{
    error_report, fatal_count, find_places, labels_view, lemma_fatal_push, make_error, places,
    records_view, reports_view, Color, Label, LabelModel, Report, ReportKind, ReportModel, ReportSpan,
    SpanKey, SpanKeyModel, SpanRecord, SpanRecordModel,
};
use crate::rust_types::{types_view, RustType, TypeModel};
use crate::scope::Span;
use crate::template_types::{find_unbound, template_match, template_unbound, try_match_template};
use crate::text::{dec_text, decimal, lemma_texts_push, texts};
use crate::work::{templates_view, BuilderModel, TemplateDef, TemplateModel, ZngurSpecBuilder};
use vstd::prelude::*;

verus! {

broadcast use vstd::std_specs::vec::group_vec_axioms;

/// The start of the first file.
pub open spec fn nowhere() -> ReportSpan {
    ReportSpan { source_id: 0, span: Span { start: 0, end: 0 } }
}

/// Labels for the first three places.
pub open spec fn some_labels(v: Seq<ReportSpan>, message: Seq<char>) -> Seq<LabelModel> {
    Seq::new(
        if v.len() < 3 {
            v.len()
        } else {
            3
        },
        |i: int| LabelModel { at: v[i], message, color: Color::Blue },
    )
}

/// A note of how many places have no label of their own.
pub open spec fn omitted_note(v: Seq<ReportSpan>, what: Seq<char>) -> Seq<Seq<char>> {
    if v.len() < 3 {
        Seq::empty()
    } else {
        seq![dec_text((v.len() - 2) as nat) + what]
    }
}

/// A label, where there is a place for it.
pub open spec fn label_at(at: Option<ReportSpan>, message: Seq<char>, color: Color) -> Seq<LabelModel> {
    match at {
        Some(at) => seq![LabelModel { at, message, color }],
        None => Seq::empty(),
    }
}

/// The first of the places.
pub open spec fn first_of(v: Seq<ReportSpan>) -> Option<ReportSpan> {
    if v.len() > 0 {
        Some(v[0])
    } else {
        None
    }
}

/// The places behind the first.
pub open spec fn rest_of(v: Seq<ReportSpan>) -> Seq<ReportSpan> {
    if v.len() > 0 {
        v.skip(1)
    } else {
        v
    }
}

/// The last of the places.
pub open spec fn last_of(v: Seq<ReportSpan>) -> Option<ReportSpan> {
    if v.len() > 0 {
        Some(v.last())
    } else {
        None
    }
}

/// The places before the last.
pub open spec fn front_of(v: Seq<ReportSpan>) -> Seq<ReportSpan> {
    if v.len() > 0 {
        v.drop_last()
    } else {
        v
    }
}

/// The declaration of a type that a part of a conflict is.
pub open spec fn conflict_key(c: ConflictModel, ty: TypeModel) -> SpanKeyModel {
    match c {
        ConflictModel::Layout => SpanKeyModel::Layout(ty),
        ConflictModel::Constructor(x) => SpanKeyModel::Constructor(ty, x),
        ConflictModel::CppRef => SpanKeyModel::CppRef(ty),
        ConflictModel::CppHeapAllocated => SpanKeyModel::CppHeapAllocated(ty),
        ConflictModel::CppStackOwned => SpanKeyModel::CppStackOwned(ty),
        ConflictModel::Method(m) => SpanKeyModel::Method(ty, m),
        ConflictModel::Variant(n) => SpanKeyModel::Field(ty, Some(n), n),
        ConflictModel::Field(n) => SpanKeyModel::Field(ty, None, n),
    }
}

/// The labels of all places, from the third on with a note each.
pub open spec fn also_labels(v: Seq<ReportSpan>) -> Seq<LabelModel> {
    Seq::new(
        v.len(),
        |i: int| LabelModel { at: v[i], message: "also declared here."@, color: Color::Blue },
    )
}

/// The notes that go with [`also_labels`].
pub open spec fn also_notes(v: Seq<ReportSpan>) -> Seq<Seq<char>> {
    Seq::new(
        if v.len() < 3 {
            0
        } else {
            (v.len() - 2) as nat
        },
        |i: int| dec_text((v.len() - 2 - i) as nat) + " additional conflict sites omitted"@,
    )
}

/// The labels of the two sides of a conflict, from the places of the new
/// declaration and those of the one before.
pub open spec fn side_labels(
    src: Option<ReportSpan>,
    dst: Option<ReportSpan>,
    others: Seq<ReportSpan>,
) -> Seq<LabelModel> {
    label_at(src, "declaration here ..."@, Color::Yellow) + label_at(
        dst,
        "conflicts with the declaration here."@,
        Color::Yellow,
    ) + label_at(first_of(others), "first declared here."@, Color::Yellow) + also_labels(
        rest_of(others),
    )
}

/// The labels of a conflict, and its notes.
pub open spec fn conflict_labels(f: FailureModel, ty: TypeModel, records: Seq<SpanRecordModel>) -> (
    Seq<LabelModel>,
    Seq<Seq<char>>,
) {
    let src = places(records, records.len(), conflict_key(f.src, ty));
    let dst = places(records, records.len(), conflict_key(f.dst, ty));
    if f.src == f.dst {
        let others = front_of(front_of(src));
        (side_labels(last_of(src), last_of(front_of(src)), others), also_notes(rest_of(others)))
    } else {
        let others = front_of(dst);
        (side_labels(last_of(src), last_of(dst), others), also_notes(rest_of(others)))
    }
}

/// The report of a template that contradicts a type that it matches.
pub open spec fn template_conflict(
    template: TemplateModel,
    ty: TypeModel,
    f: FailureModel,
    records: Seq<SpanRecordModel>,
) -> ReportModel {
    let at = places(records, records.len(), SpanKeyModel::Ty(ty));
    let (labels, notes) = conflict_labels(f, ty, records);
    ReportModel {
        fatal: true,
        kind: ReportKind::Error,
        at: nowhere(),
        message: "Failed to apply template "@ + template.ty.ty.text() + " to type "@ + ty.text()
            + ": "@ + f.message,
        labels: seq![
            LabelModel {
                at: template.at,
                message: "Template declared here"@,
                color: Color::Blue,
            },
        ] + label_at(first_of(at), "Type first declared here."@, Color::Blue) + labels
            + some_labels(rest_of(at), "Type also declared here"@),
        notes: notes + omitted_note(
            rest_of(at),
            " additional type declaration sites omitted"@,
        ),
    }
}

/// The report of a type without a layout; `templates` are the places of the
/// templates that match it.
pub open spec fn missing_layout(
    ty: TypeModel,
    templates: Seq<ReportSpan>,
    records: Seq<SpanRecordModel>,
) -> ReportModel {
    let at = places(records, records.len(), SpanKeyModel::Ty(ty));
    ReportModel {
        fatal: true,
        kind: ReportKind::Error,
        at: match first_of(at) {
            Some(p) => p,
            None => nowhere(),
        },
        message: "No layout policy found for type "@ + ty.text()
            + ". Use one of `#layout(size = X, align = Y)`, `#heap_allocated` or `#only_by_ref`."@,
        labels: label_at(first_of(at), "Type defined here"@, Color::Blue) + some_labels(
            rest_of(at),
            "Type defined here"@,
        ) + some_labels(templates, "Matching template defined here"@),
        notes: omitted_note(
            rest_of(at),
            " additional type declaration locations omitted"@,
        ) + omitted_note(templates, " additional template declaration locations omitted"@),
    }
}

/// What the types are finished with: the declared types, the templates and the
/// places of declarations.
#[verifier::ext_equal]
pub struct FinishModel {
    pub defined: Seq<TypeModel>,
    pub templates: Seq<TemplateModel>,
    pub records: Seq<SpanRecordModel>,
}

/// A type once the first `n` templates were applied: the type, the places of
/// the templates that match it, and the reports.
pub open spec fn templates_applied(
    z: ZngurTypeModel,
    n: nat,
    f: FinishModel,
    reports: Seq<ReportModel>,
) -> (ZngurTypeModel, Seq<ReportSpan>, Seq<ReportModel>)
    decreases n,
{
    if n == 0 || n > f.templates.len() {
        (z, Seq::empty(), reports)
    } else {
        let t = f.templates[n - 1];
        let (z, at, reports) = templates_applied(z, (n - 1) as nat, f, reports);
        match template_unbound(z.ty, t.ty, f.defined) {
            Some(message) => (z, at, reports.push(error_report(message, t.at))),
            None => match template_match(z.ty, t.ty, f.defined) {
                None => (z, at, reports),
                Some(m) => {
                    let (z2, e) = merge_template(m, z);
                    match e {
                        Some(x) => (
                            z2,
                            at,
                            reports.push(template_conflict(t, z2.ty, x, f.records)),
                        ),
                        None => (z2, at.push(t.at), reports),
                    }
                },
            },
        }
    }
}

/// A type, which C++ has to drop unless Rust copies it or it has no size.
pub open spec fn with_drop(z: ZngurTypeModel) -> ZngurTypeModel {
    if z.wellknown_traits.contains(ZngurWellknownTrait::Copy) || z.wellknown_traits.contains(
        ZngurWellknownTrait::Unsized,
    ) {
        z
    } else {
        ZngurTypeModel {
            wellknown_traits: z.wellknown_traits.push(ZngurWellknownTrait::Drop),
            ..z
        }
    }
}

/// A type when nothing more is said of it, and the reports.
pub open spec fn type_finished(z: ZngurTypeModel, f: FinishModel, reports: Seq<ReportModel>) -> (
    ZngurTypeModel,
    Seq<ReportModel>,
) {
    let (z, at, reports) = templates_applied(z, f.templates.len(), f, reports);
    let z = with_drop(z);
    if z.layout is None {
        (z, reports.push(missing_layout(z.ty, at, f.records)))
    } else {
        (z, reports)
    }
}

/// The declared types.
pub open spec fn declared_types(v: Seq<ZngurTypeModel>) -> Seq<TypeModel> {
    Seq::new(v.len(), |i: int| v[i].ty)
}

/// The first `n` types when they are finished, and the reports.
pub open spec fn types_finished(
    v: Seq<ZngurTypeModel>,
    n: nat,
    f: FinishModel,
    reports: Seq<ReportModel>,
) -> (Seq<ZngurTypeModel>, Seq<ReportModel>)
    decreases n,
{
    if n == 0 || n > v.len() {
        (Seq::empty(), reports)
    } else {
        let (front, reports) = types_finished(v, (n - 1) as nat, f, reports);
        let (z, reports) = type_finished(v[n - 1], f, reports);
        (front.push(z), reports)
    }
}

/// The interface when no more files come: its types finished, and what that
/// brought up.
pub open spec fn finished(w: BuilderModel) -> BuilderModel {
    let f = FinishModel {
        defined: declared_types(w.spec.types),
        templates: w.templates,
        records: w.records,
    };
    let (types, reports) = types_finished(w.spec.types, w.spec.types.len(), f, w.reports);
    BuilderModel { spec: SpecModel { types, ..w.spec }, reports, ..w }
}

/// A finished type is dropped by C++ exactly where Rust neither copies it nor
/// lacks its size, unless the declaration itself asks for it.
pub proof fn law_drop_unless_copy_or_unsized(z: ZngurTypeModel)
    requires
        !z.wellknown_traits.contains(ZngurWellknownTrait::Drop),
    ensures
        with_drop(z).wellknown_traits.contains(ZngurWellknownTrait::Drop) <==> !(
        z.wellknown_traits.contains(ZngurWellknownTrait::Copy) || z.wellknown_traits.contains(
            ZngurWellknownTrait::Unsized,
        )),
{
    let v = z.wellknown_traits.push(ZngurWellknownTrait::Drop);
    assert(v[v.len() - 1] == ZngurWellknownTrait::Drop);
}

proof fn lemma_templates_reports(z: ZngurTypeModel, n: nat, f: FinishModel, reports: Seq<ReportModel>)
    ensures
        ({
            let (z2, _, after) = templates_applied(z, n, f, reports);
            &&& z2.ty == z.ty
            &&& fatal_count(after, after.len()) >= fatal_count(reports, reports.len())
        }),
    decreases n,
{
    if n > 0 && n <= f.templates.len() {
        let t = f.templates[n - 1];
        lemma_templates_reports(z, (n - 1) as nat, f, reports);
        let (z1, at, before) = templates_applied(z, (n - 1) as nat, f, reports);
        if let Some(message) = template_unbound(z1.ty, t.ty, f.defined) {
            lemma_fatal_push(before, error_report(message, t.at));
        }
        match template_match(z1.ty, t.ty, f.defined) {
            None => {},
            Some(m) => {
                let (z2, e) = merge_template(m, z1);
                match e {
                    Some(x) => {
                        lemma_fatal_push(before, template_conflict(t, z2.ty, x, f.records));
                    },
                    None => {},
                }
            },
        }
    }
}

proof fn lemma_types_finished(
    v: Seq<ZngurTypeModel>,
    n: nat,
    f: FinishModel,
    reports: Seq<ReportModel>,
)
    requires
        n <= v.len(),
    ensures
        ({
            let (types, after) = types_finished(v, n, f, reports);
            &&& types.len() == n
            &&& (forall|i: int| 0 <= i < n ==> (#[trigger] types[i]).ty == v[i].ty)
            &&& fatal_count(after, after.len()) >= fatal_count(reports, reports.len())
            &&& (fatal_count(after, after.len()) == 0 ==> forall|i: int|
                0 <= i < n ==> (#[trigger] types[i]).layout is Some)
        }),
    decreases n,
{
    if n > 0 {
        lemma_types_finished(v, (n - 1) as nat, f, reports);
        let (front, before) = types_finished(v, (n - 1) as nat, f, reports);
        lemma_templates_reports(v[n - 1], f.templates.len(), f, before);
        let (z, at, applied) = templates_applied(v[n - 1], f.templates.len(), f, before);
        let w = with_drop(z);
        if w.layout is None {
            lemma_fatal_push(applied, missing_layout(w.ty, at, f.records));
        }
    }
}

/// Where finishing an interface brought up no error, and there was none before,
/// each of its types has a layout.
pub proof fn law_no_errors_means_layouts(w: BuilderModel, i: int)
    requires
        fatal_count(finished(w).reports, finished(w).reports.len()) == 0,
        0 <= i < finished(w).spec.types.len(),
    ensures
        finished(w).spec.types[i].layout is Some,
{
    let f = FinishModel {
        defined: declared_types(w.spec.types),
        templates: w.templates,
        records: w.records,
    };
    lemma_types_finished(w.spec.types, w.spec.types.len(), f, w.reports);
}

/// Finishing an interface keeps its types, one by one, and takes no report back.
pub proof fn law_finishing_keeps_types_and_errors(w: BuilderModel)
    ensures
        finished(w).spec.types.len() == w.spec.types.len(),
        forall|i: int|
            0 <= i < w.spec.types.len() ==> (#[trigger] finished(w).spec.types[i]).ty
                == w.spec.types[i].ty,
        fatal_count(finished(w).reports, finished(w).reports.len()) >= fatal_count(
            w.reports,
            w.reports.len(),
        ),
{
    let f = FinishModel {
        defined: declared_types(w.spec.types),
        templates: w.templates,
        records: w.records,
    };
    lemma_types_finished(w.spec.types, w.spec.types.len(), f, w.reports);
}

/// The layout of the type itself goes before that of a template: a template
/// never contradicts it.
pub proof fn law_template_layout_yields(src: ZngurTypeModel, dst: ZngurTypeModel)
    requires
        dst.layout is Some,
    ensures
        merge_template(src, dst).0.layout == dst.layout,
        merge_template(src, dst).1 matches Some(f) ==> f.src != ConflictModel::Layout,
{
    let s = ZngurTypeModel { layout: None, ..src };
    lemma_members_keep_layout(s, dst);
}

proof fn lemma_members_keep_layout(src: ZngurTypeModel, dst: ZngurTypeModel)
    ensures
        forall|d: ZngurTypeModel|
            (#[trigger] crate::merge::merge_members(src, d)).0.layout == d.layout,
        forall|d: ZngurTypeModel|
            (#[trigger] crate::merge::merge_members(src, d)).1 matches Some(f) ==> f.src
                != ConflictModel::Layout,
{
    assert forall|d: ZngurTypeModel|
        (#[trigger] crate::merge::merge_members(src, d)).1 is Some implies crate::merge::merge_members(
        src,
        d,
    ).1->0.src != ConflictModel::Layout by {
        lemma_methods_no_layout(src.methods, src.methods.len(), d.methods);
        lemma_variants_no_layout(src.variants, src.variants.len(), d.variants);
        lemma_fields_no_layout(src.fields, src.fields.len(), d.fields);
    }
}

proof fn lemma_methods_no_layout(
    src: Seq<crate::def::MethodDetailsModel>,
    n: nat,
    dst: Seq<crate::def::MethodDetailsModel>,
)
    ensures
        crate::merge::merge_methods(src, n, dst).1 matches Some(f) ==> f.src
            != ConflictModel::Layout,
    decreases n,
{
    if 0 < n <= src.len() {
        lemma_methods_no_layout(src, (n - 1) as nat, dst);
    }
}

proof fn lemma_variants_no_layout(
    src: Seq<crate::def::VariantModel>,
    n: nat,
    dst: Seq<crate::def::VariantModel>,
)
    ensures
        crate::merge::merge_variants(src, n, dst).1 matches Some(f) ==> f.src
            != ConflictModel::Layout,
    decreases n,
{
    if 0 < n <= src.len() {
        lemma_variants_no_layout(src, (n - 1) as nat, dst);
    }
}

proof fn lemma_fields_no_layout(
    src: Seq<crate::def::FieldModel>,
    n: nat,
    dst: Seq<crate::def::FieldModel>,
)
    ensures
        crate::merge::merge_fields(src, n, dst).1 matches Some(f) ==> f.src
            != ConflictModel::Layout,
    decreases n,
{
    if 0 < n <= src.len() {
        lemma_fields_no_layout(src, (n - 1) as nat, dst);
    }
}

fn push_label(out: &mut Vec<Label>, at: ReportSpan, message: &str, color: Color)
    ensures
        labels_view(final(out)@) == labels_view(old(out)@).push(
            LabelModel { at, message: message@, color },
        ),
{
    let l = Label { at, message: String::from_str(message), color };
    proof {
        assert(labels_view(out@.push(l)) =~= labels_view(out@).push(l@));
    }
    out.push(l);
}

fn push_label_at(out: &mut Vec<Label>, at: Option<ReportSpan>, message: &str, color: Color)
    ensures
        labels_view(final(out)@) == labels_view(old(out)@) + label_at(at, message@, color),
{
    match at {
        Some(p) => {
            proof {
                let l = LabelModel { at: p, message: message@, color };
                assert(labels_view(out@).push(l) =~= labels_view(out@) + seq![l]);
            }
            push_label(out, p, message, color);
        },
        None => {
            proof {
                assert(labels_view(out@) + Seq::<LabelModel>::empty() =~= labels_view(out@));
            }
        },
    }
}

/// Adds labels for the first three places.
fn push_some_labels(out: &mut Vec<Label>, v: &Vec<ReportSpan>, message: &str)
    ensures
        labels_view(final(out)@) == labels_view(old(out)@) + some_labels(v@, message@),
{
    let ghost front = labels_view(out@);
    let ghost all = some_labels(v@, message@);
    let mut i: usize = 0;
    proof {
        assert(front + all.take(0) =~= front);
    }
    while i < v.len() && i < 3
        invariant
            i <= v.len(),
            i <= 3,
            all == some_labels(v@, message@),
            labels_view(out@) == front + all.take(i as int),
        decreases v.len() - i,
    {
        push_label(out, v[i], message, Color::Blue);
        proof {
            assert((front + all.take(i as int)).push(all[i as int]) =~= front + all.take(i + 1));
        }
        i += 1;
    }
    proof {
        assert(all.take(i as int) =~= all);
    }
}

fn push_omitted_note(out: &mut Vec<String>, v: &Vec<ReportSpan>, what: &str)
    ensures
        texts(final(out)@) == texts(old(out)@) + omitted_note(v@, what@),
{
    if v.len() < 3 {
        proof {
            assert(texts(out@) + Seq::<Seq<char>>::empty() =~= texts(out@));
        }
    } else {
        let mut s = decimal(v.len() - 2);
        s.append(what);
        proof {
            lemma_texts_push(out@, s);
            assert(texts(out@).push(s@) =~= texts(out@) + seq![s@]);
        }
        out.push(s);
    }
}

fn push_also(labels: &mut Vec<Label>, notes: &mut Vec<String>, v: &Vec<ReportSpan>)
    ensures
        labels_view(final(labels)@) == labels_view(old(labels)@) + also_labels(v@),
        texts(final(notes)@) == texts(old(notes)@) + also_notes(v@),
{
    let ghost l0 = labels_view(labels@);
    let ghost n0 = texts(notes@);
    let ghost l = also_labels(v@);
    let ghost n = also_notes(v@);
    let mut i: usize = 0;
    proof {
        assert(l0 + l.take(0) =~= l0);
        assert(n0 + n.take(0) =~= n0);
    }
    while i < v.len()
        invariant
            i <= v.len(),
            l == also_labels(v@),
            n == also_notes(v@),
            labels_view(labels@) == l0 + l.take(i as int),
            texts(notes@) == n0 + n.take(
                if i < 2 {
                    0
                } else {
                    i - 2
                },
            ),
        decreases v.len() - i,
    {
        push_label(labels, v[i], "also declared here.", Color::Blue);
        proof {
            assert((l0 + l.take(i as int)).push(l[i as int]) =~= l0 + l.take(i + 1));
        }
        if i >= 2 {
            let mut s = decimal(v.len() - i);
            s.append(" additional conflict sites omitted");
            proof {
                lemma_texts_push(notes@, s);
                assert(s@ == n[i - 2]);
                assert((n0 + n.take(i - 2)).push(n[i - 2]) =~= n0 + n.take(i - 1));
            }
            notes.push(s);
        }
        i += 1;
    }
    proof {
        assert(l.take(i as int) =~= l);
        assert(n.take(if i < 2 { 0 } else { i - 2 }) =~= n);
    }
}

fn take_first(v: &mut Vec<ReportSpan>) -> (r: Option<ReportSpan>)
    ensures
        r == first_of(old(v)@),
        final(v)@ == rest_of(old(v)@),
{
    if v.len() > 0 {
        let ghost all = v@;
        let x = v.remove(0);
        proof {
            assert(v@ =~= all.skip(1));
        }
        Some(x)
    } else {
        None
    }
}

fn take_last(v: &mut Vec<ReportSpan>) -> (r: Option<ReportSpan>)
    ensures
        r == last_of(old(v)@),
        final(v)@ == front_of(old(v)@),
{
    v.pop()
}

fn key_of(c: &ConflictSource, ty: &RustType) -> (r: SpanKey)
    ensures
        r@ == conflict_key(c@, ty@),
{
    match c {
        ConflictSource::Layout => SpanKey::Layout(ty.copy()),
        ConflictSource::Constructor(x) => SpanKey::Constructor(ty.copy(), x.copy()),
        ConflictSource::CppRef => SpanKey::CppRef(ty.copy()),
        ConflictSource::CppHeapAllocated => SpanKey::CppHeapAllocated(ty.copy()),
        ConflictSource::CppStackOwned => SpanKey::CppStackOwned(ty.copy()),
        ConflictSource::Method(m) => SpanKey::Method(ty.copy(), m.copy()),
        ConflictSource::Variant(n) => SpanKey::Field(ty.copy(), Some(n.clone()), n.clone()),
        ConflictSource::Field(n) => SpanKey::Field(ty.copy(), None, n.clone()),
    }
}

fn same_conflict(a: &ConflictSource, b: &ConflictSource) -> (r: bool)
    ensures
        r == (a@ == b@),
{
    match (a, b) {
        (ConflictSource::Layout, ConflictSource::Layout) => true,
        (ConflictSource::Constructor(x), ConflictSource::Constructor(y)) => x.same_as(y),
        (ConflictSource::CppRef, ConflictSource::CppRef) => true,
        (ConflictSource::CppHeapAllocated, ConflictSource::CppHeapAllocated) => true,
        (ConflictSource::CppStackOwned, ConflictSource::CppStackOwned) => true,
        (ConflictSource::Method(x), ConflictSource::Method(y)) => x.same_as(y),
        (ConflictSource::Variant(x), ConflictSource::Variant(y)) => *x == *y,
        (ConflictSource::Field(x), ConflictSource::Field(y)) => *x == *y,
        _ => false,
    }
}

/// Adds the labels of a conflict, and its notes.
fn add_conflict_labels(
    f: &MergeFailure,
    ty: &RustType,
    records: &Vec<SpanRecord>,
    labels: &mut Vec<Label>,
    notes: &mut Vec<String>,
)
    ensures
        labels_view(final(labels)@) == labels_view(old(labels)@) + conflict_labels(
            f@,
            ty@,
            records_view(records@),
        ).0,
        texts(final(notes)@) == texts(old(notes)@) + conflict_labels(
            f@,
            ty@,
            records_view(records@),
        ).1,
{
    proof {
        assert(records_view(records@).len() == records@.len());
    }
    let ghost l0 = labels_view(labels@);
    let mut src = find_places(records, &key_of(&f.src, ty));
    let mut dst = find_places(records, &key_of(&f.dst, ty));
    let src_span = take_last(&mut src);
    let mut others = if same_conflict(&f.src, &f.dst) {
        src
    } else {
        dst
    };
    let dst_span = take_last(&mut others);
    let ghost shown = others@;
    let first = take_first(&mut others);
    push_label_at(labels, src_span, "declaration here ...", Color::Yellow);
    push_label_at(labels, dst_span, "conflicts with the declaration here.", Color::Yellow);
    push_label_at(labels, first, "first declared here.", Color::Yellow);
    push_also(labels, notes, &others);
    proof {
        let a = label_at(src_span, "declaration here ..."@, Color::Yellow);
        let b = label_at(dst_span, "conflicts with the declaration here."@, Color::Yellow);
        let c = label_at(first, "first declared here."@, Color::Yellow);
        let d = also_labels(others@);
        assert(l0 + a + b + c + d =~= l0 + (a + b + c + d));
    }
}

fn start_of_first() -> (r: ReportSpan)
    ensures
        r == nowhere(),
{
    ReportSpan { source_id: 0, span: Span { start: 0, end: 0 } }
}

/// The report of a template that contradicts a type that it matches.
fn build_template_conflict_report(
    template: &TemplateDef,
    ty: &RustType,
    f: &MergeFailure,
    records: &Vec<SpanRecord>,
) -> (r: Report)
    ensures
        r@ == template_conflict(template@, ty@, f@, records_view(records@)),
{
    proof {
        assert(records_view(records@).len() == records@.len());
    }
    let mut at = find_places(records, &SpanKey::Ty(ty.copy()));
    let first = take_first(&mut at);
    let mut message = String::from_str("Failed to apply template ");
    message.append(template.ty.ty.to_text().as_str());
    message.append(" to type ");
    message.append(ty.to_text().as_str());
    message.append(": ");
    message.append(f.message.as_str());
    let mut labels: Vec<Label> = Vec::new();
    let mut notes: Vec<String> = Vec::new();
    push_label(&mut labels, template.at, "Template declared here", Color::Blue);
    let ghost one = seq![
        LabelModel { at: template.at, message: "Template declared here"@, color: Color::Blue },
    ];
    proof {
        assert(labels_view(labels@) =~= one);
        assert(texts(notes@) =~= Seq::empty());
    }
    push_label_at(&mut labels, first, "Type first declared here.", Color::Blue);
    add_conflict_labels(f, ty, records, &mut labels, &mut notes);
    push_some_labels(&mut labels, &at, "Type also declared here");
    push_omitted_note(&mut notes, &at, " additional type declaration sites omitted");
    let r = Report {
        fatal: true,
        kind: ReportKind::Error,
        at: start_of_first(),
        message,
        labels,
        notes,
    };
    proof {
        let n = conflict_labels(f@, ty@, records_view(records@)).1;
        let o = omitted_note(at@, " additional type declaration sites omitted"@);
        assert(Seq::<Seq<char>>::empty() + n + o =~= n + o);
    }
    r
}

/// The report of a type without a layout.
fn build_missing_layout_report(
    ty: &RustType,
    templates: &Vec<ReportSpan>,
    records: &Vec<SpanRecord>,
) -> (r: Report)
    ensures
        r@ == missing_layout(ty@, templates@, records_view(records@)),
{
    proof {
        assert(records_view(records@).len() == records@.len());
    }
    let mut at = find_places(records, &SpanKey::Ty(ty.copy()));
    let first = take_first(&mut at);
    let mut message = String::from_str("No layout policy found for type ");
    message.append(ty.to_text().as_str());
    message.append(
        ". Use one of `#layout(size = X, align = Y)`, `#heap_allocated` or `#only_by_ref`.",
    );
    let mut labels: Vec<Label> = Vec::new();
    let mut notes: Vec<String> = Vec::new();
    proof {
        assert(labels_view(labels@) =~= Seq::empty());
        assert(texts(notes@) =~= Seq::empty());
    }
    push_label_at(&mut labels, first, "Type defined here", Color::Blue);
    push_some_labels(&mut labels, &at, "Type defined here");
    push_some_labels(&mut labels, templates, "Matching template defined here");
    push_omitted_note(&mut notes, &at, " additional type declaration locations omitted");
    push_omitted_note(
        &mut notes,
        templates,
        " additional template declaration locations omitted",
    );
    let r = Report {
        fatal: true,
        kind: ReportKind::Error,
        at: match first {
            Some(p) => p,
            None => start_of_first(),
        },
        message,
        labels,
        notes,
    };
    proof {
        let m = missing_layout(ty@, templates@, records_view(records@));
        assert(r@.labels =~= m.labels);
        assert(r@.notes =~= m.notes);
    }
    r
}

fn apply_templates(
    z: &mut ZngurType,
    defined: &Vec<RustType>,
    templates: &Vec<TemplateDef>,
    records: &Vec<SpanRecord>,
    reports: &mut Vec<Report>,
) -> (at: Vec<ReportSpan>)
    ensures
        (final(z)@, at@, reports_view(final(reports)@)) == templates_applied(
            old(z)@,
            templates@.len(),
            FinishModel {
                defined: types_view(defined@),
                templates: templates_view(templates@),
                records: records_view(records@),
            },
            reports_view(old(reports)@),
        ),
{
    let ghost f = FinishModel {
        defined: types_view(defined@),
        templates: templates_view(templates@),
        records: records_view(records@),
    };
    let mut at: Vec<ReportSpan> = Vec::new();
    let mut i: usize = 0;
    while i < templates.len()
        invariant
            i <= templates.len(),
            f.defined == types_view(defined@),
            f.templates == templates_view(templates@),
            f.records == records_view(records@),
            (z@, at@, reports_view(reports@)) == templates_applied(
                old(z)@,
                i as nat,
                f,
                reports_view(old(reports)@),
            ),
        decreases templates.len() - i,
    {
        proof {
            assert(f.templates[i as int] == templates@[i as int].view());
        }
        let unbound = find_unbound(&z.ty, &templates[i].ty, defined);
        if let Some(message) = unbound {
            let r = make_error(message.as_str(), templates[i].at);
            proof {
                assert(reports_view(reports@.push(r)) =~= reports_view(reports@).push(r@));
            }
            reports.push(r);
            i += 1;
            continue;
        }
        match try_match_template(&z.ty, &templates[i].ty, defined) {
            None => {},
            Some(m) => match m.merge(z) {
                Ok(_) => {
                    at.push(templates[i].at);
                },
                Err(e) => {
                    let r = build_template_conflict_report(&templates[i], &z.ty, &e, records);
                    proof {
                        assert(reports_view(reports@.push(r)) =~= reports_view(reports@).push(r@));
                    }
                    reports.push(r);
                },
            },
        }
        i += 1;
    }
    at
}

fn finish_type(
    z: &mut ZngurType,
    defined: &Vec<RustType>,
    templates: &Vec<TemplateDef>,
    records: &Vec<SpanRecord>,
    reports: &mut Vec<Report>,
)
    ensures
        (final(z)@, reports_view(final(reports)@)) == type_finished(
            old(z)@,
            FinishModel {
                defined: types_view(defined@),
                templates: templates_view(templates@),
                records: records_view(records@),
            },
            reports_view(old(reports)@),
        ),
{
    let at = apply_templates(z, defined, templates, records, reports);
    if !(wellknown_contains(&z.wellknown_traits, ZngurWellknownTrait::Copy) || wellknown_contains(
        &z.wellknown_traits,
        ZngurWellknownTrait::Unsized,
    )) {
        z.wellknown_traits.push(ZngurWellknownTrait::Drop);
    }
    if z.layout.is_none() {
        let r = build_missing_layout_report(&z.ty, &at, records);
        proof {
            assert(reports_view(reports@.push(r)) =~= reports_view(reports@).push(r@));
        }
        reports.push(r);
    }
}

fn collect_declared(v: &Vec<ZngurType>) -> (r: Vec<RustType>)
    ensures
        types_view(r@) == declared_types(zngur_types_view(v@)),
{
    let mut r: Vec<RustType> = Vec::new();
    let mut i: usize = 0;
    while i < v.len()
        invariant
            i <= v.len(),
            r.len() == i,
            forall|k: int| 0 <= k < i ==> (#[trigger] r@[k]).view() == v@[k].ty.view(),
        decreases v.len() - i,
    {
        r.push(v[i].ty.copy());
        i += 1;
    }
    proof {
        assert(types_view(r@) =~= declared_types(zngur_types_view(v@)));
    }
    r
}

impl ZngurSpecBuilder {
    /// Finishes the interface: applies the templates to each type, and finds the
    /// types without a layout.
    pub fn to_zngur(&mut self)
        ensures
            final(self)@ == finished(old(self)@),
    {
        let ghost v = zngur_types_view(self.spec.types@);
        let defined = collect_declared(&self.spec.types);
        let ghost f = FinishModel {
            defined: types_view(defined@),
            templates: self@.templates,
            records: self@.records,
        };
        let mut i: usize = 0;
        proof {
            assert(zngur_types_view(self.spec.types@).take(0) =~= Seq::empty());
        }
        while i < self.spec.types.len()
            invariant
                i <= self.spec.types@.len() == v.len(),
                v == zngur_types_view(old(self).spec.types@),
                f == (FinishModel {
                    defined: types_view(defined@),
                    templates: old(self)@.templates,
                    records: old(self)@.records,
                }),
                self@ == (BuilderModel {
                    spec: SpecModel { types: self@.spec.types, ..old(self)@.spec },
                    reports: self@.reports,
                    ..old(self)@
                }),
                (self@.spec.types.take(i as int), self@.reports) == types_finished(
                    v,
                    i as nat,
                    f,
                    old(self)@.reports,
                ),
                forall|k: int| i <= k < v.len() ==> (#[trigger] self@.spec.types[k]) == v[k],
            decreases self.spec.types@.len() - i,
        {
            let ghost before = self.spec.types@;
            proof {
                assert(zngur_types_view(before)[i as int] == before[i as int].view());
            }
            finish_type(
                &mut self.spec.types[i],
                &defined,
                &self.templates,
                &self.records,
                &mut self.reports,
            );
            proof {
                let now = zngur_types_view(self.spec.types@);
                let was = zngur_types_view(before);
                assert(now =~= was.update(i as int, self.spec.types@[i as int].view()));
                assert(now.take(i + 1) =~= was.take(i as int).push(
                    self.spec.types@[i as int].view(),
                ));
            }
            i += 1;
        }
        proof {
            assert(self@.spec.types.take(i as int) =~= self@.spec.types);
        }
    }
}

} // verus!
