//! What is reported of the files, and where declarations stand in them.

use crate::def::{ConstructorModel, MethodModel, ZngurConstructor, ZngurMethod};
use crate::rust_types::{RustType, TypeModel};
use crate::scope::Span;
use crate::text::texts;
use vstd::prelude::*;

verus! {

broadcast use vstd::std_specs::vec::group_vec_axioms;

#[derive(Clone, Copy, Debug, PartialEq, Eq, Structural)]
pub enum ReportKind {
    Error,
    Warning,
    /// The configuration under which errors came up.
    CfgValues,
}

#[derive(Clone, Copy, Debug, PartialEq, Eq, Structural)]
pub enum Color {
    Red,
    Yellow,
    Blue,
}

/// A place in one of the files.
#[derive(Clone, Copy, Debug, PartialEq, Eq, Structural)]
pub struct ReportSpan {
    pub source_id: usize,
    pub span: Span,
}

/// Something that is said of a place.
#[derive(Debug, PartialEq, Eq)]
pub struct Label {
    pub at: ReportSpan,
    pub message: String,
    pub color: Color,
}

/// What a [`Label`] holds.
#[verifier::ext_equal]
pub struct LabelModel {
    pub at: ReportSpan,
    pub message: Seq<char>,
    pub color: Color,
}

impl Label {
    pub open spec fn view(&self) -> LabelModel {
        LabelModel { at: self.at, message: self.message@, color: self.color }
    }
}

/// What a list of labels holds.
pub open spec fn labels_view(v: Seq<Label>) -> Seq<LabelModel> {
    Seq::new(v.len(), |i: int| v[i].view())
}

/// A report. A fatal one means that the interface cannot be used.
#[derive(Debug, PartialEq, Eq)]
pub struct Report {
    pub fatal: bool,
    pub kind: ReportKind,
    pub at: ReportSpan,
    pub message: String,
    pub labels: Vec<Label>,
    pub notes: Vec<String>,
}

/// What a [`Report`] holds.
#[verifier::ext_equal]
pub struct ReportModel {
    pub fatal: bool,
    pub kind: ReportKind,
    pub at: ReportSpan,
    pub message: Seq<char>,
    pub labels: Seq<LabelModel>,
    pub notes: Seq<Seq<char>>,
}

impl Report {
    pub open spec fn view(&self) -> ReportModel {
        ReportModel {
            fatal: self.fatal,
            kind: self.kind,
            at: self.at,
            message: self.message@,
            labels: labels_view(self.labels@),
            notes: texts(self.notes@),
        }
    }
}

/// What a list of reports holds.
pub open spec fn reports_view(v: Seq<Report>) -> Seq<ReportModel> {
    Seq::new(v.len(), |i: int| v[i].view())
}

/// The report of an error at a place.
pub open spec fn error_report(message: Seq<char>, at: ReportSpan) -> ReportModel {
    ReportModel {
        fatal: true,
        kind: ReportKind::Error,
        at,
        message,
        labels: seq![LabelModel { at, message, color: Color::Red }],
        notes: Seq::empty(),
    }
}

/// The report of a warning at a place.
pub open spec fn warning_report(message: Seq<char>, at: ReportSpan) -> ReportModel {
    ReportModel {
        fatal: false,
        kind: ReportKind::Warning,
        at,
        message,
        labels: seq![LabelModel { at, message, color: Color::Yellow }],
        notes: Seq::empty(),
    }
}

/// The number of fatal reports among the first `n`.
pub open spec fn fatal_count(v: Seq<ReportModel>, n: nat) -> nat
    decreases n,
{
    if n == 0 || n > v.len() {
        0
    } else {
        fatal_count(v, (n - 1) as nat) + if v[n - 1].fatal {
            1nat
        } else {
            0nat
        }
    }
}

proof fn lemma_fatal_prefix(a: Seq<ReportModel>, b: Seq<ReportModel>, n: nat)
    requires
        n <= a.len(),
        n <= b.len(),
        forall|i: int| 0 <= i < n ==> a[i] == b[i],
    ensures
        fatal_count(a, n) == fatal_count(b, n),
    decreases n,
{
    if n > 0 {
        lemma_fatal_prefix(a, b, (n - 1) as nat);
    }
}

/// A report more is a fatal one more, where it is fatal.
pub proof fn lemma_fatal_push(v: Seq<ReportModel>, x: ReportModel)
    ensures
        fatal_count(v.push(x), v.push(x).len()) == fatal_count(v, v.len()) + (if x.fatal {
            1nat
        } else {
            0nat
        }),
{
    lemma_fatal_prefix(v.push(x), v, v.len());
}

/// Something that is declared, to find its places by.
#[derive(Debug, PartialEq, Eq)]
pub enum SpanKey {
    /// A file that is merged, by the plain spelling of its path.
    Import(String),
    Ty(RustType),
    Layout(RustType),
    Constructor(RustType, ZngurConstructor),
    CppRef(RustType),
    CppHeapAllocated(RustType),
    CppStackOwned(RustType),
    Method(RustType, ZngurMethod),
    Field(RustType, Option<String>, String),
}

/// What a [`SpanKey`] holds.
#[verifier::ext_equal]
pub enum SpanKeyModel {
    Import(Seq<char>),
    Ty(TypeModel),
    Layout(TypeModel),
    Constructor(TypeModel, ConstructorModel),
    CppRef(TypeModel),
    CppHeapAllocated(TypeModel),
    CppStackOwned(TypeModel),
    Method(TypeModel, MethodModel),
    Field(TypeModel, Option<Seq<char>>, Seq<char>),
}

impl SpanKey {
    pub open spec fn view(&self) -> SpanKeyModel {
        match self {
            SpanKey::Import(p) => SpanKeyModel::Import(p@),
            SpanKey::Ty(t) => SpanKeyModel::Ty(t.view()),
            SpanKey::Layout(t) => SpanKeyModel::Layout(t.view()),
            SpanKey::Constructor(t, c) => SpanKeyModel::Constructor(t.view(), c.view()),
            SpanKey::CppRef(t) => SpanKeyModel::CppRef(t.view()),
            SpanKey::CppHeapAllocated(t) => SpanKeyModel::CppHeapAllocated(t.view()),
            SpanKey::CppStackOwned(t) => SpanKeyModel::CppStackOwned(t.view()),
            SpanKey::Method(t, m) => SpanKeyModel::Method(t.view(), m.view()),
            SpanKey::Field(t, v, n) => SpanKeyModel::Field(
                t.view(),
                crate::def::opt_text(*v),
                n@,
            ),
        }
    }

    /// Whether two keys are the same.
    pub fn same_as(&self, other: &SpanKey) -> (r: bool)
        ensures
            r == (self@ == other@),
    {
        match (self, other) {
            (SpanKey::Import(a), SpanKey::Import(b)) => *a == *b,
            (SpanKey::Ty(a), SpanKey::Ty(b)) => a.same_as(b),
            (SpanKey::Layout(a), SpanKey::Layout(b)) => a.same_as(b),
            (SpanKey::Constructor(a, c), SpanKey::Constructor(b, d)) => a.same_as(b) && c.same_as(
                d,
            ),
            (SpanKey::CppRef(a), SpanKey::CppRef(b)) => a.same_as(b),
            (SpanKey::CppHeapAllocated(a), SpanKey::CppHeapAllocated(b)) => a.same_as(b),
            (SpanKey::CppStackOwned(a), SpanKey::CppStackOwned(b)) => a.same_as(b),
            (SpanKey::Method(a, m), SpanKey::Method(b, n)) => a.same_as(b) && m.same_as(n),
            (SpanKey::Field(a, v, n), SpanKey::Field(b, w, m)) => a.same_as(b)
                && crate::def::opt_text_same(v, w) && *n == *m,
            _ => false,
        }
    }
}

/// The places of one declared thing in one file, in the order in which they were
/// found.
pub struct SpanRecord {
    pub source_id: usize,
    pub key: SpanKey,
    pub spans: Vec<Span>,
}

/// What a [`SpanRecord`] holds.
#[verifier::ext_equal]
pub struct SpanRecordModel {
    pub source_id: usize,
    pub key: SpanKeyModel,
    pub spans: Seq<Span>,
}

impl SpanRecord {
    pub open spec fn view(&self) -> SpanRecordModel {
        SpanRecordModel { source_id: self.source_id, key: self.key.view(), spans: self.spans@ }
    }
}

/// What a list of [`SpanRecord`] holds.
pub open spec fn records_view(v: Seq<SpanRecord>) -> Seq<SpanRecordModel> {
    Seq::new(v.len(), |i: int| v[i].view())
}

/// The position of the record of a thing in a file.
pub open spec fn record_at(v: Seq<SpanRecordModel>, source_id: usize, key: SpanKeyModel, i: int) -> Option<int>
    decreases v.len() - i,
{
    if i < 0 || i >= v.len() {
        None
    } else if v[i].source_id == source_id && v[i].key == key {
        Some(i)
    } else {
        record_at(v, source_id, key, i + 1)
    }
}

/// The records with a place added, where it is new.
pub open spec fn recorded(v: Seq<SpanRecordModel>, source_id: usize, key: SpanKeyModel, span: Span) -> Seq<
    SpanRecordModel,
> {
    match record_at(v, source_id, key, 0) {
        Some(i) => if v[i].spans.contains(span) {
            v
        } else {
            v.update(i, SpanRecordModel { spans: v[i].spans.push(span), ..v[i] })
        },
        None => v.push(SpanRecordModel { source_id, key, spans: seq![span] }),
    }
}

/// The places of a record.
pub open spec fn record_places(r: SpanRecordModel) -> Seq<ReportSpan> {
    Seq::new(r.spans.len(), |i: int| ReportSpan { source_id: r.source_id, span: r.spans[i] })
}

/// The places of a thing in all files, among the first `n` records.
pub open spec fn places(v: Seq<SpanRecordModel>, n: nat, key: SpanKeyModel) -> Seq<ReportSpan>
    decreases n,
{
    if n == 0 || n > v.len() {
        Seq::empty()
    } else {
        let front = places(v, (n - 1) as nat, key);
        if v[n - 1].key == key {
            front + record_places(v[n - 1])
        } else {
            front
        }
    }
}

/// The places of a thing in one file.
pub open spec fn places_in(v: Seq<SpanRecordModel>, source_id: usize, key: SpanKeyModel) -> Seq<
    ReportSpan,
> {
    match record_at(v, source_id, key, 0) {
        Some(i) => record_places(v[i]),
        None => Seq::empty(),
    }
}

proof fn lemma_record_at(v: Seq<SpanRecordModel>, source_id: usize, key: SpanKeyModel, i: int)
    requires
        0 <= i <= v.len(),
    ensures
        record_at(v, source_id, key, i) matches Some(k) ==> i <= k < v.len() && v[k].source_id
            == source_id && v[k].key == key,
    decreases v.len() - i,
{
    if i < v.len() {
        lemma_record_at(v, source_id, key, i + 1);
    }
}

proof fn lemma_places(v: Seq<SpanRecordModel>, n: nat, key: SpanKeyModel, k: int, j: int)
    requires
        0 <= k < n <= v.len(),
        v[k].key == key,
        0 <= j < v[k].spans.len(),
    ensures
        places(v, n, key).contains(
            ReportSpan { source_id: v[k].source_id, span: v[k].spans[j] },
        ),
    decreases n,
{
    let at = ReportSpan { source_id: v[k].source_id, span: v[k].spans[j] };
    let front = places(v, (n - 1) as nat, key);
    let last = record_places(v[n - 1]);
    if k < n - 1 {
        lemma_places(v, (n - 1) as nat, key, k, j);
        let i = choose|i: int| 0 <= i < front.len() && front[i] == at;
        if v[n - 1].key == key {
            assert((front + last)[i] == at);
        }
    } else {
        assert(last[j] == at);
        assert((front + last)[front.len() + j] == at);
    }
}

proof fn lemma_places_same(a: Seq<SpanRecordModel>, b: Seq<SpanRecordModel>, n: nat, key: SpanKeyModel, k: int)
    requires
        n <= a.len(),
        n <= b.len(),
        forall|i: int| 0 <= i < n && i != k ==> a[i] == b[i],
        0 <= k < n ==> a[k].key != key && b[k].key != key,
    ensures
        places(a, n, key) == places(b, n, key),
    decreases n,
{
    if n > 0 {
        lemma_places_same(a, b, (n - 1) as nat, key, k);
    }
}

/// A place that was noted of a thing is found among its places, and the places of
/// other things stay as they were.
pub proof fn law_noted_places_are_found(
    v: Seq<SpanRecordModel>,
    source_id: usize,
    key: SpanKeyModel,
    span: Span,
    other: SpanKeyModel,
)
    ensures
        ({
            let after = recorded(v, source_id, key, span);
            &&& places(after, after.len(), key).contains(ReportSpan { source_id, span })
            &&& other != key ==> places(after, after.len(), other) == places(v, v.len(), other)
        }),
{
    let after = recorded(v, source_id, key, span);
    lemma_record_at(v, source_id, key, 0);
    match record_at(v, source_id, key, 0) {
        Some(k) => {
            if v[k].spans.contains(span) {
                let j = choose|j: int| 0 <= j < v[k].spans.len() && v[k].spans[j] == span;
                lemma_places(after, after.len(), key, k, j);
            } else {
                let j = v[k].spans.len() as int;
                assert(after[k].spans[j] == span);
                lemma_places(after, after.len(), key, k, j);
                if other != key {
                    lemma_places_same(after, v, v.len(), other, k);
                }
            }
        },
        None => {
            let k = v.len() as int;
            assert(after[k].spans[0] == span);
            lemma_places(after, after.len(), key, k, 0);
            if other != key {
                lemma_places_same(after, v, v.len(), other, -1);
            }
        },
    }
}

/// The report of an error at a place.
pub fn make_error(message: &str, at: ReportSpan) -> (r: Report)
    ensures
        r@ == error_report(message@, at),
{
    let mut labels: Vec<Label> = Vec::new();
    labels.push(Label { at, message: String::from_str(message), color: Color::Red });
    let r = Report {
        fatal: true,
        kind: ReportKind::Error,
        at,
        message: String::from_str(message),
        labels,
        notes: Vec::new(),
    };
    proof {
        assert(r@.labels =~= error_report(message@, at).labels);
        assert(r@.notes =~= Seq::empty());
    }
    r
}

/// The report of a warning at a place.
pub fn make_warning(message: &str, at: ReportSpan) -> (r: Report)
    ensures
        r@ == warning_report(message@, at),
{
    let mut labels: Vec<Label> = Vec::new();
    labels.push(Label { at, message: String::from_str(message), color: Color::Yellow });
    let r = Report {
        fatal: false,
        kind: ReportKind::Warning,
        at,
        message: String::from_str(message),
        labels,
        notes: Vec::new(),
    };
    proof {
        assert(r@.labels =~= warning_report(message@, at).labels);
        assert(r@.notes =~= Seq::empty());
    }
    r
}

/// The number of fatal reports.
pub fn count_fatal(v: &Vec<Report>) -> (r: usize)
    ensures
        r == fatal_count(reports_view(v@), v@.len()),
        r <= v@.len(),
{
    let mut n: usize = 0;
    let mut i: usize = 0;
    while i < v.len()
        invariant
            i <= v.len(),
            n <= i,
            n == fatal_count(reports_view(v@), i as nat),
        decreases v.len() - i,
    {
        proof {
            assert(reports_view(v@)[i as int] == v@[i as int].view());
        }
        if v[i].fatal {
            n += 1;
        }
        i += 1;
    }
    n
}

fn spans_contain(v: &Vec<Span>, s: Span) -> (r: bool)
    ensures
        r == v@.contains(s),
{
    let mut i: usize = 0;
    while i < v.len()
        invariant
            i <= v.len(),
            forall|k: int| 0 <= k < i ==> v@[k] != s,
        decreases v.len() - i,
    {
        if v[i] == s {
            return true;
        }
        i += 1;
    }
    false
}

fn find_record(v: &Vec<SpanRecord>, source_id: usize, key: &SpanKey) -> (r: Option<usize>)
    ensures
        match record_at(records_view(v@), source_id, key@, 0) {
            Some(i) => (r matches Some(k) && k == i) && 0 <= i < v@.len(),
            None => r is None,
        },
{
    let mut i: usize = 0;
    while i < v.len()
        invariant
            i <= v.len(),
            record_at(records_view(v@), source_id, key@, i as int) == record_at(
                records_view(v@),
                source_id,
                key@,
                0,
            ),
        decreases v.len() - i,
    {
        proof {
            assert(records_view(v@)[i as int] == v@[i as int].view());
        }
        if v[i].source_id == source_id && v[i].key.same_as(key) {
            return Some(i);
        }
        i += 1;
    }
    None
}

/// Adds a place to the records, where it is new.
pub fn record(v: &mut Vec<SpanRecord>, source_id: usize, key: SpanKey, span: Span)
    ensures
        records_view(final(v)@) == recorded(records_view(old(v)@), source_id, key@, span),
{
    let ghost before = v@;
    match find_record(v, source_id, &key) {
        Some(i) => {
            proof {
                assert(records_view(before)[i as int] == before[i as int].view());
            }
            if !spans_contain(&v[i].spans, span) {
                v[i].spans.push(span);
                proof {
                    assert(records_view(v@) =~= records_view(before).update(
                        i as int,
                        v@[i as int].view(),
                    ));
                }
            }
        },
        None => {
            let mut spans: Vec<Span> = Vec::new();
            spans.push(span);
            let r = SpanRecord { source_id, key, spans };
            proof {
                assert(r.view().spans =~= seq![span]);
                assert(records_view(before.push(r)) =~= records_view(before).push(r.view()));
            }
            v.push(r);
        },
    }
}

fn push_places(r: &SpanRecord, out: &mut Vec<ReportSpan>)
    ensures
        final(out)@ == old(out)@ + record_places(r@),
{
    let mut i: usize = 0;
    proof {
        assert(out@ + record_places(r@).take(0) =~= out@);
    }
    while i < r.spans.len()
        invariant
            i <= r.spans.len(),
            out@ == old(out)@ + record_places(r@).take(i as int),
        decreases r.spans.len() - i,
    {
        proof {
            let p = record_places(r@);
            assert(old(out)@ + p.take(i + 1) =~= (old(out)@ + p.take(i as int)).push(p[i as int]));
        }
        out.push(ReportSpan { source_id: r.source_id, span: r.spans[i] });
        i += 1;
    }
    proof {
        assert(record_places(r@).take(i as int) =~= record_places(r@));
    }
}

/// The places of a thing in all files.
pub fn find_places(v: &Vec<SpanRecord>, key: &SpanKey) -> (r: Vec<ReportSpan>)
    ensures
        r@ == places(records_view(v@), v@.len(), key@),
{
    let mut r: Vec<ReportSpan> = Vec::new();
    let mut i: usize = 0;
    while i < v.len()
        invariant
            i <= v.len(),
            r@ == places(records_view(v@), i as nat, key@),
        decreases v.len() - i,
    {
        proof {
            assert(records_view(v@)[i as int] == v@[i as int].view());
        }
        if v[i].key.same_as(key) {
            push_places(&v[i], &mut r);
        }
        i += 1;
    }
    r
}

/// The places of a thing in one file.
pub fn find_places_in(v: &Vec<SpanRecord>, source_id: usize, key: &SpanKey) -> (r: Vec<ReportSpan>)
    ensures
        r@ == places_in(records_view(v@), source_id, key@),
{
    let mut r: Vec<ReportSpan> = Vec::new();
    match find_record(v, source_id, key) {
        Some(i) => {
            proof {
                assert(records_view(v@)[i as int] == v@[i as int].view());
                assert(Seq::<ReportSpan>::empty() + record_places(v@[i as int].view())
                    =~= record_places(v@[i as int].view()));
            }
            push_places(&v[i], &mut r);
        },
        None => {},
    }
    r
}

} // verus!
