//! The interface while it is put together from the files.

use crate::cfg::{Remark, RemarkModel};
use crate::conditional::remarks_view;
use crate::def::{SpecModel, ZngurSpec, ZngurType, ZngurTypeModel};
use crate::report::{
    error_report, make_error, make_warning, record, recorded, records_view, reports_view,
    warning_report, Report, ReportModel, ReportSpan, SpanKey, SpanKeyModel, SpanRecord,
    SpanRecordModel,
};
use crate::scope::Span;
use crate::text::texts;
use vstd::prelude::*;

verus! {

broadcast use vstd::std_specs::vec::group_vec_axioms;

/// A template, and where it is declared.
pub struct TemplateDef {
    pub ty: ZngurType,
    pub at: ReportSpan,
}

/// What a [`TemplateDef`] holds.
#[verifier::ext_equal]
pub struct TemplateModel {
    pub ty: ZngurTypeModel,
    pub at: ReportSpan,
}

impl TemplateDef {
    pub open spec fn view(&self) -> TemplateModel {
        TemplateModel { ty: self.ty.view(), at: self.at }
    }
}

/// What a list of templates holds.
pub open spec fn templates_view(v: Seq<TemplateDef>) -> Seq<TemplateModel> {
    Seq::new(v.len(), |i: int| v[i].view())
}

/// What has been gathered from the files so far, and from which file more comes.
pub struct ZngurSpecBuilder {
    pub spec: ZngurSpec,
    pub templates: Vec<TemplateDef>,
    /// The files to merge that the current file names.
    pub imports: Vec<String>,
    /// The number of the current file.
    pub source_id: usize,
    /// Whether the current file is merged into another one.
    pub nested: bool,
    pub reports: Vec<Report>,
    pub records: Vec<SpanRecord>,
}

/// What a [`ZngurSpecBuilder`] holds.
#[verifier::ext_equal]
pub struct BuilderModel {
    pub spec: SpecModel,
    pub templates: Seq<TemplateModel>,
    pub imports: Seq<Seq<char>>,
    pub source_id: usize,
    pub nested: bool,
    pub reports: Seq<ReportModel>,
    pub records: Seq<SpanRecordModel>,
}

impl BuilderModel {
    /// A place in the current file.
    pub open spec fn at(self, span: Span) -> ReportSpan {
        ReportSpan { source_id: self.source_id, span }
    }

    /// With a report added.
    pub open spec fn reported(self, r: ReportModel) -> BuilderModel {
        BuilderModel { reports: self.reports.push(r), ..self }
    }

    /// With an error at a place of the current file.
    pub open spec fn error(self, message: Seq<char>, span: Span) -> BuilderModel {
        self.reported(error_report(message, self.at(span)))
    }

    /// With a warning at a place of the current file.
    pub open spec fn warning(self, message: Seq<char>, span: Span) -> BuilderModel {
        self.reported(warning_report(message, self.at(span)))
    }

    /// With the first `n` remarks as errors.
    pub open spec fn errors(self, v: Seq<RemarkModel>, n: nat) -> BuilderModel
        decreases n,
    {
        if n == 0 || n > v.len() {
            self
        } else {
            self.errors(v, (n - 1) as nat).error(v[n - 1].message, v[n - 1].span)
        }
    }

    /// With a place of a declaration.
    pub open spec fn noted(self, key: SpanKeyModel, span: Span) -> BuilderModel {
        BuilderModel { records: recorded(self.records, self.source_id, key, span), ..self }
    }
}

impl ZngurSpecBuilder {
    pub open spec fn view(&self) -> BuilderModel {
        BuilderModel {
            spec: self.spec.view(),
            templates: templates_view(self.templates@),
            imports: texts(self.imports@),
            source_id: self.source_id,
            nested: self.nested,
            reports: reports_view(self.reports@),
            records: records_view(self.records@),
        }
    }

    /// Adds a report.
    pub fn add_report(&mut self, r: Report)
        ensures
            final(self)@ == old(self)@.reported(r@),
    {
        proof {
            assert(reports_view(self.reports@.push(r)) =~= reports_view(self.reports@).push(r@));
        }
        self.reports.push(r);
    }

    /// Adds an error at a place of the current file.
    pub fn add_error_str(&mut self, message: &str, span: Span)
        ensures
            final(self)@ == old(self)@.error(message@, span),
    {
        let at = ReportSpan { source_id: self.source_id, span };
        self.add_report(make_error(message, at));
    }

    /// Adds a warning at a place of the current file.
    pub fn add_warning_str(&mut self, message: &str, span: Span)
        ensures
            final(self)@ == old(self)@.warning(message@, span),
    {
        let at = ReportSpan { source_id: self.source_id, span };
        self.add_report(make_warning(message, at));
    }

    /// Adds each remark as an error.
    pub fn add_remarks(&mut self, v: &Vec<Remark>)
        ensures
            final(self)@ == old(self)@.errors(remarks_view(v@), v@.len()),
    {
        let mut i: usize = 0;
        while i < v.len()
            invariant
                i <= v.len(),
                self@ == old(self)@.errors(remarks_view(v@), i as nat),
            decreases v.len() - i,
        {
            proof {
                assert(remarks_view(v@)[i as int] == v@[i as int].view());
            }
            self.add_error_str(v[i].message.as_str(), v[i].span);
            i += 1;
        }
    }

    /// Remembers a place of a declaration.
    pub fn record_span(&mut self, key: SpanKey, span: Span)
        ensures
            final(self)@ == old(self)@.noted(key@, span),
    {
        record(&mut self.records, self.source_id, key, span);
    }
}

} // verus!
