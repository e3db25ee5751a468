//! Reading a file and the files that it merges.

use crate::cfg::{cfg_pairs, CfgModel, InMemoryRustCfgProvider};
use crate::def::{cfg_view, empty_spec, opt_text, SpecModel, ZngurSpec};
use crate::finish::{finished, first_of, nowhere, omitted_note, rest_of, some_labels};
use crate::items::{file_read, read_file};
use crate::lexical::{
    char_span, char_want_strings, char_want_texts, find_lexical_failure, lexical_failure,
};
use crate::lower::{below, kids, last_tree, leaf_text, span_of, Source, SourceModel};
use crate::outside::{entry_at, map_entries, map_get, map_insert, new_map};
use crate::paths::{plain_path, to_plain_path};
use crate::peg::{parse_file, parse_tokens, Complaint, Failure, Feature, Trees, Want, Wants};
use crate::report::{
    count_fatal, fatal_count, find_places_in, places_in, reports_view, Color, Label, Report,
    ReportKind, ReportModel, ReportSpan, SpanKey, SpanKeyModel,
};
use crate::scope::Span;
use crate::text::{
    chars_of, decimal, join, join_text, lemma_texts_push, str_eq, strings_copy, text_before, text_le,
    texts,
};
use crate::token::{
    byte_at, byte_offsets, kinds, lex, tok_str, tok_text, tokenize, tokens_view, Tok, Token,
    TokenModel,
};
use crate::work::{BuilderModel, ZngurSpecBuilder};
use std::hash::RandomState;
use vstd::prelude::*;

verus! {

broadcast use vstd::std_specs::vec::group_vec_axioms;

/// What is said of a failure with a reason of its own.
pub open spec fn complaint_text(c: Complaint, src: SourceModel) -> Seq<char> {
    match c {
        Complaint::Unstable(Feature::CfgMatch) =>
            "`#match` statements are unstable. Enable them by using `#unstable(cfg_match)` at the top of the file."@,
        Complaint::Unstable(Feature::CfgIf) =>
            "`#if` statements are unstable. Enable them by using `#unstable(cfg_if)` at the top of the file."@,
        Complaint::Unstable(Feature::TemplateTypes) =>
            "Template types are unstable. Enable them by using `#unstable(template_types)` at the top of the file."@,
        Complaint::UnknownFeature(i) => "unknown unstable feature '"@ + leaf_text(src, i) + "'"@,
        Complaint::CppTrait => "`c++::` paths cannot be used as a trait"@,
        Complaint::CppUsePath => "`c++::` paths cannot be used in a method's `use` path"@,
    }
}

/// `n` times `#`.
pub open spec fn hashes(n: nat) -> Seq<char>
    decreases n,
{
    if n == 0 {
        Seq::empty()
    } else {
        hashes((n - 1) as nat) + "#"@
    }
}

/// How a token is written.
pub open spec fn shown_token(t: TokenModel) -> Seq<char> {
    match t.tok {
        Tok::Str(_) => "\""@ + t.text + "\""@,
        Tok::RawStr => "r"@ + hashes(t.number as nat) + "\""@ + t.text + "\""@ + hashes(
            t.number as nat,
        ),
        _ => t.text,
    }
}

/// How something that was wanted is written.
pub open spec fn want_text(w: Want) -> Seq<char> {
    match w {
        Want::Tok(t) => "'"@ + tok_text(t) + "'"@,
        Want::SomethingElse => "something else"@,
        Want::EndOfInput => "end of input"@,
    }
}

/// How all that was wanted is written.
pub open spec fn want_texts(w: Wants) -> Seq<Seq<char>>
    decreases w,
{
    match w {
        Wants::Nil => Seq::empty(),
        Wants::Snoc(rest, x) => want_texts(*rest).push(want_text(x)),
    }
}

/// Alternatives with commas in between, and `or` before the last.
pub open spec fn alternatives(v: Seq<Seq<char>>) -> Seq<char> {
    if v.len() == 0 {
        "something else"@
    } else if v.len() == 1 {
        v[0]
    } else {
        join_text(v.drop_last(), ", "@) + ", or "@ + v.last()
    }
}

/// What is said where the tokens of a file cannot be used.
pub open spec fn failure_text(f: Failure, src: SourceModel) -> Seq<char> {
    match f.complaint {
        Some((c, _, _)) => complaint_text(c, src),
        None => "found "@ + (if f.pos < src.toks.len() {
            "'"@ + shown_token(src.toks[f.pos as int]) + "'"@
        } else {
            "end of input"@
        }) + " expected "@ + alternatives(want_texts(f.wants)),
    }
}

/// Where the tokens of a file cannot be used.
pub open spec fn failure_span(f: Failure, src: SourceModel) -> Span {
    match f.complaint {
        Some((_, from, to)) => span_of(src, from, to),
        None => span_of(
            src,
            f.pos,
            if f.pos < usize::MAX {
                (f.pos + 1) as usize
            } else {
                f.pos
            },
        ),
    }
}

/// What is said of a text that cannot be cut into tokens.
pub open spec fn lexical_text(text: Seq<char>) -> Seq<char> {
    let f = lexical_failure(text);
    "found "@ + (if f.pos < text.len() {
        "'"@ + seq![text[f.pos]] + "'"@
    } else {
        "end of input"@
    }) + " expected "@ + alternatives(char_want_texts(f.wants))
}

/// The tokens of a text as a source.
pub open spec fn source_of(text: Seq<char>, toks: Seq<TokenModel>) -> SourceModel {
    SourceModel { toks, end: byte_at(text, text.len() as int) }
}

/// The interface once the text of a file was read.
pub open spec fn text_read(text: Seq<char>, cfg: CfgModel, w: BuilderModel) -> BuilderModel {
    match lex(text) {
        Err(_) => w.error(lexical_text(text), char_span(text, lexical_failure(text).pos)),
        Ok(toks) => {
            let src = source_of(text, toks);
            let o = parse_file(kinds(toks));
            match o.taken {
                None => w.error(
                    failure_text(o.state.failure, src),
                    failure_span(o.state.failure, src),
                ),
                Some((_, ts)) => file_read(below(last_tree(ts)), src, cfg, w),
            }
        },
    }
}

fn complaint_message(c: Complaint, src: &Source) -> (r: String)
    ensures
        r@ == complaint_text(c, src@),
{
    match c {
        Complaint::Unstable(Feature::CfgMatch) => String::from_str(
            "`#match` statements are unstable. Enable them by using `#unstable(cfg_match)` at the top of the file.",
        ),
        Complaint::Unstable(Feature::CfgIf) => String::from_str(
            "`#if` statements are unstable. Enable them by using `#unstable(cfg_if)` at the top of the file.",
        ),
        Complaint::Unstable(Feature::TemplateTypes) => String::from_str(
            "Template types are unstable. Enable them by using `#unstable(template_types)` at the top of the file.",
        ),
        Complaint::UnknownFeature(i) => {
            let mut r = String::from_str("unknown unstable feature '");
            r.append(src.text_at(i).as_str());
            r.append("'");
            r
        },
        Complaint::CppTrait => String::from_str("`c++::` paths cannot be used as a trait"),
        Complaint::CppUsePath => String::from_str(
            "`c++::` paths cannot be used in a method's `use` path",
        ),
    }
}

fn make_hashes(n: usize) -> (r: String)
    ensures
        r@ == hashes(n as nat),
{
    let mut r = String::new();
    let mut i: usize = 0;
    while i < n
        invariant
            i <= n,
            r@ == hashes(i as nat),
        decreases n - i,
    {
        r.append("#");
        i += 1;
    }
    r
}

impl Token {
    /// How the token is written.
    pub fn to_text(&self) -> (r: String)
        ensures
            r@ == shown_token(self@),
    {
        match self.tok {
            Tok::Str(_) => {
                let mut r = String::from_str("\"");
                r.append(self.text.as_str());
                r.append("\"");
                r
            },
            Tok::RawStr => {
                let h = make_hashes(self.number);
                let mut r = String::from_str("r");
                r.append(h.as_str());
                r.append("\"");
                r.append(self.text.as_str());
                r.append("\"");
                r.append(h.as_str());
                r
            },
            _ => self.text.clone(),
        }
    }
}

fn want_string(w: Want) -> (r: String)
    ensures
        r@ == want_text(w),
{
    match w {
        Want::Tok(t) => {
            let mut r = String::from_str("'");
            r.append(tok_str(t));
            r.append("'");
            r
        },
        Want::SomethingElse => String::from_str("something else"),
        Want::EndOfInput => String::from_str("end of input"),
    }
}

fn want_strings(w: &Wants) -> (r: Vec<String>)
    ensures
        texts(r@) == want_texts(*w),
    decreases w,
{
    match w {
        Wants::Nil => {
            let r: Vec<String> = Vec::new();
            proof {
                assert(texts(r@) =~= Seq::empty());
            }
            r
        },
        Wants::Snoc(rest, x) => {
            let mut r = want_strings(rest);
            let s = want_string(*x);
            proof {
                lemma_texts_push(r@, s);
            }
            r.push(s);
            r
        },
    }
}

fn list_alternatives(v: Vec<String>) -> (r: String)
    ensures
        r@ == alternatives(texts(v@)),
{
    let mut v = v;
    proof {
        assert(texts(v@).len() == v@.len());
    }
    if v.len() == 0 {
        return String::from_str("something else");
    }
    if v.len() == 1 {
        return v[0].clone();
    }
    let ghost all = v@;
    let last = v.pop();
    proof {
        assert(texts(v@) =~= texts(all).drop_last());
    }
    let mut r = join(&v, ", ");
    r.append(", or ");
    match last {
        Some(x) => r.append(x.as_str()),
        None => {},
    }
    r
}

fn failure_message(f: &Failure, src: &Source) -> (r: String)
    ensures
        r@ == failure_text(*f, src@),
{
    match f.complaint {
        Some((c, _, _)) => complaint_message(c, src),
        None => {
            let mut r = String::from_str("found ");
            let mut found;
            if f.pos < src.toks.len() {
                found = String::from_str("'");
                found.append(src.toks[f.pos].to_text().as_str());
                found.append("'");
            } else {
                found = String::from_str("end of input");
            }
            r.append(found.as_str());
            r.append(" expected ");
            r.append(list_alternatives(want_strings(&f.wants)).as_str());
            r
        },
    }
}

fn failure_place(f: &Failure, src: &Source) -> (r: Span)
    ensures
        r == failure_span(*f, src@),
{
    match f.complaint {
        Some((_, from, to)) => src.span(from, to),
        None => src.span(
            f.pos,
            if f.pos < usize::MAX {
                f.pos + 1
            } else {
                f.pos
            },
        ),
    }
}

fn token_kinds(v: &Vec<Token>) -> (r: Vec<Tok>)
    ensures
        r@ == kinds(tokens_view(v@)),
{
    let mut r: Vec<Tok> = Vec::new();
    let mut i: usize = 0;
    while i < v.len()
        invariant
            i <= v.len(),
            r.len() == i,
            forall|k: int| 0 <= k < i ==> r@[k] == v@[k].tok,
        decreases v.len() - i,
    {
        r.push(v[i].tok);
        i += 1;
    }
    proof {
        assert(r@ =~= kinds(tokens_view(v@)));
    }
    r
}

/// Reads the text of a file.
fn read_text(text: &str, cfg: &InMemoryRustCfgProvider, w: &mut ZngurSpecBuilder)
    ensures
        final(w)@ == text_read(text@, cfg@, old(w)@),
{
    let offsets = byte_offsets(text);
    let chars = chars_of(text);
    match tokenize(text) {
        Err(_) => {
            let f = find_lexical_failure(text);
            let mut m = String::from_str("found ");
            let mut found;
            let end: usize;
            if f.pos < chars.len() {
                found = String::from_str("'");
                found.push(chars[f.pos]);
                found.append("'");
                end = offsets[f.pos + 1];
                proof {
                    let c = text@[f.pos as int];
                    assert("'"@.push(c) =~= "'"@ + seq![c]);
                }
            } else {
                found = String::from_str("end of input");
                end = offsets[f.pos];
            }
            m.append(found.as_str());
            m.append(" expected ");
            m.append(list_alternatives(char_want_strings(&f.wants)).as_str());
            w.add_error_str(m.as_str(), Span { start: offsets[f.pos], end });
        },
        Ok(toks) => {
            let kinds = token_kinds(&toks);
            let src = Source { toks, end: offsets[chars.len()] };
            let o = parse_tokens(&kinds);
            match o.taken {
                None => {
                    let m = failure_message(&o.state.failure, &src);
                    w.add_error_str(m.as_str(), failure_place(&o.state.failure, &src));
                },
                Some((_, ts)) => {
                    let none = Trees::Nil;
                    let items = match &ts {
                        Trees::Snoc(_, t) => match kids(t) {
                            Some(k) => k,
                            None => &none,
                        },
                        Trees::Nil => &none,
                    };
                    read_file(items, &src, cfg, w);
                },
            }
        },
    }
}

/// A file whose items were read, and how many of the files that it merges have
/// been dealt with.
pub struct Frame {
    pub path: String,
    pub source_id: usize,
    pub nested: bool,
    pub imports: Vec<String>,
    pub next: usize,
}

/// What a [`Frame`] holds.
#[verifier::ext_equal]
pub struct FrameModel {
    pub path: Seq<char>,
    pub source_id: usize,
    pub nested: bool,
    pub imports: Seq<Seq<char>>,
    pub next: usize,
}

impl Frame {
    pub open spec fn view(&self) -> FrameModel {
        FrameModel {
            path: self.path@,
            source_id: self.source_id,
            nested: self.nested,
            imports: texts(self.imports@),
            next: self.next,
        }
    }
}

/// What a list of frames holds.
pub open spec fn frames_view(v: Seq<Frame>) -> Seq<FrameModel> {
    Seq::new(v.len(), |i: int| v[i].view())
}

/// The reading of a file and of all that it merges. Whoever holds it looks for
/// the files that it asks for.
pub struct ParseSession {
    builder: ZngurSpecBuilder,
    cfg: InMemoryRustCfgProvider,
    sources: indexmap::IndexMap<String, String, RandomState>,
    processed_files: Vec<String>,
    frames: Vec<Frame>,
    record_cfg: bool,
}

/// What a [`ParseSession`] holds.
#[verifier::ext_equal]
pub struct SessionModel {
    pub builder: BuilderModel,
    pub cfg: CfgModel,
    /// The paths and texts of the files, by their number.
    pub sources: Seq<(Seq<char>, Seq<char>)>,
    /// The paths of the files in the order in which they were read.
    pub processed_files: Seq<Seq<char>>,
    /// The files that wait for the files that they merge, the innermost last.
    pub frames: Seq<FrameModel>,
    pub record_cfg: bool,
}

/// A builder before the first file.
pub open spec fn new_builder(rust_cfg: Seq<(Seq<char>, Option<Seq<char>>)>) -> BuilderModel {
    BuilderModel {
        spec: SpecModel { rust_cfg, ..empty_spec() },
        templates: Seq::empty(),
        imports: Seq::empty(),
        source_id: 0,
        nested: false,
        reports: Seq::empty(),
        records: Seq::empty(),
    }
}

/// The position of a file among the files, under whatever spelling of its path.
pub open spec fn file_at(sources: Seq<(Seq<char>, Seq<char>)>, path: Seq<char>, i: int) -> Option<int>
    decreases sources.len() - i,
{
    if i < 0 || i >= sources.len() {
        None
    } else if plain_path(sources[i].0) == plain_path(path) {
        Some(i)
    } else {
        file_at(sources, path, i + 1)
    }
}

/// The number that a file gets.
pub open spec fn file_number(sources: Seq<(Seq<char>, Seq<char>)>, path: Seq<char>) -> int {
    match file_at(sources, path, 0) {
        Some(i) => i,
        None => sources.len() as int,
    }
}

/// The files once one was added. One that is there already keeps its number and
/// the first spelling of its path.
pub open spec fn with_file(sources: Seq<(Seq<char>, Seq<char>)>, path: Seq<char>, text: Seq<char>) -> Seq<
    (Seq<char>, Seq<char>),
> {
    match file_at(sources, path, 0) {
        Some(i) => sources.update(i, (sources[i].0, text)),
        None => sources.push((path, text)),
    }
}

/// Without the innermost files that wait for nothing any more.
pub open spec fn settled(frames: Seq<FrameModel>) -> Seq<FrameModel>
    decreases frames.len(),
{
    if frames.len() > 0 && frames.last().next >= frames.last().imports.len() {
        settled(frames.drop_last())
    } else {
        frames
    }
}

/// The session once a file was read. A file with errors in or before it merges
/// nothing.
pub open spec fn file_opened(s: SessionModel, path: Seq<char>, text: Seq<char>, nested: bool) -> SessionModel {
    let n = file_number(s.sources, path) as usize;
    let w = text_read(
        text,
        s.cfg,
        BuilderModel { source_id: n, nested, imports: Seq::empty(), ..s.builder },
    );
    let imports = if fatal_count(w.reports, w.reports.len()) > 0 {
        Seq::empty()
    } else {
        w.imports
    };
    SessionModel {
        builder: w,
        sources: with_file(s.sources, path, text),
        processed_files: s.processed_files.push(path),
        frames: settled(
            s.frames.push(FrameModel { path, source_id: n, nested, imports, next: 0 }),
        ),
        ..s
    }
}

/// The innermost file, with the file that it asked for dealt with.
pub open spec fn advanced(frames: Seq<FrameModel>) -> Seq<FrameModel> {
    let top = frames.last();
    frames.drop_last().push(FrameModel { next: (top.next + 1) as usize, ..top })
}

/// The report of a file to merge, the one that `top` asks for, that there is not.
pub open spec fn import_failed(w: BuilderModel, top: FrameModel) -> ReportModel {
    let path = top.imports[top.next as int];
    let at = places_in(w.records, top.source_id, SpanKeyModel::Import(plain_path(path)));
    ReportModel {
        fatal: true,
        kind: ReportKind::Error,
        at: match first_of(at) {
            Some(p) => p,
            None => ReportSpan { source_id: top.source_id, span: Span { start: 0, end: 0 } },
        },
        message: "Import path not found: "@ + path,
        labels: some_labels(rest_of(at), "Also merged here"@),
        notes: omitted_note(rest_of(at), " additional locations omitted"@),
    }
}

/// The session once the file that it asks for was not found.
pub open spec fn import_refused(s: SessionModel) -> SessionModel {
    SessionModel {
        builder: s.builder.reported(import_failed(s.builder, s.frames.last())),
        frames: settled(advanced(s.frames)),
        ..s
    }
}

/// The session once the file that it asks for was found.
pub open spec fn import_supplied(s: SessionModel, path: Seq<char>, text: Seq<char>) -> SessionModel {
    file_opened(SessionModel { frames: advanced(s.frames), ..s }, path, text, true)
}

/// Whether the session asks for a file: the innermost file waits for one.
pub open spec fn waiting(s: SessionModel) -> bool {
    s.frames.len() > 0 && s.frames.last().next < s.frames.last().imports.len()
}

/// How a configuration value is shown.
pub open spec fn pair_text(p: (Seq<char>, Option<Seq<char>>)) -> Seq<char> {
    match p.1 {
        Some(v) => p.0 + "=\""@ + v + "\""@,
        None => p.0,
    }
}

/// How configuration values are shown.
pub open spec fn pair_texts(v: Seq<(Seq<char>, Option<Seq<char>>)>) -> Seq<Seq<char>> {
    Seq::new(v.len(), |i: int| pair_text(v[i]))
}

/// The report of the configuration under which errors came up.
pub open spec fn cfg_report(cfg: CfgModel) -> ReportModel {
    ReportModel {
        fatal: false,
        kind: ReportKind::CfgValues,
        at: nowhere(),
        message: join_text(pair_texts(cfg_pairs(cfg)), "\n"@),
        labels: Seq::empty(),
        notes: Seq::empty(),
    }
}

/// The builder when no more files come.
pub open spec fn session_done(s: SessionModel) -> BuilderModel {
    let w = finished(s.builder);
    if s.record_cfg && fatal_count(w.reports, w.reports.len()) > 0 {
        w.reported(cfg_report(s.cfg))
    } else {
        w
    }
}

/// Whether one configuration value comes before another, or is it.
pub open spec fn pair_le(x: (Seq<char>, Option<Seq<char>>), y: (Seq<char>, Option<Seq<char>>)) -> bool {
    if x.0 != y.0 {
        text_le(x.0, y.0, 0)
    } else {
        match (x.1, y.1) {
            (None, _) => true,
            (Some(_), None) => false,
            (Some(a), Some(b)) => text_le(a, b, 0),
        }
    }
}

/// Ordered values with another one in its place.
pub open spec fn insert_pair(
    v: Seq<(Seq<char>, Option<Seq<char>>)>,
    x: (Seq<char>, Option<Seq<char>>),
) -> Seq<(Seq<char>, Option<Seq<char>>)>
    decreases v.len(),
{
    if v.len() == 0 || pair_le(v.last(), x) {
        v.push(x)
    } else {
        insert_pair(v.drop_last(), x).push(v.last())
    }
}

/// The values in order.
pub open spec fn sort_pairs(v: Seq<(Seq<char>, Option<Seq<char>>)>) -> Seq<
    (Seq<char>, Option<Seq<char>>),
>
    decreases v.len(),
{
    if v.len() == 0 {
        v
    } else {
        insert_pair(sort_pairs(v.drop_last()), v.last())
    }
}

/// A file that is asked for and not found is an error.
pub proof fn law_missing_file_is_an_error(s: SessionModel)
    ensures
        fatal_count(
            import_refused(s).builder.reports,
            import_refused(s).builder.reports.len(),
        ) == fatal_count(s.builder.reports, s.builder.reports.len()) + 1,
{
    let before = s.builder.reports;
    let after = import_refused(s).builder.reports;
    assert(after == before.push(import_failed(s.builder, s.frames.last())));
    lemma_fatal_prefix(before, after, before.len());
}

proof fn lemma_fatal_prefix(a: Seq<ReportModel>, b: Seq<ReportModel>, n: nat)
    requires
        n <= a.len(),
        n <= b.len(),
        forall|i: int| 0 <= i < n ==> a[i] == b[i],
    ensures
        fatal_count(a, n) == fatal_count(b, n),
    decreases n,
{
    if n > 0 {
        lemma_fatal_prefix(a, b, (n - 1) as nat);
    }
}

/// Every file that is read is listed, in the order of reading.
pub proof fn law_read_files_are_listed(
    s: SessionModel,
    path: Seq<char>,
    text: Seq<char>,
)
    ensures
        import_supplied(s, path, text).processed_files == s.processed_files.push(path),
        import_refused(s).processed_files == s.processed_files,
{
}

/// A file in or before which there are errors does not ask for the files that it
/// merges: only files further out still wait.
pub proof fn law_no_merging_after_errors(
    s: SessionModel,
    path: Seq<char>,
    text: Seq<char>,
    nested: bool,
)
    requires
        ({
            let r = file_opened(s, path, text, nested).builder.reports;
            fatal_count(r, r.len()) > 0
        }),
    ensures
        file_opened(s, path, text, nested).frames == settled(s.frames),
{
    let n = file_number(s.sources, path) as usize;
    let f = FrameModel { path, source_id: n, nested, imports: Seq::empty(), next: 0 };
    assert(s.frames.push(f).drop_last() =~= s.frames);
}

/// Putting configuration values in order keeps each of them.
pub proof fn law_sorting_keeps_values(v: Seq<(Seq<char>, Option<Seq<char>>)>)
    ensures
        sort_pairs(v).to_multiset() == v.to_multiset(),
    decreases v.len(),
{
    broadcast use vstd::seq_lib::group_to_multiset_ensures;

    if v.len() > 0 {
        law_sorting_keeps_values(v.drop_last());
        lemma_insert_keeps(sort_pairs(v.drop_last()), v.last());
        assert(v.drop_last().push(v.last()) =~= v);
    }
}

proof fn lemma_insert_keeps(
    v: Seq<(Seq<char>, Option<Seq<char>>)>,
    x: (Seq<char>, Option<Seq<char>>),
)
    ensures
        insert_pair(v, x).to_multiset() == v.to_multiset().insert(x),
    decreases v.len(),
{
    broadcast use vstd::seq_lib::group_to_multiset_ensures;

    if v.len() == 0 || pair_le(v.last(), x) {
    } else {
        lemma_insert_keeps(v.drop_last(), x);
        assert(v.drop_last().push(v.last()) =~= v);
        assert(insert_pair(v, x).to_multiset() =~= v.to_multiset().insert(x));
    }
}

fn pair_before(x: &(String, Option<String>), y: &(String, Option<String>)) -> (r: bool)
    ensures
        r == pair_le((x.0@, opt_text(x.1)), (y.0@, opt_text(y.1))),
{
    if x.0 != y.0 {
        return text_before(&x.0, &y.0);
    }
    match (&x.1, &y.1) {
        (None, _) => true,
        (Some(_), None) => false,
        (Some(a), Some(b)) => text_before(a, b),
    }
}

fn put_pair(v: &mut Vec<(String, Option<String>)>, x: (String, Option<String>))
    ensures
        cfg_view(final(v)@) == insert_pair(cfg_view(old(v)@), (x.0@, opt_text(x.1))),
{
    let ghost all = cfg_view(v@);
    let ghost key = (x.0@, opt_text(x.1));
    let mut i: usize = v.len();
    proof {
        assert(all.take(i as int) =~= all);
        assert(insert_pair(all, key) + all.skip(i as int) =~= insert_pair(all, key));
    }
    while i > 0 && !pair_before(&v[i - 1], &x)
        invariant
            i <= v.len(),
            v@ == old(v)@,
            all == cfg_view(v@),
            key == (x.0@, opt_text(x.1)),
            insert_pair(all.take(i as int), key) + all.skip(i as int) == insert_pair(all, key),
        decreases i,
    {
        proof {
            let t = all.take(i as int);
            assert(t.last() == all[i - 1]);
            assert(t.drop_last() =~= all.take(i - 1));
            assert(insert_pair(t, key) + all.skip(i as int) =~= insert_pair(
                all.take(i - 1),
                key,
            ) + all.skip(i - 1));
        }
        i -= 1;
    }
    proof {
        let t = all.take(i as int);
        if i > 0 {
            assert(t.last() == all[i - 1]);
        }
        assert(insert_pair(t, key) == t.push(key));
        assert(t.push(key) + all.skip(i as int) =~= all.insert(i as int, key));
    }
    v.insert(i, x);
    proof {
        assert(cfg_view(v@) =~= all.insert(i as int, key));
    }
}

fn sorted_pairs(v: Vec<(String, Option<String>)>) -> (r: Vec<(String, Option<String>)>)
    ensures
        cfg_view(r@) == sort_pairs(cfg_view(v@)),
{
    let mut r: Vec<(String, Option<String>)> = Vec::new();
    let mut i: usize = 0;
    let ghost all = cfg_view(v@);
    proof {
        assert(all.take(0) =~= Seq::empty());
        assert(cfg_view(r@) =~= Seq::empty());
    }
    while i < v.len()
        invariant
            i <= v.len(),
            all == cfg_view(v@),
            cfg_view(r@) == sort_pairs(all.take(i as int)),
        decreases v.len() - i,
    {
        let x = (v[i].0.clone(), crate::def::opt_text_copy(&v[i].1));
        proof {
            let t = all.take(i + 1);
            assert(t.drop_last() =~= all.take(i as int));
            assert(t.last() == all[i as int]);
        }
        put_pair(&mut r, x);
        i += 1;
    }
    proof {
        assert(all.take(i as int) =~= all);
    }
    r
}

/// What came of reading a file and all that it merges.
pub struct ParseResult {
    pub spec: ZngurSpec,
    /// The files that were read, in the order of reading.
    pub processed_files: Vec<String>,
    /// The number of fatal reports.
    pub errors: usize,
    /// The number of other reports.
    pub warnings: usize,
    pub reports: Vec<Report>,
    /// The paths and texts of the files, by the numbers that reports use.
    pub sources: Vec<(String, String)>,
}

/// What a list of paths and texts holds.
pub open spec fn sources_view(v: Seq<(String, String)>) -> Seq<(Seq<char>, Seq<char>)> {
    Seq::new(v.len(), |i: int| (v[i].0@, v[i].1@))
}

fn settle(frames: &mut Vec<Frame>)
    ensures
        frames_view(final(frames)@) == settled(frames_view(old(frames)@)),
{
    while frames.len() > 0 && frames[frames.len() - 1].next >= frames[frames.len()
        - 1].imports.len()
        invariant
            settled(frames_view(frames@)) == settled(frames_view(old(frames)@)),
        decreases frames.len(),
    {
        let ghost before = frames@;
        proof {
            assert(frames_view(before).last() == before.last().view());
            assert(texts(before.last().imports@).len() == before.last().imports@.len());
        }
        let _ = frames.pop();
        proof {
            assert(frames_view(frames@) =~= frames_view(before).drop_last());
        }
    }
    proof {
        if frames@.len() > 0 {
            assert(frames_view(frames@).last() == frames@.last().view());
            assert(texts(frames@.last().imports@).len() == frames@.last().imports@.len());
        }
    }
}

proof fn lemma_settled_waits(frames: Seq<FrameModel>)
    ensures
        settled(frames).len() > 0 ==> settled(frames).last().next < settled(
            frames,
        ).last().imports.len(),
    decreases frames.len(),
{
    if frames.len() > 0 && frames.last().next >= frames.last().imports.len() {
        lemma_settled_waits(frames.drop_last());
    }
}

proof fn lemma_file_at(v: Seq<(Seq<char>, Seq<char>)>, path: Seq<char>, i: int)
    requires
        0 <= i <= v.len(),
    ensures
        match file_at(v, path, i) {
            Some(k) => i <= k < v.len() && plain_path(v[k].0) == plain_path(path) && entry_at(
                v,
                v[k].0,
                i,
            ) == Some(k),
            None => entry_at(v, path, i) is None,
        },
    decreases v.len() - i,
{
    if i < v.len() && plain_path(v[i].0) != plain_path(path) {
        lemma_file_at(v, path, i + 1);
    }
}

/// Adds a file, and tells its number.
fn add_file(
    sources: &mut indexmap::IndexMap<String, String, RandomState>,
    path: &str,
    text: &str,
) -> (n: usize)
    ensures
        n == file_number(map_entries(*old(sources)), path@),
        map_entries(*final(sources)) == with_file(map_entries(*old(sources)), path@, text@),
{
    let plain = to_plain_path(path);
    let files = list_sources(sources);
    let mut key = String::from_str(path);
    let mut i: usize = 0;
    let ghost all = map_entries(*sources);
    proof {
        lemma_file_at(all, path@, 0);
        assert(sources_view(files@).len() == files@.len());
    }
    while i < files.len()
        invariant_except_break
            key@ == path@,
            file_at(all, path@, i as int) == file_at(all, path@, 0),
        invariant
            all == sources_view(files@),
            all.len() == files@.len(),
            plain@ == plain_path(path@),
            i <= files.len(),
        ensures
            match file_at(all, path@, 0) {
                Some(k) => key@ == all[k].0,
                None => key@ == path@,
            },
        decreases files.len() - i,
    {
        proof {
            assert(all[i as int].0 == files@[i as int].0@);
        }
        if str_eq(to_plain_path(files[i].0.as_str()).as_str(), plain.as_str()) {
            key = files[i].0.clone();
            break;
        }
        i += 1;
    }
    map_insert(sources, key, String::from_str(text))
}

/// The paths and texts of the files.
fn list_sources(sources: &indexmap::IndexMap<String, String, RandomState>) -> (files: Vec<
    (String, String),
>)
    ensures
        sources_view(files@) == map_entries(*sources),
{
    let mut files: Vec<(String, String)> = Vec::new();
    loop
        invariant
            files@.len() <= map_entries(*sources).len(),
            sources_view(files@) == map_entries(*sources).take(files@.len() as int),
        ensures
            sources_view(files@) == map_entries(*sources),
        decreases map_entries(*sources).len() - files@.len(),
    {
        match map_get(sources, files.len()) {
            Some(e) => {
                let entry = (e.0.clone(), e.1.clone());
                let ghost before = files@;
                files.push(entry);
                proof {
                    let all = map_entries(*sources);
                    assert(sources_view(files@) =~= sources_view(before).push(
                        (entry.0@, entry.1@),
                    ));
                    assert(all.take(files@.len() as int) =~= all.take(
                        before.len() as int,
                    ).push(all[before.len() as int]));
                }
            },
            None => {
                proof {
                    let all = map_entries(*sources);
                    assert(all.take(files@.len() as int) =~= all);
                }
                break;
            },
        }
    }
    files
}

impl ParseSession {
    pub closed spec fn view(&self) -> SessionModel {
        SessionModel {
            builder: self.builder.view(),
            cfg: self.cfg.view(),
            sources: map_entries(self.sources),
            processed_files: texts(self.processed_files@),
            frames: frames_view(self.frames@),
            record_cfg: self.record_cfg,
        }
    }

    /// A session in which files are left over asks for one.
    #[verifier::type_invariant]
    spec fn asks_for_a_file(&self) -> bool {
        self.frames@.len() > 0 ==> self.frames@.last().next < self.frames@.last().imports@.len()
    }

    /// Starts with a file. With `record_cfg` the interface keeps the configuration,
    /// and errors come with a report of it.
    pub fn new(path: &str, text: &str, cfg: InMemoryRustCfgProvider, record_cfg: bool) -> (r:
        ParseSession)
        ensures
            r@ == file_opened(
                SessionModel {
                    builder: new_builder(
                        if record_cfg {
                            sort_pairs(cfg_pairs(cfg@))
                        } else {
                            Seq::empty()
                        },
                    ),
                    cfg: cfg@,
                    sources: Seq::empty(),
                    processed_files: Seq::empty(),
                    frames: Seq::empty(),
                    record_cfg,
                },
                path@,
                text@,
                false,
            ),
    {
        let rust_cfg = if record_cfg {
            sorted_pairs(cfg.get_cfg_pairs())
        } else {
            Vec::new()
        };
        let mut spec = ZngurSpec::empty();
        spec.rust_cfg = rust_cfg;
        let builder = ZngurSpecBuilder {
            spec,
            templates: Vec::new(),
            imports: Vec::new(),
            source_id: 0,
            nested: false,
            reports: Vec::new(),
            records: Vec::new(),
        };
        proof {
            if !record_cfg {
                assert(cfg_view(rust_cfg@) =~= Seq::empty());
            }
            assert(builder@ =~= new_builder(
                if record_cfg {
                    sort_pairs(cfg_pairs(cfg@))
                } else {
                    Seq::empty()
                },
            ));
        }
        let frames: Vec<Frame> = Vec::new();
        let processed_files: Vec<String> = Vec::new();
        proof {
            assert(frames_view(frames@) =~= Seq::empty());
            assert(texts(processed_files@) =~= Seq::empty());
        }
        ParseSession::open_file(
            builder,
            cfg,
            new_map(),
            processed_files,
            frames,
            record_cfg,
            path,
            text,
            false,
        )
    }

    fn open_file(
        builder: ZngurSpecBuilder,
        cfg: InMemoryRustCfgProvider,
        sources: indexmap::IndexMap<String, String, RandomState>,
        processed_files: Vec<String>,
        frames: Vec<Frame>,
        record_cfg: bool,
        path: &str,
        text: &str,
        nested: bool,
    ) -> (r: ParseSession)
        ensures
            r@ == file_opened(
                SessionModel {
                    builder: builder@,
                    cfg: cfg@,
                    sources: map_entries(sources),
                    processed_files: texts(processed_files@),
                    frames: frames_view(frames@),
                    record_cfg,
                },
                path@,
                text@,
                nested,
            ),
    {
        let mut w = builder;
        let mut sources = sources;
        let mut processed_files = processed_files;
        let mut frames = frames;
        let n = add_file(&mut sources, path, text);
        let name = String::from_str(path);
        proof {
            lemma_texts_push(processed_files@, name);
        }
        processed_files.push(name);
        w.source_id = n;
        w.nested = nested;
        w.imports = Vec::new();
        proof {
            assert(texts(w.imports@) =~= Seq::empty());
        }
        read_text(text, &cfg, &mut w);
        proof {
            assert(reports_view(w.reports@).len() == w.reports@.len());
        }
        let imports = if count_fatal(&w.reports) > 0 {
            Vec::new()
        } else {
            strings_copy(&w.imports)
        };
        proof {
            if fatal_count(w@.reports, w@.reports.len()) > 0 {
                assert(texts(imports@) =~= Seq::empty());
            }
        }
        let f = Frame { path: String::from_str(path), source_id: n, nested, imports, next: 0 };
        proof {
            assert(frames_view(frames@.push(f)) =~= frames_view(frames@).push(f@));
        }
        frames.push(f);
        let ghost all = frames_view(frames@);
        settle(&mut frames);
        proof {
            lemma_settled_waits(all);
            if frames@.len() > 0 {
                assert(frames_view(frames@).last() == frames@.last().view());
                assert(texts(frames@.last().imports@).len() == frames@.last().imports@.len());
            }
        }
        ParseSession { builder: w, cfg, sources, processed_files, frames, record_cfg }
    }

    /// The file that is asked for: the path of the file that merges it, and its
    /// own path as that file names it.
    pub fn pending(&self) -> (r: Option<(String, String)>)
        ensures
            r is Some <==> waiting(self@),
            r matches Some(p) ==> ({
                let top = self@.frames.last();
                &&& p.0@ == top.path
                &&& p.1@ == top.imports[top.next as int]
                &&& top.imports.len() <= usize::MAX
            }),
            r is None ==> self@.frames.len() == 0,
    {
        proof {
            use_type_invariant(self);
            if self.frames@.len() > 0 {
                assert(frames_view(self.frames@).last() == self.frames@.last().view());
                assert(texts(self.frames@.last().imports@).len()
                    == self.frames@.last().imports@.len());
            }
        }
        if self.frames.len() == 0 {
            return None;
        }
        let top = &self.frames[self.frames.len() - 1];
        let n: usize = top.imports.len();
        proof {
            assert(n == texts(top.imports@).len());
        }
        Some((top.path.clone(), top.imports[top.next].clone()))
    }

    /// Goes on with the file that was asked for; `path` is its full path.
    pub fn supply(self, path: &str, text: &str) -> (r: ParseSession)
        requires
            waiting(self@),
        ensures
            r@ == import_supplied(self@, path@, text@),
    {
        proof {
            use_type_invariant(&self);
            assert(frames_view(self.frames@).last() == self.frames@.last().view());
        }
        let ghost before = self.frames@;
        let ParseSession { builder, cfg, sources, processed_files, frames, record_cfg } = self;
        let mut frames = frames;
        advance(&mut frames);
        ParseSession::open_file(
            builder,
            cfg,
            sources,
            processed_files,
            frames,
            record_cfg,
            path,
            text,
            true,
        )
    }

    /// Goes on without the file that was asked for, which there is not.
    pub fn refuse(self) -> (r: ParseSession)
        requires
            waiting(self@),
        ensures
            r@ == import_refused(self@),
    {
        proof {
            use_type_invariant(&self);
            assert(frames_view(self.frames@).last() == self.frames@.last().view());
        }
        let ParseSession { builder, cfg, sources, processed_files, frames, record_cfg } = self;
        let mut builder = builder;
        let mut frames = frames;
        let r = build_import_report(&builder, &frames[frames.len() - 1]);
        builder.add_report(r);
        advance(&mut frames);
        let ghost all = frames_view(frames@);
        settle(&mut frames);
        proof {
            lemma_settled_waits(all);
            if frames@.len() > 0 {
                assert(frames_view(frames@).last() == frames@.last().view());
                assert(texts(frames@.last().imports@).len() == frames@.last().imports@.len());
            }
        }
        ParseSession { builder, cfg, sources, processed_files, frames, record_cfg }
    }

    /// The reports so far.
    pub fn reports(&self) -> (r: &Vec<Report>)
        ensures
            reports_view(r@) == self@.builder.reports,
    {
        &self.builder.reports
    }

    /// The paths and texts of the files so far, by the numbers that reports use.
    pub fn sources(&self) -> (r: Vec<(String, String)>)
        ensures
            sources_view(r@) == self@.sources,
    {
        list_sources(&self.sources)
    }

    /// Ends the reading.
    pub fn finish(self) -> (r: ParseResult)
        ensures
            ({
                let w = session_done(self@);
                &&& r.spec@ == w.spec
                &&& reports_view(r.reports@) == w.reports
                &&& r.errors == fatal_count(w.reports, w.reports.len())
                &&& r.errors + r.warnings == w.reports.len()
                &&& texts(r.processed_files@) == self@.processed_files
                &&& sources_view(r.sources@) == self@.sources
            }),
    {
        let ParseSession { builder, cfg, sources, processed_files, frames, record_cfg } = self;
        let mut w = builder;
        w.to_zngur();
        proof {
            assert(reports_view(w.reports@).len() == w.reports@.len());
        }
        if record_cfg && count_fatal(&w.reports) > 0 {
            w.add_report(build_cfg_report(&cfg));
        }
        let files = list_sources(&sources);
        proof {
            assert(reports_view(w.reports@).len() == w.reports@.len());
        }
        let errors = count_fatal(&w.reports);
        ParseResult {
            spec: w.spec,
            processed_files,
            errors,
            warnings: w.reports.len() - errors,
            reports: w.reports,
            sources: files,
        }
    }
}

fn advance(frames: &mut Vec<Frame>)
    requires
        old(frames)@.len() > 0,
        old(frames)@.last().next < old(frames)@.last().imports@.len(),
    ensures
        frames_view(final(frames)@) == advanced(frames_view(old(frames)@)),
{
    let ghost before = frames@;
    let i: usize = frames.len() - 1;
    let n: usize = frames[i].next;
    proof {
        assert(frames_view(before).last() == before.last().view());
    }
    if n < frames[i].imports.len() {
        frames[i].next = n + 1;
    }
    proof {
        assert(frames_view(frames@) =~= frames_view(before).drop_last().push(
            frames@[i as int].view(),
        ));
    }
}

fn build_import_report(w: &ZngurSpecBuilder, top: &Frame) -> (r: Report)
    requires
        top.next < top.imports@.len(),
    ensures
        r@ == import_failed(w@, top@),
{
    let path = top.imports[top.next].clone();
    let mut at = find_places_in(
        &w.records,
        top.source_id,
        &SpanKey::Import(to_plain_path(path.as_str())),
    );
    let ghost all = at@;
    let first = if at.len() > 0 {
        let x = at.remove(0);
        proof {
            assert(at@ =~= all.skip(1));
        }
        Some(x)
    } else {
        None
    };
    let mut message = String::from_str("Import path not found: ");
    message.append(path.as_str());
    let mut labels: Vec<Label> = Vec::new();
    let mut i: usize = 0;
    let ghost want = some_labels(at@, "Also merged here"@);
    while i < at.len() && i < 3
        invariant
            i <= at.len(),
            i <= 3,
            want == some_labels(at@, "Also merged here"@),
            labels.len() == i,
            forall|k: int| 0 <= k < i ==> (#[trigger] labels@[k]).view() == want[k],
        decreases at.len() - i,
    {
        labels.push(
            Label { at: at[i], message: String::from_str("Also merged here"), color: Color::Blue },
        );
        i += 1;
    }
    let mut notes: Vec<String> = Vec::new();
    if at.len() >= 3 {
        let mut n = decimal(at.len() - 2);
        n.append(" additional locations omitted");
        notes.push(n);
    }
    let r = Report {
        fatal: true,
        kind: ReportKind::Error,
        at: match first {
            Some(p) => p,
            None => ReportSpan { source_id: top.source_id, span: Span { start: 0, end: 0 } },
        },
        message,
        labels,
        notes,
    };
    proof {
        assert(r@.labels =~= want);
        assert(r@.notes =~= omitted_note(at@, " additional locations omitted"@));
    }
    r
}

fn build_cfg_report(cfg: &InMemoryRustCfgProvider) -> (r: Report)
    ensures
        r@ == cfg_report(cfg@),
{
    let pairs = cfg.get_cfg_pairs();
    let mut lines: Vec<String> = Vec::new();
    let mut i: usize = 0;
    while i < pairs.len()
        invariant
            i <= pairs.len(),
            lines.len() == i,
            forall|k: int|
                0 <= k < i ==> (#[trigger] lines@[k])@ == pair_texts(cfg_view(pairs@))[k],
        decreases pairs.len() - i,
    {
        let mut s = pairs[i].0.clone();
        match &pairs[i].1 {
            Some(v) => {
                s.append("=\"");
                s.append(v.as_str());
                s.append("\"");
            },
            None => {},
        }
        lines.push(s);
        i += 1;
    }
    proof {
        assert(texts(lines@) =~= pair_texts(cfg_view(pairs@)));
    }
    let r = Report {
        fatal: false,
        kind: ReportKind::CfgValues,
        at: ReportSpan { source_id: 0, span: Span { start: 0, end: 0 } },
        message: join(&lines, "\n"),
        labels: Vec::new(),
        notes: Vec::new(),
    };
    proof {
        assert(r@.labels =~= Seq::empty());
        assert(r@.notes =~= Seq::empty());
    }
    r
}

/// A file of an interface.
pub struct ParsedZngFile;

/// The session that reads one file alone: no file that it merges is found.
pub open spec fn alone(s: SessionModel, n: nat) -> SessionModel
    decreases n,
{
    if n > 0 && waiting(s) {
        alone(import_refused(s), (n - 1) as nat)
    } else {
        s
    }
}

impl ParsedZngFile {
    /// Reads a text as the file `test.zng`, where no other file can be found.
    pub fn parse_str(text: &str, cfg: InMemoryRustCfgProvider) -> (r: ParseResult)
        ensures
            ({
                let s = file_opened(
                    SessionModel {
                        builder: new_builder(Seq::empty()),
                        cfg: cfg@,
                        sources: Seq::empty(),
                        processed_files: Seq::empty(),
                        frames: Seq::empty(),
                        record_cfg: false,
                    },
                    "test.zng"@,
                    text@,
                    false,
                );
                let waits = if s.frames.len() > 0 {
                    s.frames.last().imports.len()
                } else {
                    0
                };
                let done = alone(s, waits);
                let w = session_done(done);
                &&& !waiting(done)
                &&& r.spec@ == w.spec
                &&& reports_view(r.reports@) == w.reports
                &&& r.errors == fatal_count(w.reports, w.reports.len())
                &&& r.errors + r.warnings == w.reports.len()
                &&& texts(r.processed_files@) == done.processed_files
                &&& sources_view(r.sources@) == done.sources
            }),
    {
        let mut s = ParseSession::new("test.zng", text, cfg, false);
        let ghost s0 = s@;
        let ghost waits = if s0.frames.len() > 0 {
            s0.frames.last().imports.len()
        } else {
            0
        };
        let ghost mut left: nat = waits;
        proof {
            lemma_one_frame(
                SessionModel {
                    builder: new_builder(Seq::empty()),
                    cfg: cfg@,
                    sources: Seq::empty(),
                    processed_files: Seq::empty(),
                    frames: Seq::empty(),
                    record_cfg: false,
                },
                "test.zng"@,
                text@,
            );
        }
        loop
            invariant
                alone(s@, left) == alone(s0, waits),
                s@.frames.len() <= 1,
                s@.frames.len() == 1 ==> left + s@.frames[0].next >= s@.frames[0].imports.len(),
            ensures
                s@ == alone(s0, waits),
                !waiting(s@),
            decreases left,
        {
            match s.pending() {
                Some(_) => {
                    let ghost before = s@;
                    s = s.refuse();
                    proof {
                        let a = advanced(before.frames);
                        let top = before.frames.last();
                        assert(a.len() == 1);
                        assert(a[0] == (FrameModel { next: (top.next + 1) as usize, ..top }));
                        assert(a.drop_last() =~= Seq::empty());
                        assert(s@.frames == settled(a));
                        assert(settled(a.drop_last()) =~= Seq::empty());
                        left = (left - 1) as nat;
                    }
                },
                None => {
                    break;
                },
            }
        }
        s.finish()
    }
}

proof fn lemma_one_frame(s: SessionModel, path: Seq<char>, text: Seq<char>)
    requires
        s.frames.len() == 0,
    ensures
        file_opened(s, path, text, false).frames.len() <= 1,
        file_opened(s, path, text, false).frames.len() == 1 ==> file_opened(
            s,
            path,
            text,
            false,
        ).frames[0].next == 0,
{
    let f = file_opened(s, path, text, false).frames;
    let n = file_number(s.sources, path) as usize;
    let w = file_opened(s, path, text, false).builder;
    let imports = if fatal_count(w.reports, w.reports.len()) > 0 {
        Seq::empty()
    } else {
        w.imports
    };
    let all = s.frames.push(FrameModel { path, source_id: n, nested: false, imports, next: 0 });
    assert(f == settled(all));
    assert(all.drop_last() =~= s.frames);
    assert(settled(s.frames) =~= s.frames);
}

} // verus!
