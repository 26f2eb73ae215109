//! Diagnostics: errors in structured form, and as reports for a terminal.

use crate::ast::Span;
use crate::hir::error::{HirError, HirErrorKind};
use crate::hir::messages::{label_views, message_of, rich_of};
use crate::source_map::{file_at, with_file, has_room, FileId, FileView, SourceMap};
use crate::text::{
    decimal, lemma_numbered_injective, push_decimal, push_signed, push_text, signed_decimal, text_eq,
};
use ariadne::{Color, Report, ReportKind};
use vstd::prelude::*;

verus! {

#[derive(Debug, Clone, Copy, PartialEq, Eq, Structural)]
pub enum Severity {
    Error,
    Warning,
}

/// A labelled span, in plain text.
#[derive(Debug)]
pub struct Label {
    pub span: Span,
    pub message: String,
}

pub ghost struct LabelView {
    pub span: Span,
    pub message: Seq<char>,
}

impl View for Label {
    type V = LabelView;

    open spec fn view(&self) -> LabelView {
        LabelView { span: self.span, message: self.message@ }
    }
}

/// A diagnostic in structured, plain-text form.
#[derive(Debug)]
pub struct RichDiagnostic {
    pub severity: Severity,
    pub code: Option<&'static str>,
    pub message: String,
    pub primary: Option<Label>,
    pub secondary: Vec<Label>,
    pub note: Option<String>,
    pub help: Option<String>,
}

pub ghost struct RichView {
    pub severity: Severity,
    pub code: Option<&'static str>,
    pub message: Seq<char>,
    pub primary: Option<LabelView>,
    pub secondary: Seq<LabelView>,
    pub note: Option<Seq<char>>,
    pub help: Option<Seq<char>>,
}

pub open spec fn text_of(text: Option<String>) -> Option<Seq<char>> {
    match text {
        Some(text) => Some(text@),
        None => None,
    }
}

impl View for RichDiagnostic {
    type V = RichView;

    open spec fn view(&self) -> RichView {
        RichView {
            severity: self.severity,
            code: self.code,
            message: self.message@,
            primary: match self.primary {
                Some(label) => Some(label@),
                None => None,
            },
            secondary: label_views(self.secondary@),
            note: text_of(self.note),
            help: text_of(self.help),
        }
    }
}

pub open spec fn rich_views(diagnostics: Seq<RichDiagnostic>) -> Seq<RichView> {
    diagnostics.map_values(|diagnostic: RichDiagnostic| diagnostic@)
}

/// An error with a message and nothing else.
pub open spec fn bare_view(message: Seq<char>) -> RichView {
    RichView {
        severity: Severity::Error,
        code: None,
        message,
        primary: None,
        secondary: Seq::empty(),
        note: None,
        help: None,
    }
}

impl RichView {
    /// The diagnostic as plain text: the message, and below it what there is of the label, the
    /// note and the help.
    pub open spec fn text(self) -> Seq<char> {
        let labelled = match self.primary {
            Some(primary) => if primary.message.len() == 0 {
                self.message
            } else {
                self.message + "\n"@ + primary.message
            },
            None => self.message,
        };
        let noted = match self.note {
            Some(note) => labelled + "\nnote: "@ + note,
            None => labelled,
        };
        match self.help {
            Some(help) => noted + "\nhelp: "@ + help,
            None => noted,
        }
    }

    /// The report of the diagnostic, with its labels in order.
    pub open spec fn report(self) -> ReportView {
        let labelled = match self.primary {
            Some(primary) => ReportView::of(self.message).primary(primary.span, primary.message),
            None => ReportView::of(self.message),
        };
        let all = labelled.secondaries(self.secondary, 0);
        let noted = match self.note {
            Some(note) => ReportView { note: Some(note), ..all },
            None => all,
        };
        match self.help {
            Some(help) => ReportView { help: Some(help), ..noted },
            None => noted,
        }
    }
}

impl RichDiagnostic {
    pub fn bare(message: String) -> (rich: RichDiagnostic)
        ensures
            rich@ == bare_view(message@),
    {
        let rich = RichDiagnostic {
            severity: Severity::Error,
            code: None,
            message,
            primary: None,
            secondary: Vec::new(),
            note: None,
            help: None,
        };
        assert(rich@.secondary =~= Seq::empty());
        rich
    }

    /// The diagnostic as plain text.
    pub fn text(&self) -> (text: String)
        ensures
            text@ == self@.text(),
    {
        let mut text = self.message.as_str().to_owned();
        match &self.primary {
            Some(primary) => {
                if !primary.message.as_str().is_empty() {
                    push_text(&mut text, "\n");
                    push_text(&mut text, primary.message.as_str());
                }
            },
            None => {},
        }
        match &self.note {
            Some(note) => {
                push_text(&mut text, "\nnote: ");
                push_text(&mut text, note.as_str());
            },
            None => {},
        }
        match &self.help {
            Some(help) => {
                push_text(&mut text, "\nhelp: ");
                push_text(&mut text, help.as_str());
            },
            None => {},
        }
        text
    }
}

/// Forgets the files registered so far.
pub fn reset(map: &mut SourceMap)
    ensures
        final(map)@ == Seq::<FileView>::empty(),
{
    *map = SourceMap::new();
}

/// Registers a file and gives its number and the offset its spans are relative to.
pub fn add_file(map: &mut SourceMap, name: String, text: String) -> (place: (FileId, u32))
    requires
        has_room(old(map)@),
    ensures
        final(map)@ == with_file(old(map)@, name@, text@),
        place == (final(map)@.last().id, final(map)@.last().start),
{
    map.add_file(name, text)
}

/// Takes the files out, leaving none behind.
pub fn take_source_map(map: &mut SourceMap) -> (taken: SourceMap)
    ensures
        taken@ == old(map)@,
        final(map)@ == Seq::<FileView>::empty(),
{
    let mut taken = SourceMap::new();
    std::mem::swap(map, &mut taken);
    taken
}

/// The colour of a label: the terminal's own or a given one.
#[derive(Debug, Clone, Copy, PartialEq, Eq, Structural)]
pub enum LabelColor {
    Primary,
    Rgb(u8, u8, u8),
}

/// A report in the making.
#[derive(Debug)]
pub struct Builder {
    pub message: String,
    /// Each label with its colour
    pub labels: Vec<(Span, String, LabelColor)>,
    pub note: Option<String>,
    pub help: Option<String>,
}

pub ghost struct ReportView {
    pub message: Seq<char>,
    pub labels: Seq<(Span, Seq<char>, LabelColor)>,
    pub note: Option<Seq<char>>,
    pub help: Option<Seq<char>>,
}

impl View for Builder {
    type V = ReportView;

    open spec fn view(&self) -> ReportView {
        ReportView {
            message: self.message@,
            labels: self.labels@.map_values(
                |label: (Span, String, LabelColor)| (label.0, label.1@, label.2),
            ),
            note: text_of(self.note),
            help: text_of(self.help),
        }
    }
}

/// The colour of the primary label.
pub open spec fn primary_color() -> LabelColor {
    LabelColor::Rgb(243, 139, 168)
}

/// An offset relative to the start of its file.
#[verifier::allow_in_spec]
pub fn local_offset(offset: u32, start: u32) -> usize
    returns
        (if offset >= start {
            (offset - start) as usize
        } else {
            0usize
        }),
{
    if offset >= start {
        (offset - start) as usize
    } else {
        0
    }
}

/// The file a label is shown in: the first if its span is in none.
pub open spec fn label_file(files: Seq<FileView>, span: Span) -> int {
    match file_at(files, span.start, files.len()) {
        Some(index) => index as int,
        None => 0,
    }
}

/// Whether no two files have the same name.
pub open spec fn names_differ(files: Seq<FileView>) -> bool {
    forall|i: int, j: int|
        0 <= i < j < files.len() ==> (#[trigger] files[i]).name != (#[trigger] files[j]).name
}

/// What a report calls a file: its name, with the file's number where names alone do not tell
/// files apart.
pub open spec fn file_key(files: Seq<FileView>, index: int) -> Seq<char> {
    if names_differ(files) {
        files[index].name
    } else {
        files[index].name + "#"@ + decimal(index as nat)
    }
}

/// A report tells all files apart, so every label is drawn over the text of its own file.
pub proof fn lemma_keys_unique(files: Seq<FileView>, i: int, j: int)
    requires
        0 <= i < files.len(),
        0 <= j < files.len(),
        file_key(files, i) == file_key(files, j),
    ensures
        i == j,
{
    if !names_differ(files) {
        reveal_strlit("#");
        let (f, g) = (files[i].name, files[j].name);
        assert(f.push('#') + decimal(i as nat) =~= file_key(files, i));
        assert(g.push('#') + decimal(j as nat) =~= file_key(files, j));
        lemma_numbered_injective(f, i as nat, g, j as nat, '#');
    }
}

fn distinct_names(map: &SourceMap) -> (distinct: bool)
    ensures
        distinct == names_differ(map@),
{
    let mut i: usize = 0;
    while i < map.files.len()
        invariant
            i <= map.files@.len(),
            forall|k: int, l: int|
                0 <= k < l < i ==> (#[trigger] map@[k]).name != (#[trigger] map@[l]).name,
        decreases map.files@.len() - i,
    {
        let mut j: usize = 0;
        while j < i
            invariant
                j <= i < map.files@.len(),
                forall|k: int| 0 <= k < j ==> (#[trigger] map@[k]).name != map@[i as int].name,
            decreases i - j,
        {
            assert(map@[i as int] == map.files@[i as int]@);
            assert(map@[j as int] == map.files@[j as int]@);
            if text_eq(map.files[j].name.as_str(), map.files[i].name.as_str()) {
                return false;
            }
            j = j + 1;
        }
        i = i + 1;
    }
    true
}

fn key_of(map: &SourceMap, index: usize, distinct: bool) -> (key: String)
    requires
        index < map@.len(),
        distinct == names_differ(map@),
    ensures
        key@ == file_key(map@, index as int),
{
    assert(map@[index as int] == map.files@[index as int]@);
    let mut key = map.files[index].name.as_str().to_owned();
    if !distinct {
        push_text(&mut key, "#");
        push_decimal(&mut key, index as u128);
    }
    key
}

impl ReportView {
    pub open spec fn of(message: Seq<char>) -> ReportView {
        ReportView { message, labels: Seq::empty(), note: None, help: None }
    }

    pub open spec fn primary(self, span: Span, text: Seq<char>) -> ReportView {
        ReportView { labels: seq![(span, text, primary_color())] + self.labels, ..self }
    }

    pub open spec fn secondary(self, span: Span, text: Seq<char>) -> ReportView {
        ReportView { labels: self.labels.push((span, text, LabelColor::Primary)), ..self }
    }

    pub open spec fn secondaries(self, labels: Seq<LabelView>, at: nat) -> ReportView
        decreases labels.len() - at,
    {
        if at >= labels.len() {
            self
        } else {
            self.secondary(labels[at as int].span, labels[at as int].message).secondaries(
                labels,
                at + 1,
            )
        }
    }

    /// The labels as a report shows them: by file, with offsets relative to its start.
    pub open spec fn local_labels(self, files: Seq<FileView>) -> Seq<
        (Seq<char>, usize, usize, Seq<char>, LabelColor),
    > {
        Seq::new(
            self.labels.len(),
            |i: int|
                {
                    let (span, text, color) = self.labels[i];
                    let file = label_file(files, span);
                    (
                        file_key(files, file),
                        local_offset(span.start, files[file].start),
                        local_offset(span.end, files[file].start),
                        text,
                        color,
                    )
                },
        )
    }

    /// The files that the labels are in.
    pub open spec fn label_sources(self, files: Seq<FileView>) -> Seq<(Seq<char>, Seq<char>)> {
        Seq::new(
            self.labels.len(),
            |i: int|
                {
                    let file = label_file(files, self.labels[i].0);
                    (file_key(files, file), files[file].text)
                },
        )
    }

    /// Where the report is: at the start of the first label.
    pub open spec fn anchor(self, files: Seq<FileView>) -> (Seq<char>, usize) {
        let first = self.local_labels(files)[0];
        (first.0, first.1)
    }

    /// Whether `text` is the report: the message alone if there is no place to show, and else
    /// what is drawn, with whatever colours are switched on as it is.
    pub open spec fn renders(self, files: Seq<FileView>, text: Seq<char>) -> bool {
        if self.labels.len() == 0 || files.len() == 0 {
            text == self.message
        } else {
            exists|painted: Seq<bool>|
                text == #[trigger] report_text(
                    painted,
                    self.message,
                    self.anchor(files),
                    self.local_labels(files),
                    self.note,
                    self.help,
                    self.label_sources(files),
                )
        }
    }

    /// Whether no label ends before it starts.
    pub open spec fn is_ordered(self) -> bool {
        forall|i: int|
            0 <= i < self.labels.len() ==> (#[trigger] self.labels[i]).0.start
                <= self.labels[i].0.end
    }
}

/// Whether every file is short enough to number its lines.
pub open spec fn files_fit(files: Seq<FileView>) -> bool {
    forall|i: int| 0 <= i < files.len() ==> (#[trigger] files[i]).text.len() < 1_000_000_000
}

/// What `ariadne` writes for an error report with the given message, place (file and offset),
/// labels (file, start, end, text and colour), note, help and sources (file and text).
///
/// `painted` is what the colour switch of the process said each time it was asked while the report
/// was written, in order.
pub uninterp spec fn report_text(
    painted: Seq<bool>,
    message: Seq<char>,
    at: (Seq<char>, usize),
    labels: Seq<(Seq<char>, usize, usize, Seq<char>, LabelColor)>,
    note: Option<Seq<char>>,
    help: Option<Seq<char>>,
    sources: Seq<(Seq<char>, Seq<char>)>,
) -> Seq<char>;

pub open spec fn local_label_views(
    labels: Seq<(String, usize, usize, String, LabelColor)>,
) -> Seq<(Seq<char>, usize, usize, Seq<char>, LabelColor)> {
    labels.map_values(
        |label: (String, usize, usize, String, LabelColor)|
            (label.0@, label.1, label.2, label.3@, label.4),
    )
}

pub open spec fn source_views(sources: Seq<(String, String)>) -> Seq<(Seq<char>, Seq<char>)> {
    sources.map_values(|source: (String, String)| (source.0@, source.1@))
}

/// Whether a report can be drawn: there is a label to place it by, no label ends before it
/// starts, and no source is too long to number its lines.
pub open spec fn can_draw(
    labels: Seq<(String, usize, usize, String, LabelColor)>,
    sources: Seq<(String, String)>,
) -> bool {
    &&& labels.len() > 0
    &&& forall|i: int| 0 <= i < labels.len() ==> (#[trigger] labels[i]).1 <= labels[i].2
    &&& forall|i: int| 0 <= i < sources.len() ==> (#[trigger] sources[i]).1@.len() < 1_000_000_000
}

/// `ariadne::Report::write`: the report of an error at the given place, with the given labels,
/// note and help, over the given sources.
///
/// The text depends on the arguments and on one thing more: `ariadne` paints through `yansi`, which
/// asks a switch of the whole process each time whether to paint. The report's settings are the
/// default ones, which do not make it compact, and `ariadne` is built without its `auto-color`
/// feature.
/// A label that ends before it starts makes `ariadne` panic, and so do lines numbered past a
/// thousand million.
#[verifier::external_body]
fn write_report(
    message: &str,
    at: (String, usize),
    labels: &Vec<(String, usize, usize, String, LabelColor)>,
    note: &Option<String>,
    help: &Option<String>,
    sources: Vec<(String, String)>,
) -> (rendered: String)
    requires
        can_draw(labels@, sources@),
    ensures
        exists|painted: Seq<bool>|
            rendered@ == #[trigger] report_text(
                painted,
                message@,
                (at.0@, at.1),
                local_label_views(labels@),
                text_of(*note),
                text_of(*help),
                source_views(sources@),
            ),
{
    let mut report = Report::build(ReportKind::Error, (at.0, at.1..at.1)).with_message(message);
    report.add_labels(labels.iter().map(|l| {
        let color = match l.4 {
            LabelColor::Primary => Color::Primary,
            LabelColor::Rgb(r, g, b) => Color::Rgb(r, g, b),
        };
        ariadne::Label::new((l.0.clone(), l.1..l.2)).with_message(&l.3).with_color(color)
    }));
    report.with_notes(note);
    report.with_helps(help);
    let mut out = Vec::new();
    report.finish().write(ariadne::sources(sources), &mut out).ok();
    String::from_utf8_lossy(&out).into_owned()
}

impl Builder {
    pub fn new(message: String) -> (builder: Builder)
        ensures
            builder@ == ReportView::of(message@),
    {
        let builder = Builder { message, labels: Vec::new(), note: None, help: None };
        assert(builder@.labels =~= Seq::empty());
        builder
    }

    /// Puts a label before all others.
    pub fn primary(self, span: Span, text: String) -> (builder: Builder)
        ensures
            builder@ == self@.primary(span, text@),
    {
        let mut builder = self;
        builder.labels.insert(0, (span, text, LabelColor::Rgb(243, 139, 168)));
        assert(builder@.labels =~= self@.primary(span, text@).labels);
        builder
    }

    pub fn secondary(self, span: Span, text: String) -> (builder: Builder)
        ensures
            builder@ == self@.secondary(span, text@),
    {
        let mut builder = self;
        builder.labels.push((span, text, LabelColor::Primary));
        assert(builder@.labels =~= self@.secondary(span, text@).labels);
        builder
    }

    pub fn note(self, text: String) -> (builder: Builder)
        ensures
            builder@ == (ReportView { note: Some(text@), ..self@ }),
    {
        let mut builder = self;
        builder.note = Some(text);
        builder
    }

    pub fn help(self, text: String) -> (builder: Builder)
        ensures
            builder@ == (ReportView { help: Some(text@), ..self@ }),
    {
        let mut builder = self;
        builder.help = Some(text);
        builder
    }

    /// The finished report over the given files.
    pub fn build(self, map: &SourceMap) -> (diagnostic: Diagnostic)
        requires
            self@.is_ordered(),
            files_fit(map@),
        ensures
            self@.renders(map@, diagnostic@),
    {
        if self.labels.len() == 0 || map.is_empty() {
            return Diagnostic { rendered: self.message };
        }
        let mut labels: Vec<(String, usize, usize, String, LabelColor)> = Vec::new();
        let mut sources: Vec<(String, String)> = Vec::new();
        let distinct = distinct_names(map);
        let ghost expected = self@.local_labels(map@);
        let ghost expected_sources = self@.label_sources(map@);
        let mut i: usize = 0;
        while i < self.labels.len()
            invariant
                i <= self.labels@.len(),
                map@.len() > 0,
                distinct == names_differ(map@),
                files_fit(map@),
                self@.is_ordered(),
                expected == self@.local_labels(map@),
                expected_sources == self@.label_sources(map@),
                labels@.len() == i,
                sources@.len() == i,
                local_label_views(labels@) == expected.take(i as int),
                source_views(sources@) == expected_sources.take(i as int),
                forall|k: int| 0 <= k < labels@.len() ==> (#[trigger] labels@[k]).1 <= labels@[k].2,
                forall|k: int|
                    0 <= k < sources@.len() ==> (#[trigger] sources@[k]).1@.len() < 1_000_000_000,
            decreases self.labels@.len() - i,
        {
            let span = self.labels[i].0;
            let text = self.labels[i].1.as_str().to_owned();
            let color = self.labels[i].2;
            let file: usize = match map.file_of(span.start) {
                Some(index) => index,
                None => 0,
            };
            assert(map@[file as int] == map.files@[file as int]@);
            assert(self@.labels[i as int] == (span, text@, color));
            let key = key_of(map, file, distinct);
            let source = map.files[file].text.as_str().to_owned();
            let start: usize = local_offset(span.start, map.files[file].start);
            let end: usize = local_offset(span.end, map.files[file].start);
            sources.push((key.as_str().to_owned(), source));
            labels.push((key, start, end, text, color));
            i = i + 1;
            assert(local_label_views(labels@) =~= expected.take(i as int));
            assert(source_views(sources@) =~= expected_sources.take(i as int));
        }
        assert(expected.take(i as int) =~= expected);
        assert(expected_sources.take(i as int) =~= expected_sources);
        let at = (labels[0].0.as_str().to_owned(), labels[0].1);
        assert(local_label_views(labels@)[0] == expected[0]);
        assert((at.0@, at.1) == self@.anchor(map@));
        let rendered = write_report(
            self.message.as_str(),
            at,
            &labels,
            &self.note,
            &self.help,
            sources,
        );
        proof {
            let painted = choose|painted: Seq<bool>|
                rendered@ == #[trigger] report_text(
                    painted,
                    self.message@,
                    (at.0@, at.1),
                    local_label_views(labels@),
                    text_of(self.note),
                    text_of(self.help),
                    source_views(sources@),
                );
            assert(rendered@ == report_text(
                painted,
                self@.message,
                self@.anchor(map@),
                self@.local_labels(map@),
                self@.note,
                self@.help,
                self@.label_sources(map@),
            ));
        }
        Diagnostic { rendered }
    }
}

/// A report as text.
#[derive(Debug)]
pub struct Diagnostic {
    pub rendered: String,
}

impl View for Diagnostic {
    type V = Seq<char>;

    open spec fn view(&self) -> Seq<char> {
        self.rendered@
    }
}

impl Diagnostic {
    pub fn display(self) -> (text: String)
        ensures
            text@ == self@,
    {
        self.rendered
    }

    pub fn from_builder(builder: Builder, map: &SourceMap) -> (diagnostic: Diagnostic)
        requires
            builder@.is_ordered(),
            files_fit(map@),
        ensures
            builder@.renders(map@, diagnostic@),
    {
        builder.build(map)
    }
}

/// What can be shown as a diagnostic, at the given span if it has none of its own.
pub trait AsDiagnostic: Sized {
    spec fn rich_view(self, span: Span) -> RichView;

    spec fn message_view(self) -> Seq<char>;

    /// Whether `text` is its report over the given files.
    spec fn reports(self, span: Span, files: Seq<FileView>, text: Seq<char>) -> bool;

    /// Whether its labels can be shown.
    spec fn is_ordered(self, span: Span) -> bool;

    fn into_diagnostic(self, span: Span, map: &SourceMap) -> (diagnostic: Diagnostic)
        requires
            self.is_ordered(span),
            files_fit(map@),
        ensures
            self.reports(span, map@, diagnostic@),
    ;

    fn rich(self, span: Span) -> (rich: RichDiagnostic)
        ensures
            rich@ == self.rich_view(span),
    ;

    fn message(self) -> (text: String)
        ensures
            text@ == self.message_view(),
    ;
}

fn add_secondaries(builder: Builder, labels: Vec<Label>) -> (all: Builder)
    ensures
        all@ == builder@.secondaries(label_views(labels@), 0),
{
    let mut all = builder;
    let mut i: usize = 0;
    while i < labels.len()
        invariant
            i <= labels@.len(),
            builder@.secondaries(label_views(labels@), 0) == all@.secondaries(
                label_views(labels@),
                i as nat,
            ),
        decreases labels@.len() - i,
    {
        assert(label_views(labels@)[i as int] == labels@[i as int]@);
        all = all.secondary(labels[i].span, labels[i].message.as_str().to_owned());
        i = i + 1;
    }
    all
}

impl AsDiagnostic for RichDiagnostic {
    open spec fn rich_view(self, span: Span) -> RichView {
        self@
    }

    open spec fn message_view(self) -> Seq<char> {
        self.message@
    }

    open spec fn reports(self, span: Span, files: Seq<FileView>, text: Seq<char>) -> bool {
        self@.report().renders(files, text)
    }

    open spec fn is_ordered(self, span: Span) -> bool {
        self@.report().is_ordered()
    }

    fn into_diagnostic(self, span: Span, map: &SourceMap) -> (diagnostic: Diagnostic) {
        let RichDiagnostic { severity: _, code: _, message, primary, secondary, note, help } = self;
        let mut builder = Builder::new(message);
        match primary {
            Some(primary) => {
                builder = builder.primary(primary.span, primary.message);
            },
            None => {},
        }
        builder = add_secondaries(builder, secondary);
        match note {
            Some(note) => {
                builder = builder.note(note);
            },
            None => {},
        }
        match help {
            Some(help) => {
                builder = builder.help(help);
            },
            None => {},
        }
        builder.build(map)
    }

    fn rich(self, span: Span) -> (rich: RichDiagnostic) {
        self
    }

    fn message(self) -> (text: String) {
        self.message
    }
}

impl AsDiagnostic for Diagnostic {
    open spec fn rich_view(self, span: Span) -> RichView {
        bare_view(self@)
    }

    open spec fn message_view(self) -> Seq<char> {
        self@
    }

    open spec fn reports(self, span: Span, files: Seq<FileView>, text: Seq<char>) -> bool {
        text == self@
    }

    open spec fn is_ordered(self, span: Span) -> bool {
        true
    }

    fn into_diagnostic(self, span: Span, map: &SourceMap) -> (diagnostic: Diagnostic) {
        self
    }

    fn rich(self, span: Span) -> (rich: RichDiagnostic) {
        RichDiagnostic::bare(self.rendered)
    }

    fn message(self) -> (text: String) {
        self.rendered
    }
}

impl<'h> AsDiagnostic for HirErrorKind<&'h str> {
    open spec fn rich_view(self, span: Span) -> RichView {
        rich_of(self@, span)
    }

    open spec fn message_view(self) -> Seq<char> {
        message_of(self@)
    }

    open spec fn reports(self, span: Span, files: Seq<FileView>, text: Seq<char>) -> bool {
        rich_of(self@, span).report().renders(files, text)
    }

    open spec fn is_ordered(self, span: Span) -> bool {
        rich_of(self@, span).report().is_ordered()
    }

    fn into_diagnostic(self, span: Span, map: &SourceMap) -> (diagnostic: Diagnostic) {
        self.rich_text(span).into_diagnostic(span, map)
    }

    fn rich(self, span: Span) -> (rich: RichDiagnostic) {
        self.rich_text(span)
    }

    fn message(self) -> (text: String) {
        self.message_text()
    }
}

impl<'h> AsDiagnostic for HirError<&'h str> {
    open spec fn rich_view(self, span: Span) -> RichView {
        rich_of(self.kind@, self.span)
    }

    open spec fn message_view(self) -> Seq<char> {
        message_of(self.kind@)
    }

    open spec fn reports(self, span: Span, files: Seq<FileView>, text: Seq<char>) -> bool {
        rich_of(self.kind@, self.span).report().renders(files, text)
    }

    open spec fn is_ordered(self, span: Span) -> bool {
        rich_of(self.kind@, self.span).report().is_ordered()
    }

    fn into_diagnostic(self, span: Span, map: &SourceMap) -> (diagnostic: Diagnostic) {
        self.kind.into_diagnostic(self.span, map)
    }

    fn rich(self, span: Span) -> (rich: RichDiagnostic) {
        self.kind.rich_text(self.span)
    }

    fn message(self) -> (text: String) {
        self.kind.message_text()
    }
}

/// Anything that can go wrong between source text and a linked program.
#[derive(Debug)]
pub enum NyxError {
    Compile(Diagnostic),
    Io(String),
    Assembler(i32),
    Linker(i32),
    ToolNotFound(String),
}

impl NyxError {
    pub open spec fn text_view(self) -> Seq<char> {
        match self {
            NyxError::Compile(diagnostic) => diagnostic@ + "\n"@,
            NyxError::Io(error) => "i/o error: "@ + error@ + "\n"@,
            NyxError::Assembler(code) => "assembler failed with exit code: "@ + signed_decimal(
                code as int,
            ) + "\n"@,
            NyxError::Linker(code) => "linker failed with exit code: "@ + signed_decimal(
                code as int,
            ) + "\n"@,
            NyxError::ToolNotFound(message) => "tool not found — is binutils installed? ("@
                + message@ + ")\n"@,
        }
    }

    /// The error as text.
    pub fn text(&self) -> (text: String)
        ensures
            text@ == self.text_view(),
    {
        match self {
            NyxError::Compile(diagnostic) => {
                let mut text = diagnostic.rendered.as_str().to_owned();
                push_text(&mut text, "\n");
                text
            },
            NyxError::Io(error) => {
                let mut text = "i/o error: ".to_owned();
                push_text(&mut text, error.as_str());
                push_text(&mut text, "\n");
                text
            },
            NyxError::Assembler(code) => {
                let mut text = "assembler failed with exit code: ".to_owned();
                push_signed(&mut text, *code as i128);
                push_text(&mut text, "\n");
                text
            },
            NyxError::Linker(code) => {
                let mut text = "linker failed with exit code: ".to_owned();
                push_signed(&mut text, *code as i128);
                push_text(&mut text, "\n");
                text
            },
            NyxError::ToolNotFound(message) => {
                let mut text = "tool not found — is binutils installed? (".to_owned();
                push_text(&mut text, message.as_str());
                push_text(&mut text, ")\n");
                text
            },
        }
    }
}

impl From<Diagnostic> for NyxError {
    fn from(diagnostic: Diagnostic) -> (error: NyxError) {
        NyxError::Compile(diagnostic)
    }
}

impl vstd::std_specs::convert::FromSpecImpl<Diagnostic> for NyxError {
    open spec fn obeys_from_spec() -> bool {
        true
    }

    open spec fn from_spec(diagnostic: Diagnostic) -> NyxError {
        NyxError::Compile(diagnostic)
    }
}

/// The labels of a report stay in order: the primary one first, then the others as they came.
pub proof fn lemma_report_labels(rich: RichView)
    requires
        rich.primary is Some,
    ensures
        rich.report().labels.len() == rich.secondary.len() + 1,
        rich.report().labels[0] == (
            rich.primary->0.span,
            rich.primary->0.message,
            primary_color(),
        ),
        forall|i: int|
            0 <= i < rich.secondary.len() ==> #[trigger] rich.report().labels[i + 1] == (
                rich.secondary[i].span,
                rich.secondary[i].message,
                LabelColor::Primary,
            ),
{
    let first = ReportView::of(rich.message).primary(
        rich.primary->0.span,
        rich.primary->0.message,
    );
    assert(first.labels.len() == 1);
    lemma_secondaries(first, rich.secondary, 0);
    let all = first.secondaries(rich.secondary, 0).labels;
    assert(rich.report().labels == all);
    assert forall|i: int| 0 <= i < rich.secondary.len() implies #[trigger] rich.report().labels[i
        + 1] == (rich.secondary[i].span, rich.secondary[i].message, LabelColor::Primary) by {
        assert(all[first.labels.len() + i - 0] == (
            rich.secondary[i].span,
            rich.secondary[i].message,
            LabelColor::Primary,
        ));
    }
}

proof fn lemma_secondaries(report: ReportView, labels: Seq<LabelView>, at: nat)
    requires
        at <= labels.len(),
    ensures
        ({
            let all = report.secondaries(labels, at).labels;
            &&& all.len() == report.labels.len() + labels.len() - at
            &&& forall|i: int| 0 <= i < report.labels.len() ==> #[trigger] all[i]
                == report.labels[i]
            &&& forall|i: int|
                at <= i < labels.len() ==> #[trigger] all[report.labels.len() + i - at] == (
                    labels[i].span,
                    labels[i].message,
                    LabelColor::Primary,
                )
        }),
    decreases labels.len() - at,
{
    if at < labels.len() {
        let next = report.secondary(labels[at as int].span, labels[at as int].message);
        lemma_secondaries(next, labels, at + 1);
        let all = report.secondaries(labels, at).labels;
        assert forall|i: int| 0 <= i < report.labels.len() implies #[trigger] all[i]
            == report.labels[i] by {
            assert(all[i] == next.labels[i]);
        }
        assert forall|i: int| at <= i < labels.len() implies #[trigger] all[report.labels.len() + i
            - at] == (labels[i].span, labels[i].message, LabelColor::Primary) by {
            if i == at {
                assert(all[report.labels.len() as int] == next.labels[report.labels.len() as int]);
            } else {
                assert(all[next.labels.len() + i - (at + 1)] == (
                    labels[i].span,
                    labels[i].message,
                    LabelColor::Primary,
                ));
            }
        }
    }
}

} // verus!
