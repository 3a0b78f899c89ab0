//! Diagnostics: what a report holds, and the sink that collects reports
//! in the order in which validation emits them.

use vstd::prelude::*;
use vstd::string::StringExecFns;
use crate::text::str_eq;
use crate::token::Loc;

verus! {

/// How bad a finding is, mildest first.
#[derive(Copy, Debug, PartialEq, Eq, Structural)]
pub enum Severity {
    Tips,
    Untidy,
    Warning,
    Error,
    Fatal,
}

impl Clone for Severity {
    fn clone(&self) -> (r: Self)
        ensures
            r == *self,
    {
        *self
    }
}

impl Severity {
    pub open spec fn spec_parse(s: Seq<char>) -> Option<Severity> {
        if s == "Tips"@ {
            Some(Severity::Tips)
        } else if s == "Untidy"@ {
            Some(Severity::Untidy)
        } else if s == "Warning"@ {
            Some(Severity::Warning)
        } else if s == "Error"@ {
            Some(Severity::Error)
        } else if s == "Fatal"@ {
            Some(Severity::Fatal)
        } else {
            None
        }
    }

    /// Reads a severity by its name.
    pub fn parse(s: &str) -> (r: Option<Severity>)
        ensures
            r == Self::spec_parse(s@),
    {
        if str_eq(s, "Tips") {
            Some(Severity::Tips)
        } else if str_eq(s, "Untidy") {
            Some(Severity::Untidy)
        } else if str_eq(s, "Warning") {
            Some(Severity::Warning)
        } else if str_eq(s, "Error") {
            Some(Severity::Error)
        } else if str_eq(s, "Fatal") {
            Some(Severity::Fatal)
        } else {
            None
        }
    }
}

/// How sure the validator is of a finding.
#[derive(Copy, Debug, PartialEq, Eq, Structural)]
pub enum Confidence {
    Weak,
    Reasonable,
    Strong,
}

impl Clone for Confidence {
    fn clone(&self) -> (r: Self)
        ensures
            r == *self,
    {
        *self
    }
}

impl Confidence {
    pub open spec fn spec_parse(s: Seq<char>) -> Option<Confidence> {
        if s == "Weak"@ {
            Some(Confidence::Weak)
        } else if s == "Reasonable"@ {
            Some(Confidence::Reasonable)
        } else if s == "Strong"@ {
            Some(Confidence::Strong)
        } else {
            None
        }
    }

    /// Reads a confidence by its name.
    pub fn parse(s: &str) -> (r: Option<Confidence>)
        ensures
            r == Self::spec_parse(s@),
    {
        if str_eq(s, "Weak") {
            Some(Confidence::Weak)
        } else if str_eq(s, "Reasonable") {
            Some(Confidence::Reasonable)
        } else if str_eq(s, "Strong") {
            Some(Confidence::Strong)
        } else {
            None
        }
    }
}

/// The stable, machine-readable kind of a finding.
#[derive(Copy, Debug, PartialEq, Eq, Structural)]
pub enum ErrorKey {
    Config,
    ReadError,
    Filename,
    Localization,
    Duplicate,
    UnknownField,
    FieldMissing,
    Validation,
    Structure,
    ParseError,
    MissingItem,
    MissingLocalization,
    Scopes,
    StrictScopes,
    Datafunctions,
    EventNamespace,
    Choice,
    ImageFormat,
    Macro,
    Unneeded,
}

impl Clone for ErrorKey {
    fn clone(&self) -> (r: Self)
        ensures
            r == *self,
    {
        *self
    }
}

impl ErrorKey {
    pub open spec fn spec_parse(s: Seq<char>) -> Option<ErrorKey> {
        if s == "config"@ {
            Some(ErrorKey::Config)
        } else if s == "read-error"@ {
            Some(ErrorKey::ReadError)
        } else if s == "filename"@ {
            Some(ErrorKey::Filename)
        } else if s == "localization"@ {
            Some(ErrorKey::Localization)
        } else if s == "duplicate-item"@ {
            Some(ErrorKey::Duplicate)
        } else if s == "unknown-field"@ {
            Some(ErrorKey::UnknownField)
        } else if s == "field-missing"@ {
            Some(ErrorKey::FieldMissing)
        } else if s == "validation"@ {
            Some(ErrorKey::Validation)
        } else if s == "structure"@ {
            Some(ErrorKey::Structure)
        } else if s == "parse-error"@ {
            Some(ErrorKey::ParseError)
        } else if s == "missing-item"@ {
            Some(ErrorKey::MissingItem)
        } else if s == "missing-localization"@ {
            Some(ErrorKey::MissingLocalization)
        } else if s == "scopes"@ {
            Some(ErrorKey::Scopes)
        } else if s == "strict-scopes"@ {
            Some(ErrorKey::StrictScopes)
        } else if s == "datafunctions"@ {
            Some(ErrorKey::Datafunctions)
        } else if s == "event-namespace"@ {
            Some(ErrorKey::EventNamespace)
        } else if s == "choice"@ {
            Some(ErrorKey::Choice)
        } else if s == "image-format"@ {
            Some(ErrorKey::ImageFormat)
        } else if s == "macro"@ {
            Some(ErrorKey::Macro)
        } else if s == "unneeded"@ {
            Some(ErrorKey::Unneeded)
        } else {
            None
        }
    }

    /// Reads a key by the name under which reports show it.
    pub fn parse(s: &str) -> (r: Option<ErrorKey>)
        ensures
            r == Self::spec_parse(s@),
    {
        if str_eq(s, "config") {
            Some(ErrorKey::Config)
        } else if str_eq(s, "read-error") {
            Some(ErrorKey::ReadError)
        } else if str_eq(s, "filename") {
            Some(ErrorKey::Filename)
        } else if str_eq(s, "localization") {
            Some(ErrorKey::Localization)
        } else if str_eq(s, "duplicate-item") {
            Some(ErrorKey::Duplicate)
        } else if str_eq(s, "unknown-field") {
            Some(ErrorKey::UnknownField)
        } else if str_eq(s, "field-missing") {
            Some(ErrorKey::FieldMissing)
        } else if str_eq(s, "validation") {
            Some(ErrorKey::Validation)
        } else if str_eq(s, "structure") {
            Some(ErrorKey::Structure)
        } else if str_eq(s, "parse-error") {
            Some(ErrorKey::ParseError)
        } else if str_eq(s, "missing-item") {
            Some(ErrorKey::MissingItem)
        } else if str_eq(s, "missing-localization") {
            Some(ErrorKey::MissingLocalization)
        } else if str_eq(s, "scopes") {
            Some(ErrorKey::Scopes)
        } else if str_eq(s, "strict-scopes") {
            Some(ErrorKey::StrictScopes)
        } else if str_eq(s, "datafunctions") {
            Some(ErrorKey::Datafunctions)
        } else if str_eq(s, "event-namespace") {
            Some(ErrorKey::EventNamespace)
        } else if str_eq(s, "choice") {
            Some(ErrorKey::Choice)
        } else if str_eq(s, "image-format") {
            Some(ErrorKey::ImageFormat)
        } else if str_eq(s, "macro") {
            Some(ErrorKey::Macro)
        } else if str_eq(s, "unneeded") {
            Some(ErrorKey::Unneeded)
        } else {
            None
        }
    }
}

/// A place that a report points at, with an optional remark.
#[derive(Debug)]
pub struct PointedMessage {
    pub location: Loc,
    pub length: usize,
    pub msg: Option<String>,
}

pub struct PointerView {
    pub location: Loc,
    pub length: usize,
    pub msg: Option<Seq<char>>,
}

pub open spec fn opt_string_view(s: Option<String>) -> Option<Seq<char>> {
    match s {
        Some(s) => Some(s@),
        None => None,
    }
}

impl View for PointedMessage {
    type V = PointerView;

    open spec fn view(&self) -> PointerView {
        PointerView { location: self.location, length: self.length, msg: opt_string_view(self.msg) }
    }
}

impl PointedMessage {
    /// A pointer without a remark.
    pub fn new(location: Loc) -> (r: PointedMessage)
        ensures
            r@ == plain_pointer(location),
    {
        PointedMessage { location, length: 1, msg: None }
    }

    /// A pointer with a remark.
    pub fn with_msg(location: Loc, msg: &str) -> (r: PointedMessage)
        ensures
            r@ == (PointerView { location, length: 1, msg: Some(msg@) }),
    {
        PointedMessage { location, length: 1, msg: Some(String::from_str(msg)) }
    }
}

pub open spec fn plain_pointer(location: Loc) -> PointerView {
    PointerView { location, length: 1, msg: None }
}

/// One finding.
#[derive(Debug)]
pub struct Report {
    pub key: ErrorKey,
    pub severity: Severity,
    pub confidence: Confidence,
    pub msg: String,
    pub info: Option<String>,
    pub pointers: Vec<PointedMessage>,
}

pub struct ReportView {
    pub key: ErrorKey,
    pub severity: Severity,
    pub confidence: Confidence,
    pub msg: Seq<char>,
    pub info: Option<Seq<char>>,
    pub pointers: Seq<PointerView>,
}

impl View for Report {
    type V = ReportView;

    open spec fn view(&self) -> ReportView {
        ReportView {
            key: self.key,
            severity: self.severity,
            confidence: self.confidence,
            msg: self.msg@,
            info: opt_string_view(self.info),
            pointers: Seq::new(self.pointers@.len(), |i: int| self.pointers@[i]@),
        }
    }
}

/// A report with one pointer and the usual confidence.
pub open spec fn report_at(
    severity: Severity,
    key: ErrorKey,
    loc: Loc,
    msg: Seq<char>,
    info: Option<Seq<char>>,
) -> ReportView {
    ReportView {
        key,
        severity,
        confidence: Confidence::Reasonable,
        msg,
        info,
        pointers: seq![plain_pointer(loc)],
    }
}

/// A report of an error that the validator is sure of.
pub open spec fn strong_report(
    key: ErrorKey,
    msg: Seq<char>,
    info: Option<Seq<char>>,
    pointers: Seq<PointerView>,
) -> ReportView {
    ReportView {
        key,
        severity: Severity::Error,
        confidence: Confidence::Strong,
        msg,
        info,
        pointers,
    }
}

pub open spec fn error_at(key: ErrorKey, loc: Loc, msg: Seq<char>) -> ReportView {
    report_at(Severity::Error, key, loc, msg, None)
}

pub open spec fn warn_at(key: ErrorKey, loc: Loc, msg: Seq<char>) -> ReportView {
    report_at(Severity::Warning, key, loc, msg, None)
}

/// The sink that collects the reports of a validation pass.
#[derive(Debug)]
pub struct Errors {
    pub reports: Vec<Report>,
}

impl View for Errors {
    type V = Seq<ReportView>;

    open spec fn view(&self) -> Seq<ReportView> {
        Seq::new(self.reports@.len(), |i: int| self.reports@[i]@)
    }
}

impl Errors {
    pub fn new() -> (r: Errors)
        ensures
            r@ == Seq::<ReportView>::empty(),
    {
        let r = Errors { reports: Vec::new() };
        assert(r@ =~= Seq::<ReportView>::empty());
        r
    }

    pub fn len(&self) -> (r: usize)
        ensures
            r == self@.len(),
    {
        self.reports.len()
    }

    pub fn get(&self, i: usize) -> (r: &Report)
        requires
            i < self@.len(),
        ensures
            r@ == self@[i as int],
    {
        &self.reports[i]
    }

    /// Appends a report.
    pub fn push(&mut self, report: Report)
        ensures
            final(self)@ == old(self)@.push(report@),
    {
        let ghost before = self@;
        self.reports.push(report);
        assert(self@ =~= before.push(report@));
    }

    /// Appends a report with one pointer.
    pub fn report(
        &mut self,
        severity: Severity,
        key: ErrorKey,
        loc: Loc,
        msg: String,
        info: Option<String>,
    )
        ensures
            final(self)@ == old(self)@.push(
                report_at(severity, key, loc, msg@, opt_string_view(info)),
            ),
    {
        let mut pointers: Vec<PointedMessage> = Vec::new();
        pointers.push(PointedMessage::new(loc));
        let r = Report { key, severity, confidence: Confidence::Reasonable, msg, info, pointers };
        assert(r@.pointers =~= seq![plain_pointer(loc)]);
        self.push(r);
    }

    /// Appends an error that the validator is sure of, with any number of pointers.
    pub fn strong(
        &mut self,
        key: ErrorKey,
        msg: String,
        info: Option<String>,
        pointers: Vec<PointedMessage>,
    )
        ensures
            final(self)@ == old(self)@.push(
                strong_report(
                    key,
                    msg@,
                    opt_string_view(info),
                    Seq::new(pointers@.len(), |i: int| pointers@[i]@),
                ),
            ),
    {
        let r = Report {
            key,
            severity: Severity::Error,
            confidence: Confidence::Strong,
            msg,
            info,
            pointers,
        };
        self.push(r);
    }

    /// Appends a sure error with one pointer.
    pub fn strong_at(&mut self, key: ErrorKey, loc: Loc, msg: &str, info: Option<&str>)
        ensures
            final(self)@ == old(self)@.push(
                strong_report(
                    key,
                    msg@,
                    match info {
                        Some(s) => Some(s@),
                        None => None,
                    },
                    seq![plain_pointer(loc)],
                ),
            ),
    {
        let mut pointers: Vec<PointedMessage> = Vec::new();
        pointers.push(PointedMessage::new(loc));
        assert(Seq::new(pointers@.len(), |i: int| pointers@[i]@) =~= seq![plain_pointer(loc)]);
        let info = match info {
            Some(s) => Some(String::from_str(s)),
            None => None,
        };
        self.strong(key, String::from_str(msg), info, pointers);
    }

    pub fn error(&mut self, loc: Loc, key: ErrorKey, msg: &str)
        ensures
            final(self)@ == old(self)@.push(error_at(key, loc, msg@)),
    {
        self.report(Severity::Error, key, loc, String::from_str(msg), None);
    }

    pub fn error_string(&mut self, loc: Loc, key: ErrorKey, msg: String)
        ensures
            final(self)@ == old(self)@.push(error_at(key, loc, msg@)),
    {
        self.report(Severity::Error, key, loc, msg, None);
    }

    pub fn error_info(&mut self, loc: Loc, key: ErrorKey, msg: &str, info: &str)
        ensures
            final(self)@ == old(self)@.push(
                report_at(Severity::Error, key, loc, msg@, Some(info@)),
            ),
    {
        self.report(
            Severity::Error,
            key,
            loc,
            String::from_str(msg),
            Some(String::from_str(info)),
        );
    }

    pub fn warn(&mut self, loc: Loc, key: ErrorKey, msg: &str)
        ensures
            final(self)@ == old(self)@.push(warn_at(key, loc, msg@)),
    {
        self.report(Severity::Warning, key, loc, String::from_str(msg), None);
    }

    pub fn warn_string(&mut self, loc: Loc, key: ErrorKey, msg: String)
        ensures
            final(self)@ == old(self)@.push(warn_at(key, loc, msg@)),
    {
        self.report(Severity::Warning, key, loc, msg, None);
    }

    pub fn warn_info(&mut self, loc: Loc, key: ErrorKey, msg: &str, info: &str)
        ensures
            final(self)@ == old(self)@.push(
                report_at(Severity::Warning, key, loc, msg@, Some(info@)),
            ),
    {
        self.report(
            Severity::Warning,
            key,
            loc,
            String::from_str(msg),
            Some(String::from_str(info)),
        );
    }

    /// Appends a low-severity advisory.
    pub fn advice_info(&mut self, loc: Loc, key: ErrorKey, msg: &str, info: &str)
        ensures
            final(self)@ == old(self)@.push(
                report_at(Severity::Untidy, key, loc, msg@, Some(info@)),
            ),
    {
        self.report(
            Severity::Untidy,
            key,
            loc,
            String::from_str(msg),
            Some(String::from_str(info)),
        );
    }
}

} // verus!
