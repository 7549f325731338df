use vstd::prelude::*;
use vstd::string::*;
use crate::token::Span;

verus! {

/// Why parsing failed.
#[derive(Clone, Copy, Debug, PartialEq, Eq, Structural)]
pub enum ParseError {
    UnexpectedToken,
    UnexpectedTypeDuplicate,
}

/// The stage an error comes from.
#[derive(Clone, Copy, Debug, PartialEq, Eq, Structural)]
pub enum ErrorKind {
    Parse(ParseError),
}

/// A diagnostic: a message, its kind and the source range it is about.
pub struct Error {
    pub message: String,
    pub kind: ErrorKind,
    pub span: Span,
}

/// What an [`Error`] holds, as plain values.
pub struct ErrorView {
    pub message: Seq<char>,
    pub kind: ErrorKind,
    pub span: Span,
}

impl View for Error {
    type V = ErrorView;

    open spec fn view(&self) -> ErrorView {
        ErrorView { message: self.message@, kind: self.kind, span: self.span }
    }
}

/// The line that reporting an error prints for it.
pub open spec fn report_line(e: ErrorView) -> Seq<char> {
    "error: "@ + e.message
}

/// The report of a log: one line per error, oldest first.
pub open spec fn report(log: Seq<ErrorView>) -> Seq<Seq<char>> {
    log.map_values(|e: ErrorView| report_line(e))
}

/// Reporting one more error adds its line at the end of the report, and
/// leaves the lines before it as they were.
pub proof fn lemma_report_push(log: Seq<ErrorView>, e: ErrorView)
    ensures
        report(log.push(e)) == report(log).push(report_line(e)),
{
    assert(report(log.push(e)) =~= report(log).push(report_line(e)));
}

/// An empty log has an empty report.
pub proof fn lemma_report_empty()
    ensures
        report(Seq::<ErrorView>::empty()) == Seq::<Seq<char>>::empty(),
{
    assert(report(Seq::<ErrorView>::empty()) =~= Seq::<Seq<char>>::empty());
}

/// Collects the diagnostics of one source text, in the order they were reported.
pub struct ErrorLogger<'e> {
    errors: Vec<Error>,
    source: &'e str,
}

impl<'e> View for ErrorLogger<'e> {
    type V = Seq<ErrorView>;

    /// The errors reported so far, oldest first.
    closed spec fn view(&self) -> Seq<ErrorView> {
        self.errors@.map_values(|e: Error| e@)
    }
}

impl<'e> ErrorLogger<'e> {
    /// The source text the errors are about.
    pub closed spec fn source_text(&self) -> Seq<char> {
        self.source@
    }

    /// An empty log for `source`.
    pub fn new(source: &'e str) -> (logger: Self)
        ensures
            logger@ == Seq::<ErrorView>::empty(),
            logger.source_text() == source@,
    {
        let logger = Self { errors: Vec::new(), source };
        assert(logger@ =~= Seq::<ErrorView>::empty());
        logger
    }

    /// Records `error` after the ones already reported.
    pub fn add_error(&mut self, error: Error)
        ensures
            final(self)@ == old(self)@.push(error@),
            final(self).source_text() == old(self).source_text(),
    {
        let ghost e = error@;
        self.errors.push(error);
        assert(self@ =~= old(self)@.push(e));
    }

    /// The number of errors reported so far.
    pub fn len(&self) -> (n: usize)
        ensures
            n == self@.len(),
    {
        self.errors.len()
    }

    /// The error reported at position `i` (0 is the oldest).
    pub fn get(&self, i: usize) -> (e: &Error)
        requires
            i < self@.len(),
        ensures
            e@ == self@[i as int],
    {
        &self.errors[i]
    }

    /// The report of the log: one line `error: <message>` per error, oldest
    /// first. The log holds errors exactly when the report is not empty.
    pub fn dump(&self) -> (lines: Vec<String>)
        ensures
            lines@.map_values(|l: String| l@) == report(self@),
    {
        let mut lines: Vec<String> = Vec::new();
        let n = self.errors.len();
        for i in 0..n
            invariant
                n == self.errors@.len(),
                lines@.len() == i,
                forall|j: int| 0 <= j < i ==> #[trigger] lines@[j]@ == report_line(self@[j]),
        {
            let mut line = String::from_str("error: ");
            line.append(self.errors[i].message.as_str());
            lines.push(line);
        }
        assert(lines@.map_values(|l: String| l@) =~= report(self@));
        lines
    }
}

} // verus!
