//! The layout data model: scalars, line elements, file elements, and the
//! error and configuration types that accompany them.

use vstd::prelude::*;

verus! {

/// An atomic printable value.
///
/// The renderer emits each scalar's natural textual form: decimal for the
/// integers, the literal text for strings and characters, `true`/`false` for
/// booleans. A floating-point value is carried as its already-rendered
/// decimal text, chosen by the caller (the shortest round-trippable form of
/// the host's formatter, typically): the renderer emits that text verbatim,
/// so the layout logic never touches a float itself.
#[derive(Debug, Clone)]
pub enum Scalar {
    UInt(u64),
    Float(String),
    String(String),
    Char(char),
    Int(i64),
    Bool(bool),
}

/// One space-delimited segment of a line: a bare scalar, the first `N`
/// scalars of a sequence, or a whole sequence.
#[derive(Debug, Clone)]
pub enum LineElement {
    Scalar(Scalar),
    BoundedVec(Vec<Scalar>, usize),
    UnboundedVec(Vec<Scalar>),
}

/// One structural unit of a file: a line of [`LineElement`]s, a verbatim
/// line, a blank line, a bounded or unbounded block of raw lines, a bounded
/// or unbounded block of parallel lines built by zipping scalar columns, or
/// a two-dimensional grid of scalars.
#[derive(Debug, Clone)]
pub enum IOElement {
    Line(Vec<LineElement>),
    RawLine(String),
    EmptyLine,
    LinesBounded(Vec<Vec<Scalar>>, usize),
    LinesUnbounded(Vec<Vec<Scalar>>),
    RawLinesBounded(Vec<String>, usize),
    RawLinesUnbounded(Vec<String>),
    Grid(Vec<Vec<Scalar>>, usize, usize),
}

/// An ordered sequence of [`IOElement`]: the top-to-bottom layout of a file.
pub type IOFormat = Vec<IOElement>;

/// A declared bound exceeded the backing data, or the columns of an
/// unbounded parallel-lines block do not share one length. The layout
/// description itself is at fault; the renderer reports it instead of
/// reading out of range.
#[derive(Debug, Clone, PartialEq, Eq, Structural)]
pub struct BoundsError;

/// The full, ordered list of violated constraint descriptions. Success is
/// never represented as an empty list of messages: an aggregator returns
/// `Ok(())` instead.
#[derive(Debug, Clone)]
pub struct ConstraintsError {
    pub messages: Vec<String>,
}

/// The policy for files holding several test cases: an optional prefix for
/// each case's rendered lines. The constraint on the test count itself is
/// the trait method [`ProblemSpec::multiple_test_case_constraints`]. Only
/// the data shape lives here; the looping itself is the caller's.
pub struct MultipleTestcaseConfig {
    pub output_prefix: Option<String>,
}

/// The capability set of a concrete test-case type: produce the input
/// layout, validate the constraints, and optionally name a multi-test-case
/// policy. The renderer and the aggregator are generic over this contract,
/// never over concrete test-case types.
pub trait ProblemSpec {
    fn input_format(&self) -> IOFormat;

    fn output_format(&self) -> IOFormat;

    fn constraints(&self) -> Result<(), ConstraintsError>;

    /// Unless a test-case type opts in, there is no multi-test-case
    /// policy: the default names none.
    fn multiple_test_case_config() -> (r: Option<MultipleTestcaseConfig>)
        default_ensures
            r is None,
    {
        None
    }

    /// The constraint a multi-test-case file puts on its test count: by
    /// default there is none, so every count is accepted.
    fn multiple_test_case_constraints(test_count: usize) -> (r: Result<(), ConstraintsError>)
        default_ensures
            r is Ok,
    {
        Ok(())
    }
}

/// A bounded vector may render at most as many scalars as it holds.
pub open spec fn line_element_wf(e: LineElement) -> bool {
    match e {
        LineElement::Scalar(_) => true,
        LineElement::BoundedVec(v, n) => n <= v@.len(),
        LineElement::UnboundedVec(_) => true,
    }
}

/// Every declared bound stays within its backing data, and the columns of
/// an unbounded parallel-lines block share one length.
pub open spec fn io_element_wf(e: IOElement) -> bool {
    match e {
        IOElement::Line(line) => forall|i: int|
            0 <= i < line@.len() ==> line_element_wf(#[trigger] line@[i]),
        IOElement::RawLine(_) => true,
        IOElement::EmptyLine => true,
        IOElement::LinesBounded(cols, k) => forall|c: int|
            0 <= c < cols@.len() ==> k <= (#[trigger] cols@[c])@.len(),
        IOElement::LinesUnbounded(cols) => cols@.len() > 0 && forall|c: int|
            0 <= c < cols@.len() ==> (#[trigger] cols@[c])@.len() == cols@[0]@.len(),
        IOElement::RawLinesBounded(lines, k) => k <= lines@.len(),
        IOElement::RawLinesUnbounded(_) => true,
        IOElement::Grid(rows, r, c) => r <= rows@.len() && forall|i: int|
            0 <= i < r ==> c <= (#[trigger] rows@[i])@.len(),
    }
}

/// Every element of the format is well formed.
pub open spec fn io_format_wf(f: Seq<IOElement>) -> bool {
    forall|i: int| 0 <= i < f.len() ==> io_element_wf(#[trigger] f[i])
}

} // verus!
