//! What the checkers read about one file: its lines and the diagnostics
//! that the parser and resolver reported for it.

use vstd::prelude::*;
use crate::message::{Position, PositionView, strings_view};

verus! {

/// Error kinds that the resolver reports.
#[derive(Debug, Clone, Copy, Hash, PartialEq, Eq, Structural)]
pub enum ErrorKind {
    InvalidSyntax,
    TabError,
    IndentationError,
    CannotFindModule,
    RecursiveLoad,
    FloatOverflow,
    FloatUnderflow,
    IntOverflow,
    InvalidDocstring,
    Deprecated,
    UnKnownDecorator,
    InvalidDecoratorTarget,
    InvalidFormatSpec,
    SchemaCheckFailure,
    MixinNamingError,
    MixinStructureIllegal,
    IndexSignatureError,
    TypeError,
    NameError,
    ValueError,
    KeyError,
    UniqueKeyError,
    AttributeError,
    AssertionError,
    ImmutableError,
    MultiInheritError,
    CycleInheritError,
    IllegalInheritError,
    IllegalAttributeError,
    IllegalArgumentError,
    IllegalParameterError,
    EvaluationError,
    CompileError,
    RecursionError,
    PlanError,
    RuntimeError,
}

/// Warning kinds that the resolver reports.
#[derive(Debug, Clone, Copy, Hash, PartialEq, Eq, Structural)]
pub enum WarningKind {
    UnusedImportWarning,
    ReimportWarning,
    ImportPositionWarning,
}

/// The code of a diagnostic: an error or a warning of some kind.
#[derive(Debug, Clone, Copy, Hash, PartialEq, Eq, Structural)]
pub enum DiagnosticId {
    Error(ErrorKind),
    Warning(WarningKind),
}

/// One positioned text of a diagnostic. Columns here are 0-based.
#[derive(Debug, Clone, Hash, PartialEq, Eq)]
pub struct DiagnosticMessage {
    pub pos: Position,
    pub message: String,
}

/// A diagnostic of the resolver: its code, its positioned texts (the first
/// one is the primary) and its format arguments.
#[derive(Debug, Clone, Hash, PartialEq, Eq)]
pub struct Diagnostic {
    pub code: Option<DiagnosticId>,
    pub messages: Vec<DiagnosticMessage>,
    pub args: Vec<String>,
}

pub struct DiagnosticView {
    pub code: Option<DiagnosticId>,
    pub messages: Seq<(PositionView, Seq<char>)>,
    pub args: Seq<Seq<char>>,
}

impl View for Diagnostic {
    type V = DiagnosticView;

    open spec fn view(&self) -> DiagnosticView {
        DiagnosticView {
            code: self.code,
            messages: self.messages@.map_values(|m: DiagnosticMessage| (m.pos@, m.message@)),
            args: strings_view(self.args@),
        }
    }
}

/// Everything the checkers are given about one file that parsed: its name,
/// its raw lines (without line ends) and the resolver's diagnostics.
pub struct Context {
    pub filename: String,
    pub lines: Vec<String>,
    pub diagnostics: Vec<Diagnostic>,
}

pub struct ContextView {
    pub filename: Seq<char>,
    pub lines: Seq<Seq<char>>,
    pub diagnostics: Seq<DiagnosticView>,
}

impl View for Context {
    type V = ContextView;

    open spec fn view(&self) -> ContextView {
        ContextView {
            filename: self.filename@,
            lines: strings_view(self.lines@),
            diagnostics: self.diagnostics@.map_values(|d: Diagnostic| d@),
        }
    }
}

/// What building the context of one file gave: the context, or the reason
/// the file could not be parsed.
pub enum LintInput {
    Parsed(Context),
    ParseFailed { filename: String, reason: String },
}

pub enum LintInputView {
    Parsed(ContextView),
    ParseFailed { filename: Seq<char>, reason: Seq<char> },
}

impl View for LintInput {
    type V = LintInputView;

    open spec fn view(&self) -> LintInputView {
        match self {
            LintInput::Parsed(c) => LintInputView::Parsed(c@),
            LintInput::ParseFailed { filename, reason } => LintInputView::ParseFailed {
                filename: filename@,
                reason: reason@,
            },
        }
    }
}

} // verus!
