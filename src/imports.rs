//! The import checker: turns the resolver's import diagnostics into findings.

use vstd::prelude::*;
use indexmap::IndexMap;
use crate::base_checker::{Check, CheckerKind};
use crate::config::Config;
use crate::linter::{count_of, lemma_history_push};
use crate::collections::{
    catalog_entries, catalog_insert, lemma_key_index_push, new_catalog,
};
use crate::context::{
    Context, ContextView, Diagnostic, DiagnosticId, DiagnosticView, ErrorKind, WarningKind,
};
use crate::message::{
    MSG, Message, MessageView, MsgView, Position, PositionView, copy_strings, strings_view,
};

verus! {

/// Id of an import that cannot be resolved.
pub open spec fn id_unable_to_import() -> Seq<char> {
    seq!['E', '0', '4', '0', '1']
}

/// Id of a module imported more than once.
pub open spec fn id_reimported() -> Seq<char> {
    seq!['W', '0', '4', '0', '4']
}

/// Id of a module imported and never used.
pub open spec fn id_unused_import() -> Seq<char> {
    seq!['W', '0', '4', '1', '1']
}

/// The finding id a diagnostic code translates to, if any.
pub open spec fn import_finding_id(code: Option<DiagnosticId>) -> Option<Seq<char>> {
    match code {
        Some(DiagnosticId::Error(ErrorKind::CannotFindModule)) => Some(id_unable_to_import()),
        Some(DiagnosticId::Warning(WarningKind::UnusedImportWarning)) => Some(id_unused_import()),
        Some(DiagnosticId::Warning(WarningKind::ReimportWarning)) => Some(id_reimported()),
        _ => None,
    }
}

/// The source line numbered `line` (1-based), or the empty text where there
/// is no such line.
pub open spec fn source_line(lines: Seq<Seq<char>>, line: u64) -> Seq<char> {
    if 1 <= line && line <= lines.len() {
        lines[line - 1]
    } else {
        Seq::empty()
    }
}

/// A 0-based resolver column as a 1-based reported column; 1 where there is
/// none. The largest column stays as it is.
pub open spec fn reported_column(column: Option<u64>) -> u64 {
    match column {
        Some(c) => if c < u64::MAX {
            (c + 1) as u64
        } else {
            c
        },
        None => 1,
    }
}

/// The finding for one diagnostic, read against the file's lines.
pub open spec fn diagnostic_finding(d: DiagnosticView, lines: Seq<Seq<char>>) -> Option<
    MessageView,
> {
    if d.messages.len() == 0 {
        None
    } else {
        match import_finding_id(d.code) {
            Some(id) => {
                let pos = d.messages[0].0;
                Some(
                    MessageView {
                        msg_id: id,
                        msg: d.messages[0].1,
                        source_code: source_line(lines, pos.line),
                        pos: PositionView {
                            filename: pos.filename,
                            line: pos.line,
                            column: Some(reported_column(pos.column)),
                        },
                        arguments: d.args,
                    },
                )
            },
            None => None,
        }
    }
}

/// The findings for a sequence of diagnostics, in order.
pub open spec fn diagnostics_findings(ds: Seq<DiagnosticView>, lines: Seq<Seq<char>>) -> Seq<
    MessageView,
>
    decreases ds.len(),
{
    if ds.len() == 0 {
        Seq::empty()
    } else {
        let rest = diagnostics_findings(ds.drop_last(), lines);
        match diagnostic_finding(ds.last(), lines) {
            Some(m) => rest.push(m),
            None => rest,
        }
    }
}

/// The findings of the import checker on one file.
pub open spec fn import_findings(ctx: ContextView) -> Seq<MessageView> {
    diagnostics_findings(ctx.diagnostics, ctx.lines)
}

/// The catalog entries of the import checker.
pub open spec fn import_catalog() -> Seq<(Seq<char>, MsgView)> {
    seq![
        (id_unable_to_import(), MsgView {
            id: id_unable_to_import(),
            short_info: "Unable to import."@,
            long_info: "Unable to import {}."@,
            sarif_info: "Unable to import {0}."@,
        }),
        (id_reimported(), MsgView {
            id: id_reimported(),
            short_info: "Module reimported."@,
            long_info: "{} is reimported multiple times."@,
            sarif_info: "{0} is reimported multiple times."@,
        }),
        (id_unused_import(), MsgView {
            id: id_unused_import(),
            short_info: "Module imported but unused."@,
            long_info: "{} is imported but unused."@,
            sarif_info: "{0} is imported but unused."@,
        }),
    ]
}

pub(crate) fn id_string(s: &str) -> (r: String)
    ensures
        r@ == s@,
{
    String::from_str(s)
}

pub(crate) fn catalog_entry(id: &str, short_info: &str, long_info: &str, sarif_info: &str) -> (r: (
    String,
    MSG,
))
    ensures
        r.0@ == id@,
        r.1@ == (MsgView {
            id: id@,
            short_info: short_info@,
            long_info: long_info@,
            sarif_info: sarif_info@,
        }),
{
    (
        String::from_str(id),
        MSG {
            id: String::from_str(id),
            short_info: String::from_str(short_info),
            long_info: String::from_str(long_info),
            sarif_info: String::from_str(sarif_info),
        },
    )
}

/// Builds the import checker's catalog.
pub fn import_msgs() -> (r: IndexMap<String, MSG>)
    ensures
        catalog_entries(r) == import_catalog(),
{
    proof {
        reveal_strlit("E0401");
        reveal_strlit("W0404");
        reveal_strlit("W0411");
    }
    assert("E0401"@ =~= id_unable_to_import());
    assert("W0404"@ =~= id_reimported());
    assert("W0411"@ =~= id_unused_import());
    let mut m = new_catalog();
    let (k, v) = catalog_entry(
        "E0401",
        "Unable to import.",
        "Unable to import {}.",
        "Unable to import {0}.",
    );
    catalog_insert(&mut m, k, v);
    let (k, v) = catalog_entry(
        "W0404",
        "Module reimported.",
        "{} is reimported multiple times.",
        "{0} is reimported multiple times.",
    );
    catalog_insert(&mut m, k, v);
    let (k, v) = catalog_entry(
        "W0411",
        "Module imported but unused.",
        "{} is imported but unused.",
        "{0} is imported but unused.",
    );
    catalog_insert(&mut m, k, v);
    proof {
        let c = import_catalog();
        let e0 = Seq::<(Seq<char>, MsgView)>::empty();
        lemma_key_index_push(e0, c[0], c[1].0);
        lemma_key_index_push(e0, c[0], c[2].0);
        lemma_key_index_push(e0.push(c[0]), c[1], c[2].0);
        assert(c[0].0 != c[1].0);
        assert(c[0].0 != c[2].0);
        assert(c[1].0 != c[2].0);
        assert(e0.push(c[0]).push(c[1]).push(c[2]) =~= c);
    }
    m
}

/// Reports unresolved, repeated and unused imports from the resolver's
/// diagnostics. Accumulates its findings over a run.
pub struct ImportChecker {
    catalog: IndexMap<String, MSG>,
    msgs: Vec<Message>,
}

/// The views of a sequence of findings.
pub open spec fn messages_view(v: Seq<Message>) -> Seq<MessageView> {
    v.map_values(|m: Message| m@)
}

impl ImportChecker {
    pub fn new() -> (r: ImportChecker)
        ensures
            r.catalog_spec() == import_catalog(),
            r.msgs_spec().len() == 0,
    {
        ImportChecker { catalog: import_msgs(), msgs: Vec::new() }
    }

    /// The finding for one diagnostic of a file with the given lines.
    pub fn diagnostic_to_msg(diag: &Diagnostic, lines: &Vec<String>) -> (r: Option<Message>)
        ensures
            match diagnostic_finding(diag@, strings_view(lines@)) {
                Some(m) => r.is_some() && r.unwrap()@ == m,
                None => r.is_none(),
            },
    {
        if diag.messages.len() == 0 {
            return None;
        }
        let id: String = match diag.code {
            Some(DiagnosticId::Error(ErrorKind::CannotFindModule)) => {
                proof {
                    reveal_strlit("E0401");
                }
                assert("E0401"@ =~= id_unable_to_import());
                id_string("E0401")
            },
            Some(DiagnosticId::Warning(WarningKind::UnusedImportWarning)) => {
                proof {
                    reveal_strlit("W0411");
                }
                assert("W0411"@ =~= id_unused_import());
                id_string("W0411")
            },
            Some(DiagnosticId::Warning(WarningKind::ReimportWarning)) => {
                proof {
                    reveal_strlit("W0404");
                }
                assert("W0404"@ =~= id_reimported());
                id_string("W0404")
            },
            _ => {
                return None;
            },
        };
        let primary = &diag.messages[0];
        let line = primary.pos.line;
        let source_code = if 1 <= line && line <= lines.len() as u64 {
            lines[(line - 1) as usize].clone()
        } else {
            String::new()
        };
        let column: u64 = match primary.pos.column {
            Some(c) => if c < u64::MAX {
                c + 1
            } else {
                c
            },
            None => 1,
        };
        let m = Message {
            msg_id: id,
            msg: primary.message.clone(),
            source_code,
            pos: Position { filename: primary.pos.filename.clone(), line, column: Some(column) },
            arguments: copy_strings(&diag.args),
        };
        assert(m@ == diagnostic_finding(diag@, strings_view(lines@)).unwrap());
        Some(m)
    }

    /// Translates every diagnostic of `ctx`, in order, and records the
    /// findings.
    pub fn check_importstmt(&mut self, ctx: &Context)
        ensures
            final(self).catalog_spec() == old(self).catalog_spec(),
            final(self).msgs_spec() == old(self).msgs_spec() + import_findings(
                ctx@,
            ),
    {
        let ghost start = messages_view(self.msgs@);
        let mut i: usize = 0;
        while i < ctx.diagnostics.len()
            invariant
                i <= ctx.diagnostics@.len(),
                self.catalog == old(self).catalog,
                start == messages_view(old(self).msgs@),
                messages_view(self.msgs@) == start + diagnostics_findings(
                    ctx@.diagnostics.subrange(0, i as int),
                    ctx@.lines,
                ),
            decreases ctx.diagnostics@.len() - i,
        {
            let ghost prev = messages_view(self.msgs@);
            let found = ImportChecker::diagnostic_to_msg(&ctx.diagnostics[i], &ctx.lines);
            proof {
                let ds = ctx@.diagnostics.subrange(0, i + 1);
                assert(ds.drop_last() =~= ctx@.diagnostics.subrange(0, i as int));
                assert(ds.last() == ctx.diagnostics@[i as int]@);
            }
            match found {
                Some(m) => {
                    self.msgs.push(m);
                    assert(messages_view(self.msgs@) =~= prev.push(m@));
                },
                None => {},
            }
            i = i + 1;
        }
        assert(ctx@.diagnostics.subrange(0, i as int) =~= ctx@.diagnostics);
    }
}

impl Check for ImportChecker {
    open spec fn kind_spec(&self) -> CheckerKind {
        CheckerKind::ImportCheck
    }

    closed spec fn msgs_spec(&self) -> Seq<MessageView> {
        messages_view(self.msgs@)
    }

    closed spec fn catalog_spec(&self) -> Seq<(Seq<char>, MsgView)> {
        catalog_entries(self.catalog)
    }

    fn check(&mut self, ctx: &Context, cfg: &Config) {
        self.check_importstmt(ctx)
    }

    fn get_msgs(&self) -> (r: &Vec<Message>) {
        &self.msgs
    }

    fn get_MSGS(&self) -> (r: &IndexMap<String, MSG>) {
        &self.catalog
    }

    fn get_kind(&self) -> (r: CheckerKind) {
        CheckerKind::ImportCheck
    }
}

} // verus!

verus! {

/// The number of diagnostics among `ds` with the given code and a primary
/// text.
pub open spec fn diagnostics_with_code(ds: Seq<DiagnosticView>, code: DiagnosticId) -> nat
    decreases ds.len(),
{
    if ds.len() == 0 {
        0
    } else {
        diagnostics_with_code(ds.drop_last(), code) + if ds.last().code == Some(code)
            && ds.last().messages.len() > 0 {
            1nat
        } else {
            0nat
        }
    }
}

/// The import checker makes one unresolved-import finding per
/// unresolvable-module diagnostic that has a primary text, and no other.
pub proof fn lemma_unresolved_imports(ds: Seq<DiagnosticView>, lines: Seq<Seq<char>>)
    ensures
        count_of(diagnostics_findings(ds, lines), id_unable_to_import())
            == diagnostics_with_code(ds, DiagnosticId::Error(ErrorKind::CannotFindModule)),
    decreases ds.len(),
{
    if ds.len() > 0 {
        lemma_unresolved_imports(ds.drop_last(), lines);
        let rest = diagnostics_findings(ds.drop_last(), lines);
        assert(id_reimported()[0] != id_unable_to_import()[0]);
        assert(id_unused_import()[0] != id_unable_to_import()[0]);
        match diagnostic_finding(ds.last(), lines) {
            Some(m) => lemma_history_push(rest, m),
            None => {},
        }
    }
}

/// A file whose diagnostics hold exactly one unresolvable-module diagnostic
/// gets exactly one unresolved-import finding from the import checker, and
/// none from the misc checker.
pub proof fn lemma_single_unresolved_import(ctx: ContextView, max_line_length: nat)
    requires
        diagnostics_with_code(ctx.diagnostics, DiagnosticId::Error(ErrorKind::CannotFindModule)) == 1,
    ensures
        count_of(
            crate::base_checker::checker_findings(CheckerKind::ImportCheck, ctx, max_line_length),
            id_unable_to_import(),
        ) == 1,
        count_of(
            crate::base_checker::checker_findings(CheckerKind::MiscChecker, ctx, max_line_length),
            id_unable_to_import(),
        ) == 0,
{
    lemma_unresolved_imports(ctx.diagnostics, ctx.lines);
    crate::misc::lemma_no_unresolved_import_findings(ctx.filename, ctx.lines, max_line_length);
}

} // verus!
