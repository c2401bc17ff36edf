use kclvm_tools::base_checker::{BaseChecker, Check, CheckerKind};
use kclvm_tools::config::Config;
use kclvm_tools::format::{format_summary, FormatOptions};
use kclvm_tools::text::{decimal_string, space_string};
use kclvm_tools::context::{
    Context, Diagnostic, DiagnosticId, DiagnosticMessage, ErrorKind, LintInput, WarningKind,
};
use kclvm_tools::imports::ImportChecker;
use kclvm_tools::linter::{is_kclfile, LintError, Linter};
use kclvm_tools::message::{Message, Position};
use kclvm_tools::misc::MiscChecker;

fn pos(filename: &str, line: u64, column: Option<u64>) -> Position {
    Position { filename: filename.to_string(), line, column }
}

fn diag(code: Option<DiagnosticId>, filename: &str, line: u64, column: Option<u64>, text: &str, args: &[&str]) -> Diagnostic {
    Diagnostic {
        code,
        messages: vec![DiagnosticMessage { pos: pos(filename, line, column), message: text.to_string() }],
        args: args.iter().map(|a| a.to_string()).collect(),
    }
}

fn ctx(filename: &str, lines: &[&str], diagnostics: Vec<Diagnostic>) -> Context {
    Context {
        filename: filename.to_string(),
        lines: lines.iter().map(|l| l.to_string()).collect(),
        diagnostics,
    }
}

fn counts(lint: &Linter) -> Vec<(String, u64)> {
    lint.msgs_map.iter().map(|c| (c.id.clone(), c.count)).collect()
}

fn set_ids(lint: &Linter) -> Vec<String> {
    lint.msgs.iter().map(|m| m.msg_id.clone()).collect()
}

#[test]
fn test_lint() {
    let file = "/Users/zz/code/KCLVM-ant/hello.k";
    let mut lint = Linter::new(file.to_string(), vec![file.to_string()], None);
    let out = lint.run(&vec![LintInput::Parsed(ctx(file, &[], vec![]))]).unwrap();
    assert_eq!(out.last().unwrap(), "Lint: 0 problems");
}

#[test]
fn scenario_a_long_line() {
    let long = "x".repeat(250);
    let mut lint = Linter::new("a.k".to_string(), vec!["a.k".to_string()], None);
    let out = lint
        .run(&vec![LintInput::Parsed(ctx("a.k", &["short", &long], vec![]))])
        .unwrap();
    assert_eq!(lint.msgs.len(), 1);
    let m = lint.msgs.get_index(0).unwrap();
    assert_eq!(m.msg_id, "E0501");
    assert_eq!(m.arguments, vec!["250".to_string(), "200".to_string()]);
    assert_eq!(m.msg, "Line too long (250 > 200 characters).");
    assert_eq!(m.pos, pos("a.k", 2, Some(250)));
    assert_eq!(m.source_code, long);
    assert_eq!(counts(&lint), vec![("E0501".to_string(), 1)]);
    assert_eq!(out.last().unwrap(), "Lint: 1 problems");
}

#[test]
fn scenario_a_report_lines() {
    let long = "x".repeat(250);
    let mut lint = Linter::new("a.k".to_string(), vec!["a.k".to_string()], None);
    let out = lint
        .run(&vec![LintInput::Parsed(ctx("a.k", &["short", &long], vec![]))])
        .unwrap();
    let shown = format!("a.k:2:250: E0501: Line too long (250 > 200 characters).\n{}\n{}^", long, " ".repeat(249));
    assert_eq!(
        out,
        vec![
            shown,
            String::new(),
            "Check total 1 files:".to_string(),
            "1 E0501: Line too long.".to_string(),
            "Lint: 1 problems".to_string(),
        ]
    );
}

#[test]
fn scenario_b_reimport_in_two_files() {
    let reimport = Some(DiagnosticId::Warning(WarningKind::ReimportWarning));
    let files = vec!["a.k".to_string(), "b.k".to_string()];
    let mut lint = Linter::new(".".to_string(), files, None);
    let inputs = vec![
        LintInput::Parsed(ctx("a.k", &["import math", "import math"], vec![diag(reimport, "a.k", 2, Some(0), "math is reimported multiple times", &["math"])])),
        LintInput::Parsed(ctx("b.k", &["import net", "import net"], vec![diag(reimport, "b.k", 2, Some(0), "net is reimported multiple times", &["net"])])),
    ];
    let out = lint.run(&inputs).unwrap();
    assert_eq!(counts(&lint), vec![("W0404".to_string(), 2)]);
    assert_eq!(lint.msgs.len(), 2);
    let a = lint.msgs.get_index(0).unwrap();
    let b = lint.msgs.get_index(1).unwrap();
    assert_eq!(a.pos, pos("a.k", 2, Some(1)));
    assert_eq!(b.pos, pos("b.k", 2, Some(1)));
    assert_eq!(a.source_code, "import math");
    assert_eq!(a.arguments, vec!["math".to_string()]);
    assert!(out.contains(&"Check total 2 files:".to_string()));
    assert!(out.contains(&"2 W0404: Module reimported.".to_string()));
    assert_eq!(out.last().unwrap(), "Lint: 2 problems");
}

#[test]
fn scenario_c_parse_failure() {
    let long = "y".repeat(201);
    let files = vec!["bad.k".to_string(), "good.k".to_string()];
    let mut lint = Linter::new(".".to_string(), files, None);
    let inputs = vec![
        LintInput::ParseFailed { filename: "bad.k".to_string(), reason: "unexpected token".to_string() },
        LintInput::Parsed(ctx("good.k", &[&long], vec![])),
    ];
    let out = lint.run(&inputs).unwrap();
    assert_eq!(set_ids(&lint), vec!["E0999".to_string(), "E0501".to_string()]);
    let failed = lint.msgs.get_index(0).unwrap();
    assert_eq!(failed.pos.filename, "bad.k");
    assert_eq!(failed.msg, "Parse failed: unexpected token.");
    assert_eq!(failed.arguments, vec!["unexpected token".to_string()]);
    assert!(lint.msgs.iter().all(|m| m.pos.filename != "bad.k" || m.msg_id == "E0999"));
    assert_eq!(counts(&lint), vec![("E0999".to_string(), 1), ("E0501".to_string(), 1)]);
    assert!(out.contains(&"1 E0999: Parse failed.".to_string()));
    assert_eq!(out.last().unwrap(), "Lint: 2 problems");
}

#[test]
fn no_false_positives() {
    let line = "z".repeat(200);
    let mut checker = MiscChecker::new();
    checker.check(&ctx("a.k", &["", "short", &line], vec![]), &Config::DEFAULT_CONFIG());
    assert!(checker.get_msgs().is_empty());
}

#[test]
fn exact_boundary() {
    let line = "z".repeat(201);
    let mut checker = MiscChecker::new();
    checker.check(&ctx("a.k", &["ok", &line, "ok"], vec![]), &Config::DEFAULT_CONFIG());
    let msgs = checker.get_msgs();
    assert_eq!(msgs.len(), 1);
    assert_eq!(msgs[0].msg_id, "E0501");
    assert_eq!(msgs[0].arguments, vec!["201".to_string(), "200".to_string()]);
    assert_eq!(msgs[0].pos, pos("a.k", 2, Some(201)));
}

#[test]
fn line_length_counts_characters() {
    let line = "é".repeat(5);
    let mut cfg = Config::DEFAULT_CONFIG();
    cfg.max_line_length = 4;
    let mut checker = MiscChecker::new();
    checker.check(&ctx("a.k", &[&line], vec![]), &cfg);
    let msgs = checker.get_msgs();
    assert_eq!(msgs.len(), 1);
    assert_eq!(msgs[0].arguments, vec!["5".to_string(), "4".to_string()]);
}

#[test]
fn determinism() {
    let reimport = Some(DiagnosticId::Warning(WarningKind::ReimportWarning));
    let long = "x".repeat(300);
    let make = || {
        vec![
            LintInput::Parsed(ctx("a.k", &["import a", "import a", &long], vec![diag(reimport, "a.k", 2, None, "a is reimported", &["a"])])),
            LintInput::ParseFailed { filename: "b.k".to_string(), reason: "eof".to_string() },
        ]
    };
    let files = vec!["a.k".to_string(), "b.k".to_string()];
    let mut first = Linter::new(".".to_string(), files.clone(), None);
    let mut second = Linter::new(".".to_string(), files, None);
    let out1 = first.run(&make()).unwrap();
    let out2 = second.run(&make()).unwrap();
    assert_eq!(out1, out2);
    assert_eq!(first.msgs, second.msgs);
    assert_eq!(counts(&first), counts(&second));
    let out3 = first.run(&make()).unwrap();
    assert_eq!(out1, out3);
}

#[test]
fn structural_dedup() {
    let mut lint = Linter::new(".".to_string(), vec![], None);
    lint.configure();
    let m = Message::new(
        "W0411".to_string(),
        "os is imported but unused".to_string(),
        "import os".to_string(),
        pos("a.k", 1, Some(1)),
        vec!["os".to_string()],
    );
    lint.merge(m.clone());
    lint.merge(m.clone());
    assert_eq!(lint.msgs.len(), 1);
    assert_eq!(counts(&lint), vec![("W0411".to_string(), 2)]);
    let mut other = m.clone();
    other.pos.line = 2;
    lint.merge(other);
    assert_eq!(lint.msgs.len(), 2);
    assert_eq!(counts(&lint), vec![("W0411".to_string(), 3)]);
}

#[test]
fn diagnostic_mapping() {
    let missing = Some(DiagnosticId::Error(ErrorKind::CannotFindModule));
    let c = ctx("a.k", &["import nothere"], vec![diag(missing, "a.k", 1, Some(7), "Cannot find the module nothere", &["nothere"])]);
    let mut imports = ImportChecker::new();
    let mut misc = MiscChecker::new();
    imports.check(&c, &Config::DEFAULT_CONFIG());
    misc.check(&c, &Config::DEFAULT_CONFIG());
    let found = imports.get_msgs();
    assert_eq!(found.len(), 1);
    assert_eq!(found[0].msg_id, "E0401");
    assert_eq!(found[0].msg, "Cannot find the module nothere");
    assert_eq!(found[0].source_code, "import nothere");
    assert_eq!(found[0].pos, pos("a.k", 1, Some(8)));
    assert_eq!(found[0].arguments, vec!["nothere".to_string()]);
    assert!(misc.get_msgs().is_empty());
}

#[test]
fn diagnostic_translation_edges() {
    let unused = Some(DiagnosticId::Warning(WarningKind::UnusedImportWarning));
    let position = Some(DiagnosticId::Warning(WarningKind::ImportPositionWarning));
    let syntax = Some(DiagnosticId::Error(ErrorKind::InvalidSyntax));
    let empty = Diagnostic { code: unused, messages: vec![], args: vec![] };
    let c = ctx(
        "a.k",
        &["import os"],
        vec![
            diag(unused, "a.k", 1, None, "os is imported but unused", &["os"]),
            diag(unused, "a.k", 9, Some(u64::MAX), "far away", &[]),
            diag(position, "a.k", 1, None, "misplaced", &[]),
            diag(syntax, "a.k", 1, None, "bad", &[]),
            diag(None, "a.k", 1, None, "no code", &[]),
            empty,
        ],
    );
    let mut imports = ImportChecker::new();
    imports.check(&c, &Config::DEFAULT_CONFIG());
    let found = imports.get_msgs();
    assert_eq!(found.len(), 2);
    assert_eq!(found[0].msg_id, "W0411");
    assert_eq!(found[0].pos, pos("a.k", 1, Some(1)));
    assert_eq!(found[0].source_code, "import os");
    assert_eq!(found[1].pos, pos("a.k", 9, Some(u64::MAX)));
    assert_eq!(found[1].source_code, "");
    assert_eq!(imports.get_kind(), CheckerKind::ImportCheck);
    assert_eq!(imports.get_MSGS().len(), 3);
}

#[test]
fn line_zero_has_no_source() {
    let unused = Some(DiagnosticId::Warning(WarningKind::UnusedImportWarning));
    let c = ctx("a.k", &["import os"], vec![diag(unused, "a.k", 0, Some(2), "x", &[])]);
    let found = ImportChecker::diagnostic_to_msg(&c.diagnostics[0], &c.lines).unwrap();
    assert_eq!(found.source_code, "");
    assert_eq!(found.pos, pos("a.k", 0, Some(3)));
}

#[test]
fn message_display() {
    let m = Message::new(
        "E0401".to_string(),
        "Cannot find the module x".to_string(),
        "import x".to_string(),
        pos("dir/a.k", 3, Some(8)),
        vec![],
    );
    assert_eq!(m.to_display_string(), "dir/a.k:3:8: E0401: Cannot find the module x\nimport x\n       ^");
    let no_column = Message::new("W0404".to_string(), "t".to_string(), "s".to_string(), pos("b.k", 12, None), vec![]);
    assert_eq!(no_column.to_display_string(), "b.k:12:1: W0404: t\ns\n^");
}

#[test]
fn decimal_rendering() {
    assert_eq!(decimal_string(0), "0");
    assert_eq!(decimal_string(7), "7");
    assert_eq!(decimal_string(10), "10");
    assert_eq!(decimal_string(250), "250");
    assert_eq!(decimal_string(u64::MAX), "18446744073709551615");
    assert_eq!(space_string(3), "   ");
    assert_eq!(space_string(0), "");
}

#[test]
fn default_config() {
    let cfg = Config::DEFAULT_CONFIG();
    assert_eq!(cfg.check_list, vec![CheckerKind::ImportCheck, CheckerKind::MiscChecker]);
    assert_eq!(cfg.max_line_length, 200);
    assert_eq!(cfg.output, vec![kclvm_tools::reporter::ReporterKind::Stdout]);
    assert_eq!(cfg.schema_naming_style, "PascalCase");
    assert_eq!(cfg.argument_naming_style, "camelCase");
    assert_eq!(cfg.module_naming_style, "ANY");
    assert_eq!(cfg.bad_names.len(), 8);
    assert_eq!(cfg.bad_names[0], "foo");
    assert!(cfg.module_rgx.is_none());
}

#[test]
fn config_update_takes_given_options() {
    let mut cfg = Config::DEFAULT_CONFIG();
    let mut other = Config::DEFAULT_CONFIG();
    other.max_line_length = 80;
    other.check_list = vec![CheckerKind::MiscChecker];
    cfg.update(other);
    assert_eq!(cfg.max_line_length, 80);
    assert_eq!(cfg.check_list, vec![CheckerKind::MiscChecker]);
}

#[test]
fn given_config_steers_run() {
    let mut cfg = Config::DEFAULT_CONFIG();
    cfg.max_line_length = 3;
    cfg.check_list = vec![CheckerKind::MiscChecker];
    let missing = Some(DiagnosticId::Error(ErrorKind::CannotFindModule));
    let mut lint = Linter::new("a.k".to_string(), vec!["a.k".to_string()], Some(cfg));
    let out = lint
        .run(&vec![LintInput::Parsed(ctx("a.k", &["abcd", "abc"], vec![diag(missing, "a.k", 1, None, "m", &[])]))])
        .unwrap();
    assert_eq!(set_ids(&lint), vec!["E0501".to_string()]);
    assert_eq!(lint.catalog.len(), 2);
    assert_eq!(out.last().unwrap(), "Lint: 1 problems");
}

#[test]
fn basic_checker_is_served_by_import_checker() {
    let checker = BaseChecker::new(CheckerKind::BasicChecker);
    assert_eq!(checker.kind, CheckerKind::BasicChecker);
    assert_eq!(checker.get_kind(), CheckerKind::ImportCheck);
    let mut cfg = Config::DEFAULT_CONFIG();
    cfg.check_list = vec![CheckerKind::ImportCheck, CheckerKind::BasicChecker, CheckerKind::MiscChecker];
    let mut lint = Linter::new(".".to_string(), vec![], Some(cfg));
    lint.configure();
    assert_eq!(lint.checkers.len(), 3);
    assert_eq!(lint.catalog.len(), 5);
    let ids: Vec<String> = lint.catalog.keys().cloned().collect();
    assert_eq!(ids, vec!["E0999", "E0401", "W0404", "W0411", "E0501"]);
}

#[test]
fn unknown_id_has_empty_description() {
    let mut lint = Linter::new(".".to_string(), vec![], None);
    lint.configure();
    lint.merge(Message::new("X0001".to_string(), "odd".to_string(), String::new(), pos("a.k", 1, Some(1)), vec![]));
    let out = lint.report();
    assert!(out.contains(&"1 X0001: ".to_string()));
    assert!(out.contains(&"Check total 0 files:".to_string()));
}

#[test]
fn too_many_findings() {
    let mut lint = Linter::new(".".to_string(), vec![], None);
    lint.configure();
    lint.occurrences = u64::MAX;
    let r = lint.lint_file(&LintInput::ParseFailed { filename: "a.k".to_string(), reason: "x".to_string() });
    assert_eq!(r, Err(LintError::TooManyFindings));
    assert_eq!(lint.msgs.len(), 0);
}

#[test]
fn kcl_file_names() {
    assert!(is_kclfile("main.k"));
    assert!(is_kclfile("dir/x.k"));
    assert!(!is_kclfile("k"));
    assert!(!is_kclfile("main.kcl"));
    assert!(!is_kclfile(".kk"));
    assert!(is_kclfile(".k"));
}

#[test]
fn format_summary_lines() {
    let opts = FormatOptions::default();
    assert_eq!(format_summary(&vec![], &opts), vec!["KCL format done and 0 file was formatted:".to_string()]);
    let changed = vec!["a.k".to_string(), "b.k".to_string()];
    assert_eq!(
        format_summary(&changed, &opts),
        vec!["KCL format done and 2 files were formatted:".to_string(), "a.k".to_string(), "b.k".to_string()]
    );
    let quiet = FormatOptions { is_stdout: true, recursively: false };
    assert!(format_summary(&changed, &quiet).is_empty());
}
