//! Checker identities, the checker interface, and dispatch over the
//! available checkers.

use vstd::prelude::*;
use indexmap::IndexMap;
use crate::collections::catalog_entries;
use crate::config::Config;
use crate::context::{Context, ContextView};
use crate::imports::{ImportChecker, import_catalog, import_findings, messages_view};
use crate::message::{MSG, Message, MessageView, MsgView};
use crate::misc::{MiscChecker, misc_catalog, misc_findings};

verus! {

/// The rule sets a run can enable.
#[derive(Debug, Clone, Copy, Hash, PartialEq, Eq, Structural)]
pub enum CheckerKind {
    ImportCheck,
    MiscChecker,
    BasicChecker,
}

/// The checker that serves a kind: the basic rules have no checker of their
/// own yet and are served by the import checker.
pub open spec fn serving_kind(kind: CheckerKind) -> CheckerKind {
    match kind {
        CheckerKind::MiscChecker => CheckerKind::MiscChecker,
        _ => CheckerKind::ImportCheck,
    }
}

/// What a checker of the given kind finds in one file.
pub open spec fn checker_findings(kind: CheckerKind, ctx: ContextView, max_line_length: nat) -> Seq<
    MessageView,
> {
    match kind {
        CheckerKind::MiscChecker => misc_findings(ctx.filename, ctx.lines, max_line_length),
        _ => import_findings(ctx),
    }
}

/// The catalog of a checker of the given kind.
pub open spec fn checker_catalog(kind: CheckerKind) -> Seq<(Seq<char>, MsgView)> {
    match kind {
        CheckerKind::MiscChecker => misc_catalog(),
        _ => import_catalog(),
    }
}

/// A rule checker. It is run on one file at a time and keeps every finding
/// it made during the run.
pub trait Check {
    /// The kind of the checker.
    spec fn kind_spec(&self) -> CheckerKind;

    /// The findings made so far, in order.
    spec fn msgs_spec(&self) -> Seq<MessageView>;

    /// The catalog entries of the checker's finding ids.
    spec fn catalog_spec(&self) -> Seq<(Seq<char>, MsgView)>;

    /// Checks one file and records its findings after the earlier ones.
    fn check(&mut self, ctx: &Context, cfg: &Config)
        ensures
            final(self).kind_spec() == old(self).kind_spec(),
            final(self).catalog_spec() == old(self).catalog_spec(),
            final(self).msgs_spec() == old(self).msgs_spec() + checker_findings(
                old(self).kind_spec(),
                ctx@,
                cfg.max_line_length as nat,
            ),
    ;

    /// The findings made so far.
    fn get_msgs(&self) -> (r: &Vec<Message>)
        ensures
            messages_view(r@) == self.msgs_spec(),
    ;

    /// The catalog of the checker's finding ids.
    #[allow(non_snake_case)]
    fn get_MSGS(&self) -> (r: &IndexMap<String, MSG>)
        ensures
            catalog_entries(*r) == self.catalog_spec(),
    ;

    /// The kind of the checker.
    fn get_kind(&self) -> (r: CheckerKind)
        ensures
            r == self.kind_spec(),
    ;
}

/// One of the available checkers.
pub enum SubChecker {
    Import(ImportChecker),
    Misc(MiscChecker),
}

/// Makes checkers by kind.
pub struct CheckerFacotry {}

impl CheckerFacotry {
    /// A fresh checker serving `checker`, with no findings.
    pub fn new_checker(checker: CheckerKind) -> (r: SubChecker)
        ensures
            r.kind_spec() == serving_kind(checker),
            r.catalog_spec() == checker_catalog(checker),
            r.msgs_spec().len() == 0,
    {
        match checker {
            CheckerKind::MiscChecker => SubChecker::Misc(MiscChecker::new()),
            _ => SubChecker::Import(ImportChecker::new()),
        }
    }
}

impl Check for SubChecker {
    open spec fn kind_spec(&self) -> CheckerKind {
        match self {
            SubChecker::Import(c) => c.kind_spec(),
            SubChecker::Misc(c) => c.kind_spec(),
        }
    }

    open spec fn msgs_spec(&self) -> Seq<MessageView> {
        match self {
            SubChecker::Import(c) => c.msgs_spec(),
            SubChecker::Misc(c) => c.msgs_spec(),
        }
    }

    open spec fn catalog_spec(&self) -> Seq<(Seq<char>, MsgView)> {
        match self {
            SubChecker::Import(c) => c.catalog_spec(),
            SubChecker::Misc(c) => c.catalog_spec(),
        }
    }

    fn check(&mut self, ctx: &Context, cfg: &Config) {
        match self {
            SubChecker::Import(c) => c.check(ctx, cfg),
            SubChecker::Misc(c) => c.check(ctx, cfg),
        }
    }

    fn get_msgs(&self) -> (r: &Vec<Message>) {
        match self {
            SubChecker::Import(c) => c.get_msgs(),
            SubChecker::Misc(c) => c.get_msgs(),
        }
    }

    fn get_MSGS(&self) -> (r: &IndexMap<String, MSG>) {
        match self {
            SubChecker::Import(c) => c.get_MSGS(),
            SubChecker::Misc(c) => c.get_MSGS(),
        }
    }

    fn get_kind(&self) -> (r: CheckerKind) {
        match self {
            SubChecker::Import(c) => c.get_kind(),
            SubChecker::Misc(c) => c.get_kind(),
        }
    }
}

/// A registered checker: the kind it was registered for and the checker
/// that serves it.
pub struct BaseChecker {
    pub kind: CheckerKind,
    pub sub_checker: SubChecker,
}

impl BaseChecker {
    pub fn new(kind: CheckerKind) -> (r: BaseChecker)
        ensures
            r.kind == kind,
            r.kind_spec() == serving_kind(kind),
            r.catalog_spec() == checker_catalog(kind),
            r.msgs_spec().len() == 0,
    {
        let sub_checker = CheckerFacotry::new_checker(kind);
        BaseChecker { kind, sub_checker }
    }
}

impl Check for BaseChecker {
    open spec fn kind_spec(&self) -> CheckerKind {
        self.sub_checker.kind_spec()
    }

    open spec fn msgs_spec(&self) -> Seq<MessageView> {
        self.sub_checker.msgs_spec()
    }

    open spec fn catalog_spec(&self) -> Seq<(Seq<char>, MsgView)> {
        self.sub_checker.catalog_spec()
    }

    fn check(&mut self, ctx: &Context, cfg: &Config) {
        self.sub_checker.check(ctx, cfg)
    }

    fn get_msgs(&self) -> (r: &Vec<Message>) {
        self.sub_checker.get_msgs()
    }

    fn get_MSGS(&self) -> (r: &IndexMap<String, MSG>) {
        self.sub_checker.get_MSGS()
    }

    fn get_kind(&self) -> (r: CheckerKind) {
        self.sub_checker.get_kind()
    }
}

} // verus!
