//! The linter: registers checkers and reporters, runs every checker over
//! each file, and aggregates the findings of a run into a set of distinct
//! findings and a count of occurrences per id.

use vstd::prelude::*;
use indexmap::{IndexMap, IndexSet};
use crate::base_checker::{
    BaseChecker, Check, CheckerKind, checker_catalog, checker_findings, serving_kind,
};
use crate::collections::{
    catalog_entries, catalog_get_index, catalog_insert, catalog_inserted, catalog_len,
    lemma_key_index_push, message_set_insert, message_set_items, new_catalog, new_message_set,
    set_inserted,
};
use crate::config::{Config, is_default_config};
use crate::context::{ContextView, LintInput, LintInputView};
use crate::imports::{catalog_entry, diagnostics_findings, id_string, messages_view};
use crate::message::{MSG, Message, MessageView, MsgView, Position, PositionView, strings_view};
use crate::misc::misc_findings;
use crate::reporter::{BaseReporter, DisplayMsg, ReporterKind, reporter_lines};

verus! {

/// Id of a file that could not be parsed.
pub open spec fn id_parse_failed() -> Seq<char> {
    seq!['E', '0', '9', '9', '9']
}

/// The finding for a file that could not be parsed.
pub open spec fn parse_failed_finding(filename: Seq<char>, reason: Seq<char>) -> MessageView {
    MessageView {
        msg_id: id_parse_failed(),
        msg: "Parse failed: "@ + reason + "."@,
        source_code: Seq::empty(),
        pos: PositionView { filename, line: 1, column: Some(1) },
        arguments: seq![reason],
    }
}

/// The catalog entries the linter itself owns.
pub open spec fn linter_catalog() -> Seq<(Seq<char>, MsgView)> {
    seq![
        (id_parse_failed(), MsgView {
            id: id_parse_failed(),
            short_info: "Parse failed."@,
            long_info: "Parse failed: {}."@,
            sarif_info: "Parse failed: '{0}'."@,
        }),
    ]
}

/// `e` after inserting every entry of `add`, in order.
pub open spec fn catalog_merged(e: Seq<(Seq<char>, MsgView)>, add: Seq<(Seq<char>, MsgView)>) -> Seq<
    (Seq<char>, MsgView),
>
    decreases add.len(),
{
    if add.len() == 0 {
        e
    } else {
        let prev = catalog_merged(e, add.drop_last());
        catalog_inserted(prev, add.last().0, add.last().1)
    }
}

/// `e` after merging in the catalog of each kind, in order.
pub open spec fn registered_catalog(e: Seq<(Seq<char>, MsgView)>, kinds: Seq<CheckerKind>) -> Seq<
    (Seq<char>, MsgView),
>
    decreases kinds.len(),
{
    if kinds.len() == 0 {
        e
    } else {
        catalog_merged(registered_catalog(e, kinds.drop_last()), checker_catalog(kinds.last()))
    }
}

/// What checkers of the given kinds find in one file, checker by checker.
pub open spec fn checkers_findings(kinds: Seq<CheckerKind>, ctx: ContextView, max_line_length: nat) -> Seq<
    MessageView,
>
    decreases kinds.len(),
{
    if kinds.len() == 0 {
        Seq::empty()
    } else {
        checkers_findings(kinds.drop_last(), ctx, max_line_length) + checker_findings(
            kinds.last(),
            ctx,
            max_line_length,
        )
    }
}

/// The findings of one file: those of every checker if it parsed, else the
/// one parse-failure finding.
pub open spec fn file_findings(kinds: Seq<CheckerKind>, input: LintInputView, max_line_length: nat) -> Seq<
    MessageView,
> {
    match input {
        LintInputView::Parsed(ctx) => checkers_findings(kinds, ctx, max_line_length),
        LintInputView::ParseFailed { filename, reason } => seq![
            parse_failed_finding(filename, reason),
        ],
    }
}

/// Every finding of a run over `inputs`, in the order they were made.
pub open spec fn run_history(kinds: Seq<CheckerKind>, inputs: Seq<LintInputView>, max_line_length: nat) -> Seq<
    MessageView,
>
    decreases inputs.len(),
{
    if inputs.len() == 0 {
        Seq::empty()
    } else {
        run_history(kinds, inputs.drop_last(), max_line_length) + file_findings(
            kinds,
            inputs.last(),
            max_line_length,
        )
    }
}

/// An upper bound on the number of findings of one file, used to keep the
/// occurrence counts in range.
pub open spec fn input_bound(n_checkers: nat, input: LintInputView) -> nat {
    match input {
        LintInputView::Parsed(ctx) => n_checkers * (ctx.lines.len() + ctx.diagnostics.len()),
        LintInputView::ParseFailed { .. } => 1,
    }
}

/// The counts stay in range over the whole run: before each file, the
/// findings so far plus the file's bound fit in a `u64`.
pub open spec fn run_fits(kinds: Seq<CheckerKind>, inputs: Seq<LintInputView>, max_line_length: nat) -> bool
    decreases inputs.len(),
{
    if inputs.len() == 0 {
        true
    } else {
        run_fits(kinds, inputs.drop_last(), max_line_length) && run_history(
            kinds,
            inputs.drop_last(),
            max_line_length,
        ).len() + input_bound(kinds.len(), inputs.last()) <= u64::MAX
    }
}

/// The number of findings with id `id` among `h`.
pub open spec fn count_of(h: Seq<MessageView>, id: Seq<char>) -> nat
    decreases h.len(),
{
    if h.len() == 0 {
        0
    } else {
        count_of(h.drop_last(), id) + if h.last().msg_id == id {
            1nat
        } else {
            0nat
        }
    }
}

/// The distinct findings of `h`, in order of first occurrence.
pub open spec fn distinct_findings(h: Seq<MessageView>) -> Seq<MessageView>
    decreases h.len(),
{
    if h.len() == 0 {
        Seq::empty()
    } else {
        set_inserted(distinct_findings(h.drop_last()), h.last())
    }
}

/// The distinct ids of `h`, in order of first occurrence.
pub open spec fn id_order(h: Seq<MessageView>) -> Seq<Seq<char>>
    decreases h.len(),
{
    if h.len() == 0 {
        Seq::empty()
    } else {
        let prev = id_order(h.drop_last());
        if prev.contains(h.last().msg_id) {
            prev
        } else {
            prev.push(h.last().msg_id)
        }
    }
}

/// The count map of `h`: each id, in order of first occurrence, with the
/// number of its occurrences.
pub open spec fn count_entries(h: Seq<MessageView>) -> Seq<(Seq<char>, nat)> {
    id_order(h).map_values(|id: Seq<char>| (id, count_of(h, id)))
}

/// How the aggregate steps when one more finding is merged.
pub proof fn lemma_history_push(h: Seq<MessageView>, m: MessageView)
    ensures
        distinct_findings(h.push(m)) == set_inserted(distinct_findings(h), m),
        id_order(h.push(m)) == (if id_order(h).contains(m.msg_id) {
            id_order(h)
        } else {
            id_order(h).push(m.msg_id)
        }),
        forall|id: Seq<char>| #[trigger]
            count_of(h.push(m), id) == count_of(h, id) + if m.msg_id == id {
                1nat
            } else {
                0nat
            },
{
    assert(h.push(m).drop_last() =~= h);
}

/// Ids outside `id_order(h)` do not occur in `h`; ids in it occur.
pub proof fn lemma_id_order_count(h: Seq<MessageView>, id: Seq<char>)
    ensures
        id_order(h).contains(id) <==> count_of(h, id) > 0,
        count_of(h, id) <= h.len(),
    decreases h.len(),
{
    if h.len() > 0 {
        let p = h.drop_last();
        let x = h.last();
        lemma_id_order_count(p, id);
        lemma_history_push(p, x);
        assert(p.push(x) =~= h);
        let op = id_order(p);
        if op.contains(id) {
            let k = choose|k: int| 0 <= k < op.len() && op[k] == id;
            assert(id_order(h)[k] == id);
        } else if x.msg_id == id {
            assert(id_order(h) == op.push(id));
            assert(id_order(h)[op.len() as int] == id);
        } else {
            assert(count_of(h, id) == count_of(p, id));
            if id_order(h).contains(id) {
                let k = choose|k: int| 0 <= k < id_order(h).len() && id_order(h)[k] == id;
                if k < op.len() {
                    assert(op[k] == id);
                }
            }
        }
    }
}

/// No id occurs twice in `id_order(h)`.
pub proof fn lemma_id_order_distinct(h: Seq<MessageView>)
    ensures
        id_order(h).no_duplicates(),
    decreases h.len(),
{
    if h.len() > 0 {
        lemma_id_order_distinct(h.drop_last());
    }
}

/// No finding occurs twice in `distinct_findings(h)`, and it holds exactly
/// the findings of `h`.
pub proof fn lemma_distinct_findings(h: Seq<MessageView>)
    ensures
        distinct_findings(h).no_duplicates(),
        forall|m: MessageView| distinct_findings(h).contains(m) <==> h.contains(m),
    decreases h.len(),
{
    if h.len() > 0 {
        let p = h.drop_last();
        lemma_distinct_findings(p);
        assert(p.push(h.last()) =~= h);
        let dp = distinct_findings(p);
        let x = h.last();
        assert forall|m: MessageView| distinct_findings(h).contains(m) <==> h.contains(m) by {
            if h.contains(m) {
                let k = choose|k: int| 0 <= k < h.len() && h[k] == m;
                if k < p.len() {
                    assert(p[k] == m);
                    assert(p.contains(m));
                    assert(dp.contains(m));
                    let j = choose|j: int| 0 <= j < dp.len() && dp[j] == m;
                    assert(distinct_findings(h)[j] == m);
                } else {
                    assert(m == x);
                    if !dp.contains(m) {
                        assert(distinct_findings(h)[dp.len() as int] == m);
                    }
                }
            }
            if distinct_findings(h).contains(m) {
                if dp.contains(m) {
                    assert(p.contains(m));
                    let k = choose|k: int| 0 <= k < p.len() && p[k] == m;
                    assert(h[k] == m);
                } else {
                    let k = choose|k: int|
                        0 <= k < distinct_findings(h).len() && distinct_findings(h)[k] == m;
                    assert(k == dp.len());
                    assert(h[h.len() - 1] == m);
                }
            }
        }
    }
}

/// The import checker makes at most one finding per diagnostic.
pub proof fn lemma_diagnostics_findings_len(ds: Seq<crate::context::DiagnosticView>, lines: Seq<Seq<char>>)
    ensures
        diagnostics_findings(ds, lines).len() <= ds.len(),
    decreases ds.len(),
{
    if ds.len() > 0 {
        lemma_diagnostics_findings_len(ds.drop_last(), lines);
    }
}

/// The misc checker makes at most one finding per line.
pub proof fn lemma_misc_findings_len(filename: Seq<char>, lines: Seq<Seq<char>>, max_line_length: nat)
    ensures
        misc_findings(filename, lines, max_line_length).len() <= lines.len(),
    decreases lines.len(),
{
    if lines.len() > 0 {
        lemma_misc_findings_len(filename, lines.drop_last(), max_line_length);
    }
}

/// How often findings with one id occurred in a run.
pub struct IdCount {
    pub id: String,
    pub count: u64,
}

/// The count map as ids with their counts, in order.
pub open spec fn counts_view(v: Seq<IdCount>) -> Seq<(Seq<char>, nat)> {
    v.map_values(|c: IdCount| (c.id@, c.count as nat))
}

/// Why a run could not go on.
#[derive(Debug, Clone, Copy, PartialEq, Eq, Structural)]
pub enum LintError {
    /// The occurrence counts could leave the range of `u64`.
    TooManyFindings,
}

/// Builds the linter's own catalog.
pub fn linter_msgs() -> (r: IndexMap<String, MSG>)
    ensures
        catalog_entries(r) == linter_catalog(),
{
    proof {
        reveal_strlit("E0999");
    }
    assert("E0999"@ =~= id_parse_failed());
    let mut m = new_catalog();
    let (k, v) = catalog_entry("E0999", "Parse failed.", "Parse failed: {}.", "Parse failed: '{0}'.");
    catalog_insert(&mut m, k, v);
    proof {
        let e0 = Seq::<(Seq<char>, MsgView)>::empty();
        lemma_key_index_push(e0, linter_catalog()[0], linter_catalog()[0].0);
        assert(e0.push(linter_catalog()[0]) =~= linter_catalog());
    }
    m
}

/// Builds the finding for a file that could not be parsed.
pub fn parse_failed_msg(filename: &String, reason: &String) -> (r: Message)
    ensures
        r@ == parse_failed_finding(filename@, reason@),
{
    proof {
        reveal_strlit("E0999");
    }
    assert("E0999"@ =~= id_parse_failed());
    let mut text = String::from_str("Parse failed: ");
    text.append(reason.as_str());
    text.append(".");
    let r = Message {
        msg_id: id_string("E0999"),
        msg: text,
        source_code: String::new(),
        pos: Position { filename: filename.clone(), line: 1, column: Some(1) },
        arguments: vec![reason.clone()],
    };
    assert(r@.arguments =~= seq![reason@]);
    r
}

/// Takes the default options, or the given ones.
pub fn load_config(config: Option<Config>) -> (r: Config)
    ensures
        match config {
            Some(c) => r == c,
            None => is_default_config(&r),
        },
{
    let mut cfg = Config::DEFAULT_CONFIG();
    match config {
        Some(config) => cfg.update(config),
        None => {},
    }
    cfg
}

/// A lint run over a list of files: its options, its registered checkers
/// and reporters, and the aggregate of its findings.
pub struct Linter {
    pub path: String,
    pub file_list: Vec<String>,
    pub checkers: Vec<BaseChecker>,
    pub reporters: Vec<BaseReporter>,
    pub config: Config,
    /// The distinct findings, in order of first occurrence.
    pub msgs: IndexSet<Message>,
    /// The catalog of every registered id.
    pub catalog: IndexMap<String, MSG>,
    /// The number of occurrences of each id.
    pub msgs_map: Vec<IdCount>,
    /// The number of findings merged so far, repeated ones included.
    pub occurrences: u64,
    /// Every finding merged so far, in order.
    pub history: Ghost<Seq<MessageView>>,
}

/// The serving kinds of a sequence of checkers.
pub open spec fn checker_kinds(cs: Seq<BaseChecker>) -> Seq<CheckerKind> {
    cs.map_values(|c: BaseChecker| c.kind_spec())
}

/// The kinds of a sequence of reporters.
pub open spec fn reporter_kinds(rs: Seq<BaseReporter>) -> Seq<ReporterKind> {
    rs.map_values(|r: BaseReporter| r.kind_spec())
}

/// Every reporter's lines for the state of `lint`, reporter by reporter.
pub open spec fn all_reporter_lines(kinds: Seq<ReporterKind>, lint: &Linter) -> Seq<Seq<char>>
    decreases kinds.len(),
{
    if kinds.len() == 0 {
        Seq::empty()
    } else {
        all_reporter_lines(kinds.drop_last(), lint) + reporter_lines(kinds.last(), lint)
    }
}

impl Linter {
    /// The aggregate agrees with the findings merged so far.
    pub open spec fn wf(&self) -> bool {
        &&& message_set_items(self.msgs) == distinct_findings(self.history@)
        &&& counts_view(self.msgs_map@) == count_entries(self.history@)
        &&& self.occurrences == self.history@.len()
    }

    /// The options, file list, registrations and catalog of `self` and
    /// `other` are the same.
    pub open spec fn same_setup(&self, other: &Linter) -> bool {
        &&& self.path == other.path
        &&& self.file_list == other.file_list
        &&& checker_kinds(self.checkers@) == checker_kinds(other.checkers@)
        &&& self.reporters == other.reporters
        &&& self.config == other.config
        &&& self.catalog == other.catalog
    }

    /// A linter over `file_list`, found under `path`, with the given options
    /// (the defaults where there are none). Nothing is registered yet.
    pub fn new(path: String, file_list: Vec<String>, config: Option<Config>) -> (r: Linter)
        ensures
            r.wf(),
            r.path == path,
            r.file_list == file_list,
            match config {
                Some(c) => r.config == c,
                None => is_default_config(&r.config),
            },
            r.checkers@.len() == 0,
            r.reporters@.len() == 0,
            catalog_entries(r.catalog) == linter_catalog(),
            r.history@.len() == 0,
    {
        let r = Linter {
            path,
            file_list,
            checkers: Vec::new(),
            reporters: Vec::new(),
            config: load_config(config),
            msgs: new_message_set(),
            catalog: linter_msgs(),
            msgs_map: Vec::new(),
            occurrences: 0,
            history: Ghost(Seq::empty()),
        };
        assert(counts_view(r.msgs_map@) =~= count_entries(r.history@));
        r
    }

    /// Drops every registration and finding of an earlier run.
    fn reset(&mut self)
        ensures
            final(self).wf(),
            final(self).path == old(self).path,
            final(self).file_list == old(self).file_list,
            final(self).config == old(self).config,
            final(self).checkers@.len() == 0,
            final(self).reporters@.len() == 0,
            catalog_entries(final(self).catalog) == linter_catalog(),
            final(self).history@.len() == 0,
    {
        self.reporters = Vec::new();
        self.checkers = Vec::new();
        self.catalog = linter_msgs();
        self.msgs = new_message_set();
        self.msgs_map = Vec::new();
        self.occurrences = 0;
        self.history = Ghost(Seq::empty());
        assert(counts_view(self.msgs_map@) =~= count_entries(self.history@));
    }

    /// Registers one checker per kind, in order, and adds each checker's
    /// catalog to the run's catalog.
    fn register_checkers(&mut self, checkers: Vec<CheckerKind>)
        ensures
            checker_kinds(final(self).checkers@) == checker_kinds(old(self).checkers@)
                + checkers@.map_values(|k: CheckerKind| serving_kind(k)),
            catalog_entries(final(self).catalog) == registered_catalog(
                catalog_entries(old(self).catalog),
                checkers@,
            ),
            final(self).path == old(self).path,
            final(self).file_list == old(self).file_list,
            final(self).config == old(self).config,
            final(self).reporters == old(self).reporters,
            final(self).msgs == old(self).msgs,
            final(self).msgs_map == old(self).msgs_map,
            final(self).occurrences == old(self).occurrences,
            final(self).history == old(self).history,
    {
        let ghost start = catalog_entries(self.catalog);
        let ghost kinds0 = checker_kinds(self.checkers@);
        let mut i: usize = 0;
        while i < checkers.len()
            invariant
                i <= checkers@.len(),
                checker_kinds(self.checkers@) == kinds0 + checkers@.subrange(0, i as int).map_values(
                    |k: CheckerKind| serving_kind(k),
                ),
                catalog_entries(self.catalog) == registered_catalog(start, checkers@.subrange(0, i as int)),
                self.path == old(self).path,
                self.file_list == old(self).file_list,
                self.config == old(self).config,
                self.reporters == old(self).reporters,
                self.msgs == old(self).msgs,
                self.msgs_map == old(self).msgs_map,
                self.occurrences == old(self).occurrences,
                self.history == old(self).history,
            decreases checkers@.len() - i,
        {
            let kind = checkers[i];
            let checker = BaseChecker::new(kind);
            let ghost before = catalog_entries(self.catalog);
            let ghost cs0 = self.checkers@;
            let entries = checker.get_MSGS();
            let ghost add = catalog_entries(*entries);
            let n = catalog_len(entries);
            let mut j: usize = 0;
            while j < n
                invariant
                    n == add.len(),
                    add == catalog_entries(*entries),
                    j <= n,
                    catalog_entries(self.catalog) == catalog_merged(before, add.subrange(0, j as int)),
                    self.checkers@ == cs0,
                    self.path == old(self).path,
                    self.file_list == old(self).file_list,
                    self.config == old(self).config,
                    self.reporters == old(self).reporters,
                    self.msgs == old(self).msgs,
                    self.msgs_map == old(self).msgs_map,
                    self.occurrences == old(self).occurrences,
                    self.history == old(self).history,
                decreases n - j,
            {
                match catalog_get_index(entries, j) {
                    Some((k, v)) => {
                        catalog_insert(&mut self.catalog, k.clone(), v.copy());
                        assert(add.subrange(0, j + 1).drop_last() =~= add.subrange(0, j as int));
                    },
                    None => {},
                }
                j = j + 1;
            }
            assert(add.subrange(0, n as int) =~= add);
            let ghost cs = self.checkers@;
            self.checkers.push(checker);
            proof {
                let sub = checkers@.subrange(0, i + 1);
                assert(sub.drop_last() =~= checkers@.subrange(0, i as int));
                assert(checker_kinds(cs.push(checker)) =~= checker_kinds(cs).push(serving_kind(kind)));
                assert(sub.map_values(|k: CheckerKind| serving_kind(k)) =~= checkers@.subrange(
                    0,
                    i as int,
                ).map_values(|k: CheckerKind| serving_kind(k)).push(serving_kind(kind)));
            }
            i = i + 1;
        }
        assert(checkers@.subrange(0, i as int) =~= checkers@);
    }

    /// Registers one reporter per kind, in order.
    fn register_reporters(&mut self, reporters: Vec<ReporterKind>)
        ensures
            reporter_kinds(final(self).reporters@) == reporter_kinds(old(self).reporters@) + reporters@,
            final(self).path == old(self).path,
            final(self).file_list == old(self).file_list,
            final(self).config == old(self).config,
            final(self).checkers == old(self).checkers,
            final(self).catalog == old(self).catalog,
            final(self).msgs == old(self).msgs,
            final(self).msgs_map == old(self).msgs_map,
            final(self).occurrences == old(self).occurrences,
            final(self).history == old(self).history,
    {
        let ghost kinds0 = reporter_kinds(self.reporters@);
        let mut i: usize = 0;
        while i < reporters.len()
            invariant
                i <= reporters@.len(),
                reporter_kinds(self.reporters@) == kinds0 + reporters@.subrange(0, i as int),
                self.path == old(self).path,
                self.file_list == old(self).file_list,
                self.config == old(self).config,
                self.checkers == old(self).checkers,
                self.catalog == old(self).catalog,
                self.msgs == old(self).msgs,
                self.msgs_map == old(self).msgs_map,
                self.occurrences == old(self).occurrences,
                self.history == old(self).history,
            decreases reporters@.len() - i,
        {
            let kind = reporters[i];
            let ghost rs = self.reporters@;
            let reporter = BaseReporter::new(kind);
            self.reporters.push(reporter);
            assert(reporter_kinds(self.reporters@) =~= reporter_kinds(rs).push(kind));
            assert(reporters@.subrange(0, i + 1) =~= reporters@.subrange(0, i as int).push(kind));
            i = i + 1;
        }
        assert(reporters@.subrange(0, i as int) =~= reporters@);
    }

    /// Adds one finding to the aggregate: to the set if no equal finding is
    /// held yet, and to the count of its id in any case.
    pub fn merge(&mut self, m: Message)
        requires
            old(self).wf(),
            old(self).occurrences < u64::MAX,
        ensures
            final(self).wf(),
            final(self).history@ == old(self).history@.push(m@),
            final(self).same_setup(old(self)),
            final(self).checkers == old(self).checkers,
    {
        let ghost h = self.history@;
        let ghost mv = m@;
        let ghost h2 = h.push(mv);
        proof {
            lemma_history_push(h, mv);
            lemma_id_order_distinct(h);
            lemma_id_order_count(h, mv.msg_id);
        }
        let ghost old_counts = counts_view(self.msgs_map@);
        let ghost old_map = self.msgs_map@;
        assert(old_counts == count_entries(h));
        assert(old_counts.len() == id_order(h).len());
        match find_count(&self.msgs_map, &m.msg_id) {
            Some(j) => {
                let c = self.msgs_map[j].count;
                assert(count_entries(h)[j as int] == (id_order(h)[j as int], count_of(h, id_order(h)[j as int])));
                assert(old_counts[j as int] == (old_map[j as int].id@, old_map[j as int].count as nat));
                assert(id_order(h)[j as int] == mv.msg_id);
                let id = self.msgs_map[j].id.clone();
                self.msgs_map.set(j, IdCount { id, count: c + 1 });
                proof {
                    assert(id_order(h).contains(mv.msg_id)) by {
                        assert(id_order(h)[j as int] == mv.msg_id);
                    }
                    assert(id_order(h2) == id_order(h));
                    let nv = counts_view(self.msgs_map@);
                    let ce = count_entries(h2);
                    assert forall|k: int| 0 <= k < id_order(h).len() implies #[trigger] nv[k] == ce[k] by {
                        let idk = id_order(h)[k];
                        assert(count_entries(h)[k] == (idk, count_of(h, idk)));
                        assert(ce[k] == (idk, count_of(h2, idk)));
                        assert(count_of(h2, idk) == count_of(h, idk) + if mv.msg_id == idk {
                            1nat
                        } else {
                            0nat
                        });
                        if k != j {
                            assert(id_order(h)[k] != id_order(h)[j as int]);
                            assert(self.msgs_map@[k] == old_map[k]);
                            assert(old_counts[k] == (old_map[k].id@, old_map[k].count as nat));
                        } else {
                            assert(self.msgs_map@[k].id@ == old_map[k].id@);
                        }
                    }
                    assert(nv.len() == ce.len());
                    assert(nv =~= ce);
                }
            },
            None => {
                self.msgs_map.push(IdCount { id: m.msg_id.clone(), count: 1 });
                proof {
                    assert(!id_order(h).contains(mv.msg_id)) by {
                        if id_order(h).contains(mv.msg_id) {
                            let k = choose|k: int| 0 <= k < id_order(h).len() && id_order(h)[k] == mv.msg_id;
                            assert(count_entries(h)[k].0 == mv.msg_id);
                            assert(old_counts[k] == (old_map[k].id@, old_map[k].count as nat));
                            assert(old_map[k].id@ != mv.msg_id);
                        }
                    }
                    assert(id_order(h2) == id_order(h).push(mv.msg_id));
                    assert(count_of(h, mv.msg_id) == 0);
                    let nv = counts_view(self.msgs_map@);
                    let ce = count_entries(h2);
                    assert forall|k: int| 0 <= k < id_order(h2).len() implies #[trigger] nv[k] == ce[k] by {
                        let idk = id_order(h2)[k];
                        assert(ce[k] == (idk, count_of(h2, idk)));
                        assert(count_of(h2, idk) == count_of(h, idk) + if mv.msg_id == idk {
                            1nat
                        } else {
                            0nat
                        });
                        if k < id_order(h).len() {
                            assert(id_order(h)[k] == idk);
                            assert(id_order(h).contains(idk));
                            assert(idk != mv.msg_id);
                            assert(count_entries(h)[k] == (idk, count_of(h, idk)));
                            assert(self.msgs_map@[k] == old_map[k]);
                            assert(old_counts[k] == (old_map[k].id@, old_map[k].count as nat));
                        }
                    }
                    assert(nv.len() == ce.len());
                    assert(nv =~= ce);
                }
            },
        }
        message_set_insert(&mut self.msgs, m);
        self.occurrences = self.occurrences + 1;
        self.history = Ghost(h2);
    }

    /// Merges `ms[from..]`, in order.
    pub fn merge_from(&mut self, ms: &Vec<Message>, from: usize)
        requires
            old(self).wf(),
            from <= ms@.len(),
            old(self).occurrences + (ms@.len() - from) <= u64::MAX,
        ensures
            final(self).wf(),
            final(self).history@ == old(self).history@ + messages_view(ms@).subrange(
                from as int,
                ms@.len() as int,
            ),
            final(self).same_setup(old(self)),
            final(self).checkers == old(self).checkers,
    {
        let ghost h0 = self.history@;
        let mut i: usize = from;
        while i < ms.len()
            invariant
                from <= i <= ms@.len(),
                self.wf(),
                self.history@ == h0 + messages_view(ms@).subrange(from as int, i as int),
                self.occurrences == h0.len() + (i - from),
                h0.len() + (ms@.len() - from) <= u64::MAX,
                self.same_setup(old(self)),
                self.checkers == old(self).checkers,
            decreases ms@.len() - i,
        {
            self.merge(ms[i].copy());
            assert(messages_view(ms@).subrange(from as int, i + 1) =~= messages_view(ms@).subrange(
                from as int,
                i as int,
            ).push(ms@[i as int]@));
            i = i + 1;
        }
    }

    /// Starts a run: drops any earlier run, then registers one checker per
    /// entry of `config.check_list` and one reporter per entry of
    /// `config.output`.
    pub fn configure(&mut self)
        ensures
            final(self).wf(),
            final(self).history@.len() == 0,
            final(self).path == old(self).path,
            final(self).file_list == old(self).file_list,
            final(self).config == old(self).config,
            checker_kinds(final(self).checkers@) == old(self).config.check_list@.map_values(
                |k: CheckerKind| serving_kind(k),
            ),
            catalog_entries(final(self).catalog) == registered_catalog(
                linter_catalog(),
                old(self).config.check_list@,
            ),
            reporter_kinds(final(self).reporters@) == old(self).config.output@,
    {
        self.reset();
        let kinds = copy_vec(&self.config.check_list);
        self.register_checkers(kinds);
        let outputs = copy_vec(&self.config.output);
        self.register_reporters(outputs);
        assert(checker_kinds(Seq::<BaseChecker>::empty()) =~= Seq::<CheckerKind>::empty());
        assert(reporter_kinds(Seq::<BaseReporter>::empty()) =~= Seq::<ReporterKind>::empty());
        assert(checker_kinds(self.checkers@) =~= old(self).config.check_list@.map_values(
            |k: CheckerKind| serving_kind(k),
        ));
        assert(reporter_kinds(self.reporters@) =~= old(self).config.output@);
    }

    /// Checks one file. A parsed file goes through every registered checker,
    /// in order, and the new findings of each are merged; a file that did
    /// not parse adds its one parse-failure finding. Fails, changing
    /// nothing, where the file's bound would take the counts out of range.
    pub fn lint_file(&mut self, input: &LintInput) -> (r: Result<(), LintError>)
        requires
            old(self).wf(),
        ensures
            old(self).occurrences + input_bound(old(self).checkers@.len(), input@) <= u64::MAX
                ==> {
                &&& r is Ok
                &&& final(self).wf()
                &&& final(self).history@ == old(self).history@ + file_findings(
                    checker_kinds(old(self).checkers@),
                    input@,
                    old(self).config.max_line_length as nat,
                )
                &&& final(self).same_setup(old(self))
            },
            old(self).occurrences + input_bound(old(self).checkers@.len(), input@) > u64::MAX
                ==> r == Err::<(), LintError>(LintError::TooManyFindings) && *final(self) == *old(
                self,
            ),
    {
        let nk = self.checkers.len() as u64;
        let bound: Option<u64> = match input {
            LintInput::Parsed(ctx) => {
                if nk == 0 {
                    Some(0)
                } else {
                    match (ctx.lines.len() as u64).checked_add(ctx.diagnostics.len() as u64) {
                        Some(per) => nk.checked_mul(per),
                        None => None,
                    }
                }
            },
            LintInput::ParseFailed { .. } => Some(1),
        };
        let fits = match bound {
            Some(b) => b <= u64::MAX - self.occurrences,
            None => false,
        };
        proof {
            match input@ {
                LintInputView::Parsed(cv) => {
                    let n = nk as int;
                    let x = cv.lines.len() + cv.diagnostics.len();
                    assert(n >= 1 ==> n * x >= x) by (nonlinear_arith);
                    assert(n == 0 ==> n * x == 0) by (nonlinear_arith);
                },
                LintInputView::ParseFailed { .. } => {},
            }
        }
        if !fits {
            return Err(LintError::TooManyFindings);
        }
        match input {
            LintInput::ParseFailed { filename, reason } => {
                let m = parse_failed_msg(filename, reason);
                let ghost h0 = self.history@;
                self.merge(m);
                assert(self.history@ =~= h0 + seq![m@]);
                Ok(())
            },
            LintInput::Parsed(ctx) => {
                let ghost h0 = self.history@;
                let ghost orig = self.checkers@;
                let ghost kinds = checker_kinds(orig);
                let ghost max = self.config.max_line_length as nat;
                let ghost per = ctx@.lines.len() + ctx@.diagnostics.len();
                let ghost n = orig.len();
                let mut pending: Vec<BaseChecker> = Vec::new();
                std::mem::swap(&mut pending, &mut self.checkers);
                let mut done: Vec<BaseChecker> = Vec::new();
                let mut i: usize = 0;
                while pending.len() > 0
                    invariant
                        i <= n,
                        pending@ == orig.subrange(i as int, n as int),
                        checker_kinds(done@) == kinds.subrange(0, i as int),
                        self.wf(),
                        self.history@ == h0 + checkers_findings(kinds.subrange(0, i as int), ctx@, max),
                        self.occurrences + (n - i) * per <= u64::MAX,
                        max == self.config.max_line_length,
                        kinds == checker_kinds(orig),
                        n == orig.len(),
                        n <= usize::MAX,
                        per == ctx@.lines.len() + ctx@.diagnostics.len(),
                        self.path == old(self).path,
                        self.file_list == old(self).file_list,
                        self.reporters == old(self).reporters,
                        self.config == old(self).config,
                        self.catalog == old(self).catalog,
                    decreases pending@.len(),
                {
                    assert(i < n);
                    let mut c = pending.remove(0);
                    let before = c.get_msgs().len();
                    c.check(ctx, &self.config);
                    proof {
                        assert(c.kind_spec() == kinds[i as int]);
                        lemma_diagnostics_findings_len(ctx@.diagnostics, ctx@.lines);
                        lemma_misc_findings_len(ctx@.filename, ctx@.lines, max);
                        let d = checker_findings(kinds[i as int], ctx@, max).len();
                        let left = (n - i) as int;
                        assert(left >= 1);
                        assert(left * per == per + (left - 1) * per) by (nonlinear_arith);
                        assert(d <= per);
                    }
                    let ms = c.get_msgs();
                    let ghost cm = messages_view(ms@);
                    assert(cm.subrange(before as int, cm.len() as int) =~= checker_findings(
                        kinds[i as int],
                        ctx@,
                        max,
                    ));
                    self.merge_from(ms, before);
                    let ghost dk = done@;
                    done.push(c);
                    proof {
                        let sub = kinds.subrange(0, i + 1);
                        assert(sub.drop_last() =~= kinds.subrange(0, i as int));
                        assert(sub.last() == kinds[i as int]);
                        assert(self.history@ =~= h0 + checkers_findings(sub, ctx@, max));
                        assert(checker_kinds(dk.push(c)) =~= checker_kinds(dk).push(c.kind_spec()));
                        assert(checker_kinds(done@) =~= sub);
                        assert(pending@ =~= orig.subrange(i + 1, n as int));
                    }
                    i = i + 1;
                }
                assert(kinds.subrange(0, i as int) =~= kinds);
                self.checkers = done;
                Ok(())
            },
        }
    }

    /// The lines every registered reporter prints for the run, reporter by
    /// reporter.
    pub fn report(&self) -> (r: Vec<String>)
        ensures
            strings_view(r@) == all_reporter_lines(reporter_kinds(self.reporters@), self),
    {
        let ghost kinds = reporter_kinds(self.reporters@);
        let mut r: Vec<String> = Vec::new();
        let mut i: usize = 0;
        while i < self.reporters.len()
            invariant
                i <= self.reporters@.len(),
                kinds == reporter_kinds(self.reporters@),
                strings_view(r@) == all_reporter_lines(kinds.subrange(0, i as int), self),
            decreases self.reporters@.len() - i,
        {
            let ghost prev = r@;
            let mut lines = self.reporters[i].print_msg(self);
            let ghost add = lines@;
            r.append(&mut lines);
            proof {
                let sub = kinds.subrange(0, i + 1);
                assert(sub.drop_last() =~= kinds.subrange(0, i as int));
                assert(sub.last() == self.reporters@[i as int].kind_spec());
                assert(r@ == prev + add);
                assert(strings_view(r@) =~= strings_view(prev) + strings_view(add));
            }
            i = i + 1;
        }
        assert(kinds.subrange(0, i as int) =~= kinds);
        r
    }

    /// A whole run: starts it, checks the inputs in order, and returns the
    /// lines the reporters print. Fails where the occurrence counts could
    /// leave the range of `u64`.
    pub fn run(&mut self, inputs: &Vec<LintInput>) -> (r: Result<Vec<String>, LintError>)
        ensures
            final(self).path == old(self).path,
            final(self).file_list == old(self).file_list,
            final(self).config == old(self).config,
            checker_kinds(final(self).checkers@) == old(self).config.check_list@.map_values(
                |k: CheckerKind| serving_kind(k),
            ),
            catalog_entries(final(self).catalog) == registered_catalog(
                linter_catalog(),
                old(self).config.check_list@,
            ),
            reporter_kinds(final(self).reporters@) == old(self).config.output@,
            match r {
                Ok(lines) => {
                    &&& run_fits(
                        checker_kinds(final(self).checkers@),
                        inputs_view(inputs@),
                        old(self).config.max_line_length as nat,
                    )
                    &&& final(self).wf()
                    &&& final(self).history@ == run_history(
                        checker_kinds(final(self).checkers@),
                        inputs_view(inputs@),
                        old(self).config.max_line_length as nat,
                    )
                    &&& strings_view(lines@) == all_reporter_lines(old(self).config.output@, final(self))
                },
                Err(e) => {
                    &&& !run_fits(
                        checker_kinds(final(self).checkers@),
                        inputs_view(inputs@),
                        old(self).config.max_line_length as nat,
                    )
                    &&& e == LintError::TooManyFindings
                },
            },
    {
        self.configure();
        let ghost kinds = checker_kinds(self.checkers@);
        let ghost iv = inputs_view(inputs@);
        let ghost max = self.config.max_line_length as nat;
        let ghost setup = *self;
        assert(iv.subrange(0, 0) =~= Seq::<LintInputView>::empty());
        assert(self.history@ =~= Seq::<MessageView>::empty());
        let mut i: usize = 0;
        while i < inputs.len()
            invariant
                i <= inputs@.len(),
                iv == inputs_view(inputs@),
                self.wf(),
                self.same_setup(&setup),
                setup.path == old(self).path,
                setup.file_list == old(self).file_list,
                setup.config == old(self).config,
                checker_kinds(setup.checkers@) == old(self).config.check_list@.map_values(
                    |k: CheckerKind| serving_kind(k),
                ),
                catalog_entries(setup.catalog) == registered_catalog(
                    linter_catalog(),
                    old(self).config.check_list@,
                ),
                reporter_kinds(setup.reporters@) == old(self).config.output@,
                kinds == checker_kinds(self.checkers@),
                max == self.config.max_line_length,
                run_fits(kinds, iv.subrange(0, i as int), max),
                self.history@ == run_history(kinds, iv.subrange(0, i as int), max),
            decreases inputs@.len() - i,
        {
            let ghost sub = iv.subrange(0, i + 1);
            proof {
                assert(sub.drop_last() =~= iv.subrange(0, i as int));
                assert(sub.last() == inputs@[i as int]@);
            }
            match self.lint_file(&inputs[i]) {
                Ok(()) => {},
                Err(e) => {
                    proof {
                        assert(!run_fits(kinds, sub, max));
                        if run_fits(kinds, iv, max) {
                            lemma_run_fits_prefix(kinds, iv, max, i + 1);
                        }
                    }
                    return Err(e);
                },
            }
            i = i + 1;
        }
        assert(iv.subrange(0, i as int) =~= iv);
        let lines = self.report();
        Ok(lines)
    }

} // impl Linter

/// Copies a vector of plain values.
fn copy_vec<T: Copy>(v: &Vec<T>) -> (r: Vec<T>)
    ensures
        r@ == v@,
{
    let mut r: Vec<T> = Vec::new();
    let mut i: usize = 0;
    while i < v.len()
        invariant
            i <= v@.len(),
            r@ == v@.subrange(0, i as int),
        decreases v@.len() - i,
    {
        r.push(v[i]);
        i = i + 1;
        assert(r@ =~= v@.subrange(0, i as int));
    }
    assert(r@ =~= v@);
    r
}

/// The views of a sequence of inputs.
pub open spec fn inputs_view(v: Seq<LintInput>) -> Seq<LintInputView> {
    v.map_values(|i: LintInput| i@)
}

/// A run that stays in range also stays in range on every prefix.
pub proof fn lemma_run_fits_prefix(
    kinds: Seq<CheckerKind>,
    inputs: Seq<LintInputView>,
    max_line_length: nat,
    k: int,
)
    requires
        0 <= k <= inputs.len(),
        run_fits(kinds, inputs, max_line_length),
    ensures
        run_fits(kinds, inputs.subrange(0, k), max_line_length),
    decreases inputs.len(),
{
    if k < inputs.len() {
        lemma_run_fits_prefix(kinds, inputs.drop_last(), max_line_length, k);
        assert(inputs.drop_last().subrange(0, k) =~= inputs.subrange(0, k));
    } else {
        assert(inputs.subrange(0, k) =~= inputs);
    }
}

/// The position of the count entry for `id`, if there is one.
fn find_count(counts: &Vec<IdCount>, id: &String) -> (r: Option<usize>)
    ensures
        match r {
            Some(j) => j < counts@.len() && counts@[j as int].id@ == id@,
            None => forall|k: int| 0 <= k < counts@.len() ==> counts@[k].id@ != id@,
        },
{
    let mut j: usize = 0;
    while j < counts.len()
        invariant
            j <= counts@.len(),
            forall|k: int| 0 <= k < j ==> counts@[k].id@ != id@,
        decreases counts@.len() - j,
    {
        if counts[j].id == *id {
            return Some(j);
        }
        j = j + 1;
    }
    None
}

} // verus!

verus! {

/// Merging a finding equal to one merged before leaves the distinct findings
/// as they were, and still adds one to the count of its id.
pub proof fn lemma_repeated_finding(h: Seq<MessageView>, m: MessageView)
    requires
        h.contains(m),
    ensures
        distinct_findings(h.push(m)) == distinct_findings(h),
        count_of(h.push(m), m.msg_id) == count_of(h, m.msg_id) + 1,
        id_order(h.push(m)) == id_order(h),
{
    lemma_history_push(h, m);
    lemma_distinct_findings(h);
    lemma_id_order_count(h, m.msg_id);
    let k = choose|k: int| 0 <= k < h.len() && h[k] == m;
    lemma_count_positive(h, k);
}

/// A finding in `h` makes the count of its id positive.
pub proof fn lemma_count_positive(h: Seq<MessageView>, k: int)
    requires
        0 <= k < h.len(),
    ensures
        count_of(h, h[k].msg_id) > 0,
    decreases h.len(),
{
    if k < h.len() - 1 {
        lemma_count_positive(h.drop_last(), k);
        assert(h.drop_last()[k] == h[k]);
    }
}

/// Two findings with equal fields, merged one after the other, leave one
/// entry in the set of distinct findings and add two to the count of their id.
pub proof fn lemma_structural_dedup(h: Seq<MessageView>, m1: MessageView, m2: MessageView)
    requires
        m1 == m2,
    ensures
        distinct_findings(h.push(m1).push(m2)) == distinct_findings(h.push(m1)),
        distinct_findings(h.push(m1)).contains(m1),
        count_of(h.push(m1).push(m2), m1.msg_id) == count_of(h, m1.msg_id) + 2,
{
    let h1 = h.push(m1);
    assert(h1[h.len() as int] == m1);
    lemma_repeated_finding(h1, m2);
    lemma_history_push(h, m1);
    lemma_distinct_findings(h1);
}

/// Two linters that merged the same findings hold the same distinct
/// findings and the same counts; in particular two runs over the same
/// inputs with the same options, whose histories `run` fixes, agree.
pub proof fn lemma_run_deterministic(
    a: &Linter,
    b: &Linter,
    kinds: Seq<CheckerKind>,
    inputs: Seq<LintInputView>,
    max_line_length: nat,
)
    requires
        a.wf(),
        b.wf(),
        a.history@ == run_history(kinds, inputs, max_line_length),
        b.history@ == run_history(kinds, inputs, max_line_length),
    ensures
        message_set_items(a.msgs) == message_set_items(b.msgs),
        counts_view(a.msgs_map@) == counts_view(b.msgs_map@),
{
}

} // verus!

verus! {

/// A file name is a KCL source when it ends in `.k`.
pub open spec fn is_kcl_name(name: Seq<char>) -> bool {
    name.len() >= 2 && name[name.len() - 2] == '.' && name[name.len() - 1] == 'k'
}

/// Whether `name` names a KCL source file.
pub fn is_kclfile(name: &str) -> (r: bool)
    ensures
        r == is_kcl_name(name@),
{
    let n = name.unicode_len();
    if n < 2 {
        return false;
    }
    name.get_char(n - 2) == '.' && name.get_char(n - 1) == 'k'
}

} // verus!
