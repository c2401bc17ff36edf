//! Reporters: renderings of a finished run.

use vstd::prelude::*;
use crate::collections::{
    catalog_entries, catalog_get, catalog_lookup, message_set_get, message_set_items,
    message_set_len,
};
use crate::linter::{IdCount, Linter, counts_view};
use crate::message::{MessageView, MsgView, display_text, strings_view};
use crate::text::{decimal, decimal_string};

verus! {

/// The output targets a run can report to.
#[derive(Debug, Clone, Copy, Hash, PartialEq, Eq, Structural)]
pub enum ReporterKind {
    Stdout,
}

/// Each finding as shown, followed by an empty line.
pub open spec fn message_lines(items: Seq<MessageView>) -> Seq<Seq<char>>
    decreases items.len(),
{
    if items.len() == 0 {
        Seq::empty()
    } else {
        message_lines(items.drop_last()) + seq![display_text(items.last()), Seq::empty()]
    }
}

/// `{count} {id}: {short description}`, with an empty description for an
/// id the catalog lacks.
pub open spec fn count_line(id: Seq<char>, n: nat, catalog: Seq<(Seq<char>, MsgView)>) -> Seq<char> {
    decimal(n) + " "@ + id + ": "@ + match catalog_lookup(catalog, id) {
        Some(e) => e.short_info,
        None => Seq::empty(),
    }
}

/// One count line per id, in the order of the counts.
pub open spec fn count_lines(counts: Seq<(Seq<char>, nat)>, catalog: Seq<(Seq<char>, MsgView)>) -> Seq<
    Seq<char>,
> {
    counts.map_values(|c: (Seq<char>, nat)| count_line(c.0, c.1, catalog))
}

/// The summary line of the files checked.
pub open spec fn total_line(n_files: nat) -> Seq<char> {
    "Check total "@ + decimal(n_files) + " files:"@
}

/// The closing line: the number of distinct findings.
pub open spec fn problems_line(n: nat) -> Seq<char> {
    "Lint: "@ + decimal(n) + " problems"@
}

/// The lines the standard-output reporter prints for a run.
pub open spec fn stdout_lines(
    items: Seq<MessageView>,
    counts: Seq<(Seq<char>, nat)>,
    catalog: Seq<(Seq<char>, MsgView)>,
    n_files: nat,
) -> Seq<Seq<char>> {
    message_lines(items) + seq![total_line(n_files)] + count_lines(counts, catalog) + seq![
        problems_line(items.len()),
    ]
}

/// The lines a reporter of the given kind prints for the state of `lint`.
pub open spec fn reporter_lines(kind: ReporterKind, lint: &Linter) -> Seq<Seq<char>> {
    match kind {
        ReporterKind::Stdout => stdout_lines(
            message_set_items(lint.msgs),
            counts_view(lint.msgs_map@),
            catalog_entries(lint.catalog),
            lint.file_list@.len(),
        ),
    }
}

/// A renderer of a finished run. It reads the run and does not change it.
pub trait DisplayMsg {
    /// The kind of the reporter.
    spec fn kind_spec(&self) -> ReporterKind;

    /// The lines to print for the run, in order.
    fn print_msg(&self, lint: &Linter) -> (r: Vec<String>)
        ensures
            strings_view(r@) == reporter_lines(self.kind_spec(), lint),
    ;
}

/// Prints findings and a summary to standard output.
pub struct StdoutReporter {
    pub kind: ReporterKind,
}

impl StdoutReporter {
    pub fn new() -> (r: StdoutReporter)
        ensures
            r.kind == ReporterKind::Stdout,
    {
        StdoutReporter { kind: ReporterKind::Stdout }
    }
}

fn count_string(c: &IdCount, lint: &Linter) -> (r: String)
    ensures
        r@ == count_line(c.id@, c.count as nat, catalog_entries(lint.catalog)),
{
    let mut r = decimal_string(c.count);
    r.append(" ");
    r.append(c.id.as_str());
    r.append(": ");
    match catalog_get(&lint.catalog, &c.id) {
        Some(e) => r.append(e.short_info.as_str()),
        None => {},
    }
    assert(r@ =~= count_line(c.id@, c.count as nat, catalog_entries(lint.catalog)));
    r
}

impl DisplayMsg for StdoutReporter {
    open spec fn kind_spec(&self) -> ReporterKind {
        ReporterKind::Stdout
    }

    fn print_msg(&self, lint: &Linter) -> (r: Vec<String>) {
        let ghost items = message_set_items(lint.msgs);
        let ghost counts = counts_view(lint.msgs_map@);
        let ghost catalog = catalog_entries(lint.catalog);
        let mut r: Vec<String> = Vec::new();
        let n = message_set_len(&lint.msgs);
        let mut i: usize = 0;
        while i < n
            invariant
                n == items.len(),
                items == message_set_items(lint.msgs),
                i <= n,
                strings_view(r@) == message_lines(items.subrange(0, i as int)),
            decreases n - i,
        {
            let ghost prev = strings_view(r@);
            match message_set_get(&lint.msgs, i) {
                Some(m) => {
                    r.push(m.to_display_string());
                    r.push(String::new());
                    proof {
                        let s = items.subrange(0, i + 1);
                        assert(s.drop_last() =~= items.subrange(0, i as int));
                        assert(s.last() == items[i as int]);
                    }
                    assert(strings_view(r@) =~= prev + seq![display_text(items[i as int]), Seq::<char>::empty()]);
                },
                None => {},
            }
            i = i + 1;
        }
        assert(items.subrange(0, n as int) =~= items);
        let mut total = String::from_str("Check total ");
        total.append(decimal_string(lint.file_list.len() as u64).as_str());
        total.append(" files:");
        r.push(total);
        let ghost head = strings_view(r@);
        assert(head =~= message_lines(items) + seq![total_line(lint.file_list@.len())]);
        let mut j: usize = 0;
        while j < lint.msgs_map.len()
            invariant
                j <= lint.msgs_map@.len(),
                counts == counts_view(lint.msgs_map@),
                catalog == catalog_entries(lint.catalog),
                strings_view(r@) == head + count_lines(counts.subrange(0, j as int), catalog),
            decreases lint.msgs_map@.len() - j,
        {
            let ghost prev = strings_view(r@);
            r.push(count_string(&lint.msgs_map[j], lint));
            assert(count_lines(counts.subrange(0, j + 1), catalog) =~= count_lines(
                counts.subrange(0, j as int),
                catalog,
            ).push(count_line(counts[j as int].0, counts[j as int].1, catalog)));
            assert(strings_view(r@) =~= prev.push(count_line(counts[j as int].0, counts[j as int].1, catalog)));
            j = j + 1;
        }
        assert(counts.subrange(0, j as int) =~= counts);
        let mut last = String::from_str("Lint: ");
        last.append(decimal_string(n as u64).as_str());
        last.append(" problems");
        r.push(last);
        assert(strings_view(r@) =~= reporter_lines(ReporterKind::Stdout, lint));
        r
    }
}

/// A registered reporter: its kind and the reporter that serves it.
pub struct BaseReporter {
    pub kind: ReporterKind,
    pub sub_reporter: StdoutReporter,
}

/// Makes reporters by kind.
pub struct ReporterFacotry {}

impl ReporterFacotry {
    pub fn new_reporter(reporter: &ReporterKind) -> (r: StdoutReporter)
        ensures
            r.kind_spec() == *reporter,
    {
        match reporter {
            ReporterKind::Stdout => StdoutReporter::new(),
        }
    }
}

impl BaseReporter {
    pub fn new(kind: ReporterKind) -> (r: BaseReporter)
        ensures
            r.kind == kind,
            r.kind_spec() == kind,
    {
        let sub_reporter = ReporterFacotry::new_reporter(&kind);
        BaseReporter { kind, sub_reporter }
    }
}

impl DisplayMsg for BaseReporter {
    open spec fn kind_spec(&self) -> ReporterKind {
        self.sub_reporter.kind_spec()
    }

    fn print_msg(&self, lint: &Linter) -> (r: Vec<String>) {
        self.sub_reporter.print_msg(lint)
    }
}

} // verus!
