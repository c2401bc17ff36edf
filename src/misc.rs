//! The misc checker: lexical rules on raw lines (line length).

use vstd::prelude::*;
use indexmap::IndexMap;
use crate::base_checker::{Check, CheckerKind};
use crate::config::Config;
use crate::collections::{catalog_entries, catalog_insert, lemma_key_index_push, new_catalog};
use crate::imports::{catalog_entry, id_string, messages_view};
use crate::context::Context;
use crate::message::{MSG, Message, MessageView, MsgView, Position, PositionView, strings_view};
use crate::text::{decimal, decimal_string};

verus! {

/// Id of a line longer than the configured limit.
pub open spec fn id_line_too_long() -> Seq<char> {
    seq!['E', '0', '5', '0', '1']
}

/// The text of a line-length finding.
pub open spec fn line_too_long_text(len: nat, max: nat) -> Seq<char> {
    "Line too long ("@ + decimal(len) + " > "@ + decimal(max) + " characters)."@
}

/// The finding for the line at 0-based `index`, if it is longer than `max`
/// characters: reported at its 1-based line, at the column of its length.
pub open spec fn line_finding(filename: Seq<char>, index: nat, line: Seq<char>, max: nat) -> Seq<
    MessageView,
> {
    if line.len() > max {
        seq![
            MessageView {
                msg_id: id_line_too_long(),
                msg: line_too_long_text(line.len(), max),
                source_code: line,
                pos: PositionView {
                    filename,
                    line: (index + 1) as u64,
                    column: Some(line.len() as u64),
                },
                arguments: seq![decimal(line.len()), decimal(max)],
            },
        ]
    } else {
        Seq::empty()
    }
}

/// The line-length findings of a file, in line order.
pub open spec fn misc_findings(filename: Seq<char>, lines: Seq<Seq<char>>, max: nat) -> Seq<
    MessageView,
>
    decreases lines.len(),
{
    if lines.len() == 0 {
        Seq::empty()
    } else {
        misc_findings(filename, lines.drop_last(), max) + line_finding(
            filename,
            (lines.len() - 1) as nat,
            lines.last(),
            max,
        )
    }
}

/// The catalog entries of the misc checker.
pub open spec fn misc_catalog() -> Seq<(Seq<char>, MsgView)> {
    seq![
        (id_line_too_long(), MsgView {
            id: id_line_too_long(),
            short_info: "Line too long."@,
            long_info: "Line too long ({} > {} characters)."@,
            sarif_info: "Line too long ('{0}' > '{1}' characters)."@,
        }),
    ]
}

/// Builds the misc checker's catalog.
pub fn misc_msgs() -> (r: IndexMap<String, MSG>)
    ensures
        catalog_entries(r) == misc_catalog(),
{
    proof {
        reveal_strlit("E0501");
    }
    assert("E0501"@ =~= id_line_too_long());
    let mut m = new_catalog();
    let (k, v) = catalog_entry(
        "E0501",
        "Line too long.",
        "Line too long ({} > {} characters).",
        "Line too long ('{0}' > '{1}' characters).",
    );
    catalog_insert(&mut m, k, v);
    proof {
        let e0 = Seq::<(Seq<char>, MsgView)>::empty();
        lemma_key_index_push(e0, misc_catalog()[0], misc_catalog()[0].0);
        assert(e0.push(misc_catalog()[0]) =~= misc_catalog());
    }
    m
}

/// Builds the text of a line-length finding.
fn line_too_long_string(len: u64, max: u64) -> (r: String)
    ensures
        r@ == line_too_long_text(len as nat, max as nat),
{
    let mut r = String::from_str("Line too long (");
    r.append(decimal_string(len).as_str());
    r.append(" > ");
    r.append(decimal_string(max).as_str());
    r.append(" characters).");
    r
}

/// Reports lines longer than the configured limit. Accumulates its findings
/// over a run.
pub struct MiscChecker {
    catalog: IndexMap<String, MSG>,
    msgs: Vec<Message>,
}

impl MiscChecker {
    pub fn new() -> (r: MiscChecker)
        ensures
            r.catalog_spec() == misc_catalog(),
            r.msgs_spec().len() == 0,
    {
        MiscChecker { catalog: misc_msgs(), msgs: Vec::new() }
    }

    /// Records one finding for each line of `lines` longer than
    /// `max_line_length` characters.
    pub fn check_line_too_long(
        &mut self,
        filename: &String,
        lines: &Vec<String>,
        max_line_length: usize,
    )
        ensures
            final(self).catalog_spec() == old(self).catalog_spec(),
            final(self).msgs_spec() == old(self).msgs_spec() + misc_findings(
                filename@,
                strings_view(lines@),
                max_line_length as nat,
            ),
    {
        let ghost start = messages_view(self.msgs@);
        let ghost all = strings_view(lines@);
        let mut i: usize = 0;
        while i < lines.len()
            invariant
                i <= lines@.len(),
                all == strings_view(lines@),
                self.catalog == old(self).catalog,
                start == messages_view(old(self).msgs@),
                messages_view(self.msgs@) == start + misc_findings(
                    filename@,
                    all.subrange(0, i as int),
                    max_line_length as nat,
                ),
            decreases lines@.len() - i,
        {
            let ghost prev = messages_view(self.msgs@);
            let line = &lines[i];
            let len = line.as_str().unicode_len();
            proof {
                let ls = all.subrange(0, i + 1);
                assert(ls.drop_last() =~= all.subrange(0, i as int));
                assert(ls.last() == line@);
            }
            if len > max_line_length {
                let m = Message {
                    msg_id: id_string("E0501"),
                    msg: line_too_long_string(len as u64, max_line_length as u64),
                    source_code: line.clone(),
                    pos: Position {
                        filename: filename.clone(),
                        line: (i + 1) as u64,
                        column: Some(len as u64),
                    },
                    arguments: vec![decimal_string(len as u64), decimal_string(max_line_length as u64)],
                };
                proof {
                    reveal_strlit("E0501");
                    assert("E0501"@ =~= id_line_too_long());
                    assert(m@.arguments =~= seq![decimal(len as nat), decimal(max_line_length as nat)]);
                }
                self.msgs.push(m);
                assert(messages_view(self.msgs@) =~= prev + line_finding(
                    filename@,
                    i as nat,
                    line@,
                    max_line_length as nat,
                ));
            } else {
                assert(line_finding(filename@, i as nat, line@, max_line_length as nat) =~= Seq::<
                    MessageView,
                >::empty());
            }
            i = i + 1;
        }
        assert(all.subrange(0, i as int) =~= all);
    }
}

impl Check for MiscChecker {
    open spec fn kind_spec(&self) -> CheckerKind {
        CheckerKind::MiscChecker
    }

    closed spec fn msgs_spec(&self) -> Seq<MessageView> {
        messages_view(self.msgs@)
    }

    closed spec fn catalog_spec(&self) -> Seq<(Seq<char>, MsgView)> {
        catalog_entries(self.catalog)
    }

    fn check(&mut self, ctx: &Context, cfg: &Config) {
        self.check_line_too_long(&ctx.filename, &ctx.lines, cfg.max_line_length)
    }

    fn get_msgs(&self) -> (r: &Vec<Message>) {
        &self.msgs
    }

    fn get_MSGS(&self) -> (r: &IndexMap<String, MSG>) {
        &self.catalog
    }

    fn get_kind(&self) -> (r: CheckerKind) {
        CheckerKind::MiscChecker
    }
}

} // verus!

verus! {

/// A file whose lines are all at most `max` characters long gets no
/// line-length finding.
pub proof fn lemma_short_lines_no_findings(filename: Seq<char>, lines: Seq<Seq<char>>, max: nat)
    requires
        forall|i: int| 0 <= i < lines.len() ==> #[trigger] lines[i].len() <= max,
    ensures
        misc_findings(filename, lines, max).len() == 0,
    decreases lines.len(),
{
    if lines.len() > 0 {
        let p = lines.drop_last();
        assert forall|i: int| 0 <= i < p.len() implies #[trigger] p[i].len() <= max by {
            assert(p[i] == lines[i]);
        }
        lemma_short_lines_no_findings(filename, p, max);
        assert(lines.last().len() <= max);
    }
}

/// Every line-length finding of a file is reported at one of its lines.
pub proof fn lemma_findings_lines(filename: Seq<char>, lines: Seq<Seq<char>>, max: nat)
    requires
        lines.len() <= u64::MAX,
    ensures
        forall|k: int|
            0 <= k < misc_findings(filename, lines, max).len() ==> 1 <= #[trigger] misc_findings(
                filename,
                lines,
                max,
            )[k].pos.line <= lines.len(),
    decreases lines.len(),
{
    if lines.len() > 0 {
        lemma_findings_lines(filename, lines.drop_last(), max);
        let a = misc_findings(filename, lines.drop_last(), max);
        let b = line_finding(filename, (lines.len() - 1) as nat, lines.last(), max);
        assert forall|k: int| 0 <= k < (a + b).len() implies 1 <= #[trigger] (a + b)[k].pos.line
            <= lines.len() by {
            if k < a.len() {
                assert((a + b)[k] == a[k]);
            } else {
                assert((a + b)[k] == b[k - a.len()]);
            }
        }
    }
}

/// The findings among `s` that are reported at line `line`.
pub open spec fn findings_at_line(s: Seq<MessageView>, line: u64) -> Seq<MessageView> {
    s.filter(|m: MessageView| m.pos.line == line)
}

/// A line of exactly `max + 1` characters gets exactly one finding at its
/// line: a line-length finding whose arguments are the line's length and
/// the limit, in decimal.
pub proof fn lemma_boundary_line(filename: Seq<char>, lines: Seq<Seq<char>>, max: nat, i: int)
    requires
        0 <= i < lines.len(),
        lines.len() <= u64::MAX,
        lines[i].len() == max + 1,
    ensures
        findings_at_line(misc_findings(filename, lines, max), (i + 1) as u64).len() == 1,
        findings_at_line(misc_findings(filename, lines, max), (i + 1) as u64)[0].msg_id
            == id_line_too_long(),
        findings_at_line(misc_findings(filename, lines, max), (i + 1) as u64)[0].arguments
            == seq![decimal(max + 1), decimal(max)],
    decreases lines.len(),
{
    let p = lines.drop_last();
    let a = misc_findings(filename, p, max);
    let b = line_finding(filename, (lines.len() - 1) as nat, lines.last(), max);
    let ln = (i + 1) as u64;
    let pred = |m: MessageView| m.pos.line == ln;
    assert(misc_findings(filename, lines, max) == a + b);
    Seq::filter_distributes_over_add(a, b, pred);
    if i < lines.len() - 1 {
        assert(p[i] == lines[i]);
        lemma_boundary_line(filename, p, max, i);
        assert(b.filter(pred).len() == 0) by {
            if b.len() > 0 {
                assert(b =~= seq![b[0]]);
                assert(!pred(b[0]));
                reveal_with_fuel(Seq::filter, 2);
                assert(seq![b[0]].drop_last() =~= Seq::<MessageView>::empty());
            }
        }
        assert(b.filter(pred) =~= Seq::<MessageView>::empty());
        assert(a.filter(pred) + b.filter(pred) =~= a.filter(pred));
    } else {
        lemma_findings_lines(filename, p, max);
        assert(a.filter(pred).len() == 0) by {
            if a.filter(pred).len() > 0 {
                let x = a.filter(pred)[0];
                a.lemma_filter_pred(pred, 0);
                assert(a.filter(pred).contains(x));
                a.lemma_filter_contains_rev(pred, x);
                assert(a.contains(x));
                let k = choose|k: int| 0 <= k < a.len() && a[k] == x;
                assert(1 <= a[k].pos.line <= p.len());
            }
        }
        assert(b =~= seq![b[0]]);
        assert(pred(b[0]));
        reveal_with_fuel(Seq::filter, 2);
        assert(seq![b[0]].drop_last() =~= Seq::<MessageView>::empty());
        assert(b.filter(pred) =~= b);
        assert(a.filter(pred) =~= Seq::<MessageView>::empty());
        assert(a.filter(pred) + b.filter(pred) =~= b);
    }
}

} // verus!

verus! {

/// The misc checker makes no unresolved-import finding.
pub proof fn lemma_no_unresolved_import_findings(filename: Seq<char>, lines: Seq<Seq<char>>, max: nat)
    ensures
        crate::linter::count_of(
            misc_findings(filename, lines, max),
            crate::imports::id_unable_to_import(),
        ) == 0,
    decreases lines.len(),
{
    if lines.len() > 0 {
        lemma_no_unresolved_import_findings(filename, lines.drop_last(), max);
        let a = misc_findings(filename, lines.drop_last(), max);
        let b = line_finding(filename, (lines.len() - 1) as nat, lines.last(), max);
        assert(id_line_too_long()[2] != crate::imports::id_unable_to_import()[2]);
        if b.len() > 0 {
            assert(a + b =~= a.push(b[0]));
            assert((a + b).drop_last() =~= a);
        } else {
            assert(a + b =~= a);
        }
    }
}

} // verus!
