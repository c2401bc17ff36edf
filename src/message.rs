//! Findings (`Message`) and catalog entries (`MSG`), with their models.

use vstd::prelude::*;
use crate::text::{decimal, decimal_string, space_string, spaces};

verus! {

/// A place in a source file: 1-based line, optional 1-based column.
#[derive(Debug, Clone, Hash, PartialEq, Eq)]
pub struct Position {
    pub filename: String,
    pub line: u64,
    pub column: Option<u64>,
}

pub struct PositionView {
    pub filename: Seq<char>,
    pub line: u64,
    pub column: Option<u64>,
}

impl View for Position {
    type V = PositionView;

    open spec fn view(&self) -> PositionView {
        PositionView { filename: self.filename@, line: self.line, column: self.column }
    }
}

/// The views of a sequence of strings.
pub open spec fn strings_view(v: Seq<String>) -> Seq<Seq<char>> {
    v.map_values(|s: String| s@)
}

/// A lint finding. Two findings are the same finding exactly when all their
/// fields are equal.
#[derive(Debug, Clone, Hash, PartialEq, Eq)]
pub struct Message {
    pub msg_id: String,
    pub msg: String,
    pub source_code: String,
    pub pos: Position,
    pub arguments: Vec<String>,
}

pub struct MessageView {
    pub msg_id: Seq<char>,
    pub msg: Seq<char>,
    pub source_code: Seq<char>,
    pub pos: PositionView,
    pub arguments: Seq<Seq<char>>,
}

impl View for Message {
    type V = MessageView;

    open spec fn view(&self) -> MessageView {
        MessageView {
            msg_id: self.msg_id@,
            msg: self.msg@,
            source_code: self.source_code@,
            pos: self.pos@,
            arguments: strings_view(self.arguments@),
        }
    }
}

/// The column a finding is shown at: its column, or 1 where it has none.
pub open spec fn shown_column(pos: PositionView) -> nat {
    match pos.column {
        Some(c) => c as nat,
        None => 1,
    }
}

/// How a finding is shown: `file:line:column: id: text`, then the source
/// line, then a caret under the column.
pub open spec fn display_text(m: MessageView) -> Seq<char> {
    let col = shown_column(m.pos);
    m.pos.filename + seq![':'] + decimal(m.pos.line as nat) + seq![':'] + decimal(col) + seq![
        ':',
        ' ',
    ] + m.msg_id + seq![':', ' '] + m.msg + seq!['\n'] + m.source_code + seq!['\n'] + spaces(
        if col >= 1 {
            (col - 1) as nat
        } else {
            0
        },
    ) + seq!['^']
}

/// Copies a vector of strings.
pub fn copy_strings(v: &Vec<String>) -> (r: Vec<String>)
    ensures
        r@ == v@,
{
    let mut r: Vec<String> = Vec::new();
    let mut i: usize = 0;
    while i < v.len()
        invariant
            i <= v@.len(),
            r@ == v@.subrange(0, i as int),
        decreases v@.len() - i,
    {
        r.push(v[i].clone());
        i = i + 1;
        assert(r@ =~= v@.subrange(0, i as int));
    }
    assert(r@ =~= v@);
    r
}

impl Position {
    /// A copy of this position.
    pub fn copy(&self) -> (r: Position)
        ensures
            r@ == self@,
    {
        Position { filename: self.filename.clone(), line: self.line, column: self.column }
    }
}

impl Message {
    pub fn new(
        msg_id: String,
        msg: String,
        source_code: String,
        pos: Position,
        arguments: Vec<String>,
    ) -> (r: Message)
        ensures
            r.msg_id@ == msg_id@,
            r.msg@ == msg@,
            r.source_code@ == source_code@,
            r.pos@ == pos@,
            r.arguments@ == arguments@,
    {
        Message { msg_id, msg, source_code, pos, arguments }
    }

    /// A copy of this finding.
    pub fn copy(&self) -> (r: Message)
        ensures
            r@ == self@,
    {
        let r = Message {
            msg_id: self.msg_id.clone(),
            msg: self.msg.clone(),
            source_code: self.source_code.clone(),
            pos: self.pos.copy(),
            arguments: copy_strings(&self.arguments),
        };
        assert(r@.arguments =~= self@.arguments);
        r
    }

    /// The finding as it is shown to a reader (see `display_text`).
    pub fn to_display_string(&self) -> (r: String)
        ensures
            r@ == display_text(self@),
    {
        let col: u64 = match self.pos.column {
            Some(c) => c,
            None => 1,
        };
        let pad: u64 = if col >= 1 {
            col - 1
        } else {
            0
        };
        proof {
            reveal_strlit(":");
            reveal_strlit(": ");
            reveal_strlit("\n");
            reveal_strlit("^");
        }
        let mut r = self.pos.filename.clone();
        r.append(":");
        r.append(decimal_string(self.pos.line).as_str());
        r.append(":");
        r.append(decimal_string(col).as_str());
        r.append(": ");
        r.append(self.msg_id.as_str());
        r.append(": ");
        r.append(self.msg.as_str());
        r.append("\n");
        r.append(self.source_code.as_str());
        r.append("\n");
        r.append(space_string(pad).as_str());
        r.append("^");
        assert(r@ =~= display_text(self@));
        r
    }
}

/// A catalog entry: the descriptions that belong to a finding id.
#[derive(Debug, Clone, Hash, PartialEq, Eq)]
pub struct MSG {
    pub id: String,
    pub short_info: String,
    pub long_info: String,
    pub sarif_info: String,
}

pub struct MsgView {
    pub id: Seq<char>,
    pub short_info: Seq<char>,
    pub long_info: Seq<char>,
    pub sarif_info: Seq<char>,
}

impl View for MSG {
    type V = MsgView;

    open spec fn view(&self) -> MsgView {
        MsgView {
            id: self.id@,
            short_info: self.short_info@,
            long_info: self.long_info@,
            sarif_info: self.sarif_info@,
        }
    }
}

impl MSG {
    /// A copy of this entry.
    pub fn copy(&self) -> (r: MSG)
        ensures
            r@ == self@,
    {
        MSG {
            id: self.id.clone(),
            short_info: self.short_info.clone(),
            long_info: self.long_info.clone(),
            sarif_info: self.sarif_info.clone(),
        }
    }
}

} // verus!
