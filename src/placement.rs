//! The placement engine: from a target node and generated text to a text
//! edit, and the first-match rule that picks the target.

use vstd::prelude::*;
use crate::config::Position;
use crate::coords::{TextPosition, TextRange};
use crate::document::{SyntaxNode, span_of, line_start_of};
use crate::text::{indent_text, indented, chars_of, string_of};

verus! {

/// A replacement of the text in `range` by `new_text`.
#[derive(Clone, Debug, PartialEq, Eq)]
pub struct TextEdit {
    pub range: TextRange,
    pub new_text: String,
}

/// The node's span with its start moved to column zero.
pub open spec fn block_of(n: SyntaxNode) -> TextRange {
    TextRange { start: TextPosition { line: n.start.line, character: 0 }, end: n.end }
}

/// The range that a strategy edits at node `n`.
pub open spec fn placement_range(pos: Position, n: SyntaxNode) -> TextRange {
    match pos {
        Position::ReplaceBlock => block_of(n),
        Position::ReplaceExact => span_of(n),
        Position::Before => line_start_of(n),
    }
}

/// The text that a strategy puts at node `n` for the generated `answer`.
pub open spec fn placement_text(pos: Position, n: SyntaxNode, answer: Seq<char>) -> Seq<char> {
    match pos {
        Position::ReplaceBlock => indented(answer, n.start.character as nat),
        Position::ReplaceExact => answer,
        Position::Before => indented(answer, n.start.character as nat).push('\n'),
    }
}

/// The edit that strategy `position` makes at `node` for `answer`.
pub fn place(position: Position, node: &SyntaxNode, answer: &str) -> (r: TextEdit)
    ensures
        r.range == placement_range(position, *node),
        r.new_text@ == placement_text(position, *node, answer@),
{
    let column = node.start.character as usize;
    match position {
        Position::ReplaceBlock => {
            let range = TextRange {
                start: TextPosition { line: node.start.line, character: 0 },
                end: node.end,
            };
            TextEdit { range, new_text: indent_text(answer, column) }
        },
        Position::ReplaceExact => {
            TextEdit { range: TextRange { start: node.start, end: node.end }, new_text: answer.to_owned() }
        },
        Position::Before => {
            let p = TextPosition { line: node.start.line, character: 0 };
            let text = indent_text(answer, column);
            let mut chars = chars_of(text.as_str());
            chars.push('\n');
            TextEdit { range: TextRange { start: p, end: p }, new_text: string_of(&chars) }
        },
    }
}

/// `j` is the first entry of `caps` with a capture.
pub open spec fn is_first_hit(caps: Seq<Vec<usize>>, j: int) -> bool {
    &&& 0 <= j < caps.len()
    &&& caps[j].len() > 0
    &&& forall|m: int| 0 <= m < j ==> (#[trigger] caps[m]).len() == 0
}

/// The first entry, in declared order, whose query matched at all.
pub fn first_hit(caps: &Vec<Vec<usize>>) -> (r: Option<usize>)
    ensures
        r matches Some(j) ==> is_first_hit(caps@, j as int),
        r is None <==> forall|m: int| 0 <= m < caps.len() ==> (#[trigger] caps@[m]).len() == 0,
{
    let mut j: usize = 0;
    while j < caps.len()
        invariant
            j <= caps.len(),
            forall|m: int| 0 <= m < j ==> (#[trigger] caps@[m]).len() == 0,
        decreases caps.len() - j,
    {
        if caps[j].len() > 0 {
            return Some(j);
        }
        j = j + 1;
    }
    None
}

} // verus!
