//! Re-indentation: every line at two spaces for each bracket that is open
//! before it.
//!
//! The lines come trimmed of their surrounding whitespace. A line that starts
//! with a closing bracket closes one level before it is indented; a line that
//! ends with an opening bracket opens one level behind it. An empty line
//! stays empty and changes nothing.

use crate::text::{collect_chars, push_range};
use vstd::prelude::*;
use vstd::string::*;

verus! {

/// Whether `c` is a closing bracket.
pub open spec fn is_closer(c: char) -> bool {
    c == '}' || c == ')' || c == ']'
}

/// Whether `c` is an opening bracket.
pub open spec fn is_opener(c: char) -> bool {
    c == '{' || c == '(' || c == '['
}

/// The level at which a non-empty line is indented, `level` brackets being
/// open before it.
pub open spec fn line_level(line: Seq<char>, level: nat) -> nat {
    if is_closer(line[0]) && level > 0 {
        (level - 1) as nat
    } else {
        level
    }
}

/// The level behind a line, `level` brackets being open before it.
pub open spec fn level_after(line: Seq<char>, level: nat) -> nat {
    if line.len() == 0 {
        level
    } else if is_opener(line.last()) {
        line_level(line, level) + 1
    } else {
        line_level(line, level)
    }
}

/// Two spaces for each of `level` levels.
pub open spec fn indentation(level: nat) -> Seq<char>
    decreases level,
{
    if level == 0 {
        Seq::empty()
    } else {
        indentation((level - 1) as nat) + seq![' ', ' ']
    }
}

/// A line as it is written out, `level` brackets being open before it.
pub open spec fn formatted_line(line: Seq<char>, level: nat) -> Seq<char> {
    if line.len() == 0 {
        seq!['\n']
    } else {
        indentation(line_level(line, level)) + line + seq!['\n']
    }
}

/// The lines from `i` on as they are written out, `level` brackets being
/// open before line `i`.
pub open spec fn formatted_from(lines: Seq<Seq<char>>, i: int, level: nat) -> Seq<char>
    decreases lines.len() - i,
{
    if i < 0 || i >= lines.len() {
        Seq::empty()
    } else {
        formatted_line(lines[i], level) + formatted_from(
            lines,
            i + 1,
            level_after(lines[i], level),
        )
    }
}

/// A text of trimmed lines, re-indented.
pub open spec fn formatted(lines: Seq<Seq<char>>) -> Seq<char> {
    formatted_from(lines, 0, 0)
}

fn push_indentation(out: &mut String, level: usize)
    ensures
        final(out)@ == old(out)@ + indentation(level as nat),
{
    let mut i: usize = 0;
    assert(out@ =~= old(out)@ + indentation(0));
    while i < level
        invariant
            i <= level,
            out@ == old(out)@ + indentation(i as nat),
        decreases level - i,
    {
        proof {
            reveal_strlit("  ");
            assert("  "@ =~= seq![' ', ' ']);
        }
        out.append("  ");
        i = i + 1;
        assert(out@ =~= old(out)@ + indentation(i as nat));
    }
}

/// Re-indents a text whose lines are given trimmed of their surrounding
/// whitespace.
pub fn format_xenomorph(lines: &Vec<String>) -> (out: String)
    ensures
        out@ == formatted(lines@.map_values(|line: String| line@)),
{
    let mut result = String::new();
    let mut indent_level: usize = 0;
    let ghost texts = lines@.map_values(|line: String| line@);
    let mut i: usize = 0;
    assert(result@ + formatted_from(texts, 0, 0) =~= formatted(texts));
    while i < lines.len()
        invariant
            i <= lines@.len(),
            indent_level <= i,
            texts == lines@.map_values(|line: String| line@),
            formatted(texts) == result@ + formatted_from(texts, i as int, indent_level as nat),
        decreases lines@.len() - i,
    {
        let trimmed = collect_chars(lines[i].as_str());
        let ghost before = result@;
        let ghost level = indent_level as nat;
        assert(texts[i as int] == trimmed@);
        if trimmed.len() == 0 {
            proof {
                reveal_strlit("\n");
                assert("\n"@ =~= seq!['\n']);
            }
            result.append("\n");
        } else {
            let first = trimmed[0];
            if (first == '}' || first == ')' || first == ']') && indent_level > 0 {
                indent_level = indent_level - 1;
            }
            push_indentation(&mut result, indent_level);
            push_range(&mut result, &trimmed, 0, trimmed.len());
            proof {
                reveal_strlit("\n");
                assert("\n"@ =~= seq!['\n']);
                assert(trimmed@.subrange(0, trimmed@.len() as int) =~= trimmed@);
            }
            result.append("\n");
            let last = trimmed[trimmed.len() - 1];
            if last == '{' || last == '(' || last == '[' {
                indent_level = indent_level + 1;
            }
        }
        assert(result@ =~= before + formatted_line(trimmed@, level));
        assert(before + formatted_from(texts, i as int, level) =~= result@ + formatted_from(
            texts,
            i + 1,
            indent_level as nat,
        ));
        i = i + 1;
    }
    assert(result@ + formatted_from(texts, i as int, indent_level as nat) =~= result@);
    result
}

} // verus!
