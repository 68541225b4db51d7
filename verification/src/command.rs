//! Command rows: one line of the command table, instructing either a
//! commit-replay or a tag-creation step.

use vstd::prelude::*;

use crate::errors::ErrV;
use crate::errors::GenerationError;
use crate::text::spec_split;
use crate::text::split_str;

verus! {

/// A parsed command row: the command kind and its four optional positional
/// arguments (an empty field is an absent argument).
pub struct CommandRow {
    pub kind: String,
    pub arg1: Option<String>,
    pub arg2: Option<String>,
    pub arg3: Option<String>,
    pub arg4: Option<String>,
}

/// The mathematical model of a `CommandRow`.
pub struct CommandRowV {
    pub kind: Seq<char>,
    pub arg1: Option<Seq<char>>,
    pub arg2: Option<Seq<char>>,
    pub arg3: Option<Seq<char>>,
    pub arg4: Option<Seq<char>>,
}

impl View for CommandRow {
    type V = CommandRowV;

    open spec fn view(&self) -> CommandRowV {
        CommandRowV {
            kind: self.kind@,
            arg1: match self.arg1 {
                Some(ref s) => Some(s@),
                None => None,
            },
            arg2: match self.arg2 {
                Some(ref s) => Some(s@),
                None => None,
            },
            arg3: match self.arg3 {
                Some(ref s) => Some(s@),
                None => None,
            },
            arg4: match self.arg4 {
                Some(ref s) => Some(s@),
                None => None,
            },
        }
    }
}

/// An empty field stands for an absent argument.
pub open spec fn opt_field(f: Seq<char>) -> Option<Seq<char>> {
    if f.len() == 0 {
        None
    } else {
        Some(f)
    }
}

/// The command row read off the table line `line` (line number `idx` in its
/// table): exactly five comma-separated fields, else `ParseError`.
pub open spec fn spec_parse_row(line: Seq<char>, idx: int) -> Result<CommandRowV, ErrV> {
    let f = spec_split(line, ',');
    if f.len() != 5 {
        Err(ErrV::ParseError { row: idx })
    } else {
        Ok(
            CommandRowV {
                kind: f[0],
                arg1: opt_field(f[1]),
                arg2: opt_field(f[2]),
                arg3: opt_field(f[3]),
                arg4: opt_field(f[4]),
            },
        )
    }
}

/// Whether `s` is the command kind `commit`, compared case-insensitively.
pub open spec fn is_commit_kind(s: Seq<char>) -> bool {
    &&& s.len() == 6
    &&& (s[0] == 'c' || s[0] == 'C')
    &&& (s[1] == 'o' || s[1] == 'O')
    &&& (s[2] == 'm' || s[2] == 'M')
    &&& (s[3] == 'm' || s[3] == 'M')
    &&& (s[4] == 'i' || s[4] == 'I')
    &&& (s[5] == 't' || s[5] == 'T')
}

/// Whether `s` is the command kind `tag`, compared case-insensitively.
pub open spec fn is_tag_kind(s: Seq<char>) -> bool {
    &&& s.len() == 3
    &&& (s[0] == 't' || s[0] == 'T')
    &&& (s[1] == 'a' || s[1] == 'A')
    &&& (s[2] == 'g' || s[2] == 'G')
}

pub fn check_commit_kind(s: &str) -> (r: bool)
    ensures
        r == is_commit_kind(s@),
{
    if s.unicode_len() != 6 {
        return false;
    }
    let c0 = s.get_char(0);
    let c1 = s.get_char(1);
    let c2 = s.get_char(2);
    let c3 = s.get_char(3);
    let c4 = s.get_char(4);
    let c5 = s.get_char(5);
    (c0 == 'c' || c0 == 'C') && (c1 == 'o' || c1 == 'O') && (c2 == 'm' || c2 == 'M') && (c3 == 'm'
        || c3 == 'M') && (c4 == 'i' || c4 == 'I') && (c5 == 't' || c5 == 'T')
}

pub fn check_tag_kind(s: &str) -> (r: bool)
    ensures
        r == is_tag_kind(s@),
{
    if s.unicode_len() != 3 {
        return false;
    }
    let c0 = s.get_char(0);
    let c1 = s.get_char(1);
    let c2 = s.get_char(2);
    (c0 == 't' || c0 == 'T') && (c1 == 'a' || c1 == 'A') && (c2 == 'g' || c2 == 'G')
}

fn opt_of(f: String) -> (r: Option<String>)
    ensures
        match r {
            Some(s) => opt_field(f@) == Some(s@),
            None => opt_field(f@) is None,
        },
{
    if f.as_str().is_empty() {
        None
    } else {
        Some(f)
    }
}

/// Parse one command-table line (line number `idx` in its table) into a
/// command row; a line without exactly five fields aborts with `ParseError`.
pub fn parse_command_row(line: &str, idx: usize) -> (r: Result<CommandRow, GenerationError>)
    ensures
        match r {
            Ok(row) => spec_parse_row(line@, idx as int) == Ok::<_, ErrV>(row@),
            Err(e) => spec_parse_row(line@, idx as int) == Err::<CommandRowV, _>(e@),
        },
{
    let mut fields = split_str(line, ',');
    if fields.len() != 5 {
        return Err(GenerationError::ParseError { row: idx });
    }
    let f4 = fields.pop().unwrap();
    let f3 = fields.pop().unwrap();
    let f2 = fields.pop().unwrap();
    let f1 = fields.pop().unwrap();
    let f0 = fields.pop().unwrap();
    Ok(
        CommandRow {
            kind: f0,
            arg1: opt_of(f1),
            arg2: opt_of(f2),
            arg3: opt_of(f3),
            arg4: opt_of(f4),
        },
    )
}

} // verus!
