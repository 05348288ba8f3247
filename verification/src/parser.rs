//! The grammar of command lines.
//!
//! ```text
//! command := "dump"   WS btree WS position
//!          | "update" WS btree WS position WS keytype "." field op value
//! position := u64 ":" u64 ":" (u32 | "U32_MAX")
//! op       := "=" | "+="
//! ```
//!
//! `btree` is a run of letters, `keytype` a run of letters, digits and `_`,
//! `field` a run of those and `.`, `value` a 64-bit numeral and `WS` a run
//! of spaces and tabs. Each run is as long as it can be and not empty, and a
//! command spans its whole line.

use crate::command::{
    Command, CommandView, DumpCommand, DumpCommandView, ParseError, ParseErrorView, UpdateCommand,
    UpdateCommandView, UpdateOperator,
};
use crate::position::{char_at, position_at, scan_position, BTreePosition};
use crate::text::{
    lemma_number_at, literal_at, match_literal, number_at, run_end, scan, scan_number, to_chars,
    CharClass,
};
use vstd::prelude::*;

verus! {

/// The keyword of the dump command.
pub open spec fn dump_keyword() -> Seq<char> {
    "dump"@
}

/// The keyword of the update command.
pub open spec fn update_keyword() -> Seq<char> {
    "update"@
}

/// The token of `class` at `start`: the index behind the run of `class`
/// characters there, if the run is not empty.
pub open spec fn token_at(s: Seq<char>, class: CharClass, start: int) -> Option<int> {
    let end = run_end(s, class, start);
    if start < end {
        Some(end)
    } else {
        None
    }
}

/// The operator at `start`. `+=` is looked for before `=`.
pub open spec fn operator_at(s: Seq<char>, start: int) -> Option<(UpdateOperator, int)> {
    if char_at(s, start, '+') && char_at(s, start + 1, '=') {
        Some((UpdateOperator::Add, start + 2))
    } else if char_at(s, start, '=') {
        Some((UpdateOperator::Assign, start + 1))
    } else {
        None
    }
}

/// Where `+=` stands it is read as the adding operator, though `=` is an
/// operator too.
pub proof fn lemma_add_before_assign(s: Seq<char>, start: int)
    requires
        char_at(s, start, '+'),
        char_at(s, start + 1, '='),
    ensures
        operator_at(s, start) == Some((UpdateOperator::Add, start + 2)),
{
}

/// What both commands name first, from `start` on: blanks, the name of a
/// B-tree, blanks and a position. `Ok` holds the name, the position and the
/// index behind them, `Err` the index of the element that is missing.
pub open spec fn target_at(s: Seq<char>, start: int) -> Result<
    (Seq<char>, BTreePosition, int),
    int,
> {
    match token_at(s, CharClass::Blank, start) {
        None => Err(start),
        Some(name) => match token_at(s, CharClass::Letter, name) {
            None => Err(name),
            Some(gap) => match token_at(s, CharClass::Blank, gap) {
                None => Err(gap),
                Some(place) => match position_at(s, place) {
                    Err(at) => Err(at),
                    Ok((position, end)) => Ok((s.subrange(name, gap), position, end)),
                },
            },
        },
    }
}

/// The dump command whose keyword ends at `start`, or the index at which
/// the line stops following its form.
pub open spec fn dump_at(s: Seq<char>, start: int) -> Result<DumpCommandView, int> {
    match target_at(s, start) {
        Err(at) => Err(at),
        Ok((btree_name, position, end)) => if end != s.len() {
            Err(end)
        } else {
            Ok(DumpCommandView { btree_name, position })
        },
    }
}

/// The change that an update command asks for, from `start` on: the name of
/// a key type, a dot, a field path, an operator and a value.
pub open spec fn change_at(s: Seq<char>, start: int) -> Result<
    (Seq<char>, Seq<char>, UpdateOperator, u64, int),
    int,
> {
    match token_at(s, CharClass::Word, start) {
        None => Err(start),
        Some(dot) => if !char_at(s, dot, '.') {
            Err(dot)
        } else {
            match token_at(s, CharClass::Path, dot + 1) {
                None => Err(dot + 1),
                Some(op) => match operator_at(s, op) {
                    None => Err(op),
                    Some((operator, digits)) => match number_at(s, digits, u64::MAX as nat) {
                        None => Err(digits),
                        Some((value, end)) => Ok(
                            (
                                s.subrange(start, dot),
                                s.subrange(dot + 1, op),
                                operator,
                                value as u64,
                                end,
                            ),
                        ),
                    },
                },
            }
        },
    }
}

/// The update command whose keyword ends at `start`, or the index at which
/// the line stops following its form.
pub open spec fn update_at(s: Seq<char>, start: int) -> Result<UpdateCommandView, int> {
    match target_at(s, start) {
        Err(at) => Err(at),
        Ok((btree_name, position, gap)) => match token_at(s, CharClass::Blank, gap) {
            None => Err(gap),
            Some(key) => match change_at(s, key) {
                Err(at) => Err(at),
                Ok((key_type_name, field_path, operator, value, end)) => if end != s.len() {
                    Err(end)
                } else {
                    Ok(
                        UpdateCommandView {
                            btree_name,
                            position,
                            key_type_name,
                            field_path,
                            operator,
                            value,
                        },
                    )
                },
            },
        },
    }
}

/// The rest of the line `s` from `at` on, as a syntax error carries it.
pub open spec fn syntax_error(s: Seq<char>, at: int) -> ParseErrorView {
    ParseErrorView::Syntax { remainder: s.subrange(at, s.len() as int) }
}

/// What a line means: the command it spells, or the reason why it spells
/// none. The keyword decides the form, and a line that starts with neither
/// keyword is an unknown command.
///
/// This reads the line from left to right, which also fixes where an error
/// lies. [`crate::spelling`] proves that the lines with a command are those
/// that the grammar describes, and [`crate::trailing`] that a command spans
/// its line.
pub open spec fn command_of(s: Seq<char>) -> Result<CommandView, ParseErrorView> {
    if literal_at(s, 0, dump_keyword()) {
        match dump_at(s, dump_keyword().len() as int) {
            Ok(dump) => Ok(CommandView::Dump(dump)),
            Err(at) => Err(syntax_error(s, at)),
        }
    } else if literal_at(s, 0, update_keyword()) {
        match update_at(s, update_keyword().len() as int) {
            Ok(update) => Ok(CommandView::Update(update)),
            Err(at) => Err(syntax_error(s, at)),
        }
    } else {
        Err(ParseErrorView::UnknownCommand { line: s })
    }
}

/// The view of a parser's result.
pub open spec fn outcome_view(r: Result<Command, ParseError>) -> Result<
    CommandView,
    ParseErrorView,
> {
    match r {
        Ok(command) => Ok(command@),
        Err(error) => Err(error@),
    }
}

/// Reads the token of `class` at `start`.
fn scan_token(chars: &[char], class: CharClass, start: usize) -> (r: Option<usize>)
    requires
        start <= chars@.len(),
    ensures
        r matches Some(end) ==> token_at(chars@, class, start as int) == Some(end as int) && start
            < end <= chars@.len(),
        r is None ==> token_at(chars@, class, start as int) is None,
{
    let end: usize = scan(chars, class, start);
    if start < end {
        Some(end)
    } else {
        None
    }
}

/// Reads the operator at `start`.
pub fn scan_operator(chars: &[char], start: usize) -> (r: Option<(UpdateOperator, usize)>)
    ensures
        r matches Some((operator, end)) ==> operator_at(chars@, start as int) == Some(
            (operator, end as int),
        ) && start < end <= chars@.len(),
        r is None ==> operator_at(chars@, start as int) is None,
{
    let n: usize = chars.len();
    if start < n && chars[start] == '+' && start + 1 < n && chars[start + 1] == '=' {
        Some((UpdateOperator::Add, start + 2))
    } else if start < n && chars[start] == '=' {
        Some((UpdateOperator::Assign, start + 1))
    } else {
        None
    }
}

/// Copies the characters of `input` from `from` up to `to`.
fn piece(input: &str, from: usize, to: usize) -> (r: String)
    requires
        from <= to <= input@.len(),
    ensures
        r@ == input@.subrange(from as int, to as int),
{
    String::from_str(input.substring_char(from, to))
}

/// Reads the B-tree name and the position that follow a keyword.
fn parse_target(input: &str, chars: &[char], start: usize) -> (r: Result<
    (String, BTreePosition, usize),
    usize,
>)
    requires
        chars@ == input@,
        start <= chars@.len(),
    ensures
        r matches Ok((name, position, end)) ==> target_at(input@, start as int) == Ok::<
            (Seq<char>, BTreePosition, int),
            int,
        >((name@, position, end as int)) && end <= chars@.len(),
        r matches Err(at) ==> target_at(input@, start as int) == Err::<
            (Seq<char>, BTreePosition, int),
            int,
        >(at as int) && at <= chars@.len(),
{
    let name = match scan_token(chars, CharClass::Blank, start) {
        Some(end) => end,
        None => { return Err(start); },
    };
    let gap = match scan_token(chars, CharClass::Letter, name) {
        Some(end) => end,
        None => { return Err(name); },
    };
    let place = match scan_token(chars, CharClass::Blank, gap) {
        Some(end) => end,
        None => { return Err(gap); },
    };
    match scan_position(chars, place) {
        Ok((position, end)) => Ok((piece(input, name, gap), position, end)),
        Err(at) => Err(at),
    }
}

/// Reads the rest of a dump command, from behind its keyword.
fn parse_dump_cmd(input: &str, chars: &[char], start: usize) -> (r: Result<DumpCommand, usize>)
    requires
        chars@ == input@,
        start <= chars@.len(),
    ensures
        r matches Ok(dump) ==> dump_at(input@, start as int) == Ok::<DumpCommandView, int>(dump@),
        r matches Err(at) ==> dump_at(input@, start as int) == Err::<DumpCommandView, int>(
            at as int,
        ) && at <= chars@.len(),
{
    match parse_target(input, chars, start) {
        Ok((btree_name, position, end)) => {
            if end != chars.len() {
                Err(end)
            } else {
                Ok(DumpCommand { btree_name, position })
            }
        },
        Err(at) => Err(at),
    }
}

/// Reads the change of an update command: key type, field, operator and
/// value.
fn parse_change(input: &str, chars: &[char], start: usize) -> (r: Result<
    (String, String, UpdateOperator, u64, usize),
    usize,
>)
    requires
        chars@ == input@,
        start <= chars@.len(),
    ensures
        r matches Ok((key_type, field, operator, value, end)) ==> change_at(input@, start as int)
            == Ok::<(Seq<char>, Seq<char>, UpdateOperator, u64, int), int>(
            (key_type@, field@, operator, value, end as int),
        ) && end <= chars@.len(),
        r matches Err(at) ==> change_at(input@, start as int) == Err::<
            (Seq<char>, Seq<char>, UpdateOperator, u64, int),
            int,
        >(at as int) && at <= chars@.len(),
{
    let dot = match scan_token(chars, CharClass::Word, start) {
        Some(end) => end,
        None => { return Err(start); },
    };
    if dot >= chars.len() || chars[dot] != '.' {
        return Err(dot);
    }
    let op = match scan_token(chars, CharClass::Path, dot + 1) {
        Some(end) => end,
        None => { return Err(dot + 1); },
    };
    let (operator, digits) = match scan_operator(chars, op) {
        Some(found) => found,
        None => { return Err(op); },
    };
    proof {
        lemma_number_at(chars@, digits as int, u64::MAX as nat);
    }
    match scan_number(chars, digits, u64::MAX) {
        Some((value, end)) => Ok(
            (piece(input, start, dot), piece(input, dot + 1, op), operator, value, end),
        ),
        None => Err(digits),
    }
}

/// Reads the rest of an update command, from behind its keyword.
fn parse_update_cmd(input: &str, chars: &[char], start: usize) -> (r: Result<
    UpdateCommand,
    usize,
>)
    requires
        chars@ == input@,
        start <= chars@.len(),
    ensures
        r matches Ok(update) ==> update_at(input@, start as int) == Ok::<UpdateCommandView, int>(
            update@,
        ),
        r matches Err(at) ==> update_at(input@, start as int) == Err::<UpdateCommandView, int>(
            at as int,
        ) && at <= chars@.len(),
{
    let (btree_name, position, gap) = match parse_target(input, chars, start) {
        Ok(found) => found,
        Err(at) => { return Err(at); },
    };
    let key = match scan_token(chars, CharClass::Blank, gap) {
        Some(end) => end,
        None => { return Err(gap); },
    };
    match parse_change(input, chars, key) {
        Ok((key_type_name, field_path, operator, value, end)) => {
            if end != chars.len() {
                Err(end)
            } else {
                Ok(UpdateCommand { btree_name, position, key_type_name, field_path, operator, value })
            }
        },
        Err(at) => Err(at),
    }
}

/// Chooses the form by the keyword and reads the command in that form.
fn parse_command_inner(input: &str, chars: &[char]) -> (r: Result<Command, ParseError>)
    requires
        chars@ == input@,
    ensures
        outcome_view(r) == command_of(input@),
{
    let n: usize = chars.len();
    if match_literal(chars, 0, "dump") {
        proof {
            reveal_strlit("dump");
        }
        match parse_dump_cmd(input, chars, 4) {
            Ok(dump) => Ok(Command::Dump(dump)),
            Err(at) => Err(ParseError::Syntax { remainder: piece(input, at, n) }),
        }
    } else if match_literal(chars, 0, "update") {
        proof {
            reveal_strlit("update");
        }
        match parse_update_cmd(input, chars, 6) {
            Ok(update) => Ok(Command::Update(update)),
            Err(at) => Err(ParseError::Syntax { remainder: piece(input, at, n) }),
        }
    } else {
        Err(ParseError::UnknownCommand { line: String::from_str(input) })
    }
}

/// Parses a command line.
///
/// The result is the command that the whole line spells. A line that
/// starts with neither keyword is an unknown command; any other line that
/// is no command is a syntax error, which carries the rest of the line from
/// the place where it stops being one.
pub fn parse_command(input: &str) -> (r: Result<Command, ParseError>)
    ensures
        outcome_view(r) == command_of(input@),
{
    let chars = to_chars(input);
    parse_command_inner(input, chars.as_slice())
}

/// Parses the position at the start of `input` and tells how many
/// characters it spans. What follows the position is not looked at.
pub fn parse_bpos(input: &str) -> (r: Result<(BTreePosition, usize), ParseError>)
    ensures
        r matches Ok((position, end)) ==> position_at(input@, 0) == Ok::<
            (BTreePosition, int),
            int,
        >((position, end as int)),
        r matches Err(error) ==> (position_at(input@, 0) matches Err(at) && error@ == syntax_error(
            input@,
            at,
        )),
{
    let chars = to_chars(input);
    match scan_position(chars.as_slice(), 0) {
        Ok(found) => Ok(found),
        Err(at) => Err(ParseError::Syntax { remainder: piece(input, at, chars.len()) }),
    }
}

} // verus!
