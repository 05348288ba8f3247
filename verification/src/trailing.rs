//! What a character behind a line does to it: a command spans its line,
//! so the longer line is a syntax error, unless the character is a digit
//! that makes the last number of the command longer.

use crate::command::{
    CommandView, DumpCommandView, ParseErrorView, UpdateCommandView, UpdateOperator,
};
use crate::parser::{
    change_at, command_of, dump_keyword, operator_at, target_at, token_at, update_keyword,
};
use crate::position::{position_at, snapshot_at, snapshot_sentinel, BTreePosition};
use crate::spelling::lemma_token_text;
use crate::text::{
    decimal, digit_value, is_digit, lemma_literal_chars, lemma_literal_first, lemma_number_at,
    lemma_run_end, lemma_run_end_is, literal_at, number_at, run_end, CharClass,
};
use vstd::prelude::*;

verus! {

/// The number that a numeral for `value` denotes with the digit `c` behind
/// it.
pub open spec fn grown(value: nat, c: char) -> nat {
    value * 10 + digit_value(c)
}

/// How a run fares when a character is put behind the line: a run that
/// ends inside the line stays, a run that reaches the end of the line takes
/// the character in if it is of the class.
proof fn lemma_run_end_push(s: Seq<char>, c: char, class: CharClass, start: int)
    requires
        0 <= start <= s.len(),
    ensures
        run_end(s.push(c), class, start) == if run_end(s, class, start) < s.len() {
            run_end(s, class, start)
        } else if class.contains(c) {
            s.len() as int + 1
        } else {
            s.len() as int
        },
{
    let t = s.push(c);
    let end = run_end(s, class, start);
    lemma_run_end(s, class, start);
    assert forall|i: int| start <= i < end implies class.contains(#[trigger] t[i]) by {
        assert(t[i] == s[i]);
    }
    if end < s.len() {
        assert(t[end] == s[end]);
        lemma_run_end_is(t, class, start, end);
    } else if class.contains(c) {
        lemma_run_end_is(t, class, start, s.len() as int + 1);
    } else {
        lemma_run_end_is(t, class, start, s.len() as int);
    }
}

/// A token that ends inside the line stays what it is when a character is
/// put behind the line.
proof fn lemma_token_push(s: Seq<char>, c: char, class: CharClass, start: int)
    requires
        0 <= start <= s.len(),
        token_at(s, class, start) matches Some(end) && end < s.len(),
    ensures
        token_at(s.push(c), class, start) == token_at(s, class, start),
        s.push(c).subrange(start, token_at(s, class, start)->0) == s.subrange(
            start,
            token_at(s, class, start)->0,
        ),
{
    lemma_run_end_push(s, c, class, start);
    let end = run_end(s, class, start);
    assert(s.push(c).subrange(start, end) =~= s.subrange(start, end));
}

/// How a numeral fares when a character is put behind the line: it stays
/// what it is unless it reaches the end of the line and the character is a
/// digit, which it then takes in.
proof fn lemma_number_push(s: Seq<char>, c: char, start: int, max: nat)
    requires
        0 <= start <= s.len(),
    ensures
        ({
            let end = run_end(s, CharClass::Digit, start);
            let value = decimal(s.subrange(start, end));
            if end == s.len() && is_digit(c) {
                start < end ==> number_at(s.push(c), start, max) == if grown(value, c) <= max {
                    Some((grown(value, c), s.len() as int + 1))
                } else {
                    None
                }
            } else {
                number_at(s.push(c), start, max) == number_at(s, start, max)
            }
        }),
{
    let t = s.push(c);
    let end = run_end(s, CharClass::Digit, start);
    lemma_run_end_push(s, c, CharClass::Digit, start);
    lemma_run_end(s, CharClass::Digit, start);
    assert(t.subrange(start, end) =~= s.subrange(start, end));
    if end == s.len() && is_digit(c) {
        let longer = t.subrange(start, s.len() as int + 1);
        assert(longer.drop_last() =~= s.subrange(start, end));
        assert(longer.last() == c);
        assert(decimal(longer) == grown(decimal(s.subrange(start, end)), c));
    }
}

/// A text that stands inside the line stands there when a character is put
/// behind the line, and no other does.
proof fn lemma_literal_push(s: Seq<char>, c: char, at: int, literal: Seq<char>)
    requires
        0 <= at,
        at + literal.len() <= s.len(),
    ensures
        literal_at(s.push(c), at, literal) == literal_at(s, at, literal),
{
    assert(s.push(c).subrange(at, at + literal.len()) =~= s.subrange(at, at + literal.len()));
}

/// How a snapshot field fares when a character is put behind the line.
proof fn lemma_snapshot_push(s: Seq<char>, c: char, start: int)
    requires
        0 <= start <= s.len(),
        snapshot_at(s, start) is Some,
    ensures
        ({
            let (value, end) = snapshot_at(s, start)->0;
            &&& start < end <= s.len()
            &&& if end == s.len() && is_digit(c) && is_digit(s.last()) {
                snapshot_at(s.push(c), start) == if grown(value as nat, c) <= u32::MAX {
                    Some((grown(value as nat, c) as u32, s.len() as int + 1))
                } else {
                    None
                }
            } else {
                snapshot_at(s.push(c), start) == snapshot_at(s, start)
            }
        }),
{
    reveal_strlit("U32_MAX");
    let t = s.push(c);
    lemma_number_push(s, c, start, u32::MAX as nat);
    lemma_run_end(s, CharClass::Digit, start);
    if number_at(s, start, u32::MAX as nat) is Some {
        let end = run_end(s, CharClass::Digit, start);
        if end == s.len() {
            assert(is_digit(s[end - 1]));
            if is_digit(c) && grown(decimal(s.subrange(start, end)), c) > u32::MAX {
                assert(t[start] == s[start]);
                if literal_at(t, start, snapshot_sentinel()) {
                    lemma_literal_first(t, start, snapshot_sentinel());
                }
            }
        }
    } else {
        lemma_literal_chars(s, start, snapshot_sentinel());
        assert(s[start + 0] == snapshot_sentinel()[0]);
        assert(s[start + 6] == snapshot_sentinel()[6]);
        lemma_literal_push(s, c, start, snapshot_sentinel());
    }
}

/// How a position fares when a character is put behind the line.
proof fn lemma_position_push(s: Seq<char>, c: char, start: int)
    requires
        0 <= start <= s.len(),
        position_at(s, start) is Ok,
    ensures
        ({
            let (position, end) = position_at(s, start)->Ok_0;
            &&& start < end <= s.len()
            &&& if end == s.len() && is_digit(c) && is_digit(s.last()) {
                if grown(position.snapshot as nat, c) <= u32::MAX {
                    position_at(s.push(c), start) == Ok::<(BTreePosition, int), int>(
                        (
                            BTreePosition {
                                snapshot: grown(position.snapshot as nat, c) as u32,
                                ..position
                            },
                            s.len() as int + 1,
                        ),
                    )
                } else {
                    position_at(s.push(c), start) is Err
                }
            } else {
                position_at(s.push(c), start) == position_at(s, start)
            }
        }),
{
    let t = s.push(c);
    lemma_number_push(s, c, start, u64::MAX as nat);
    lemma_number_at(s, start, u64::MAX as nat);
    let (_, colon1) = number_at(s, start, u64::MAX as nat)->0;
    assert(t[colon1] == s[colon1]);
    lemma_number_push(s, c, colon1 + 1, u64::MAX as nat);
    lemma_number_at(s, colon1 + 1, u64::MAX as nat);
    let (_, colon2) = number_at(s, colon1 + 1, u64::MAX as nat)->0;
    assert(t[colon2] == s[colon2]);
    lemma_snapshot_push(s, c, colon2 + 1);
}

/// How a target fares when a character is put behind the line.
proof fn lemma_target_push(s: Seq<char>, c: char, start: int)
    requires
        0 <= start <= s.len(),
        target_at(s, start) is Ok,
    ensures
        ({
            let (name, position, end) = target_at(s, start)->Ok_0;
            &&& start < end <= s.len()
            &&& if end == s.len() && is_digit(c) && is_digit(s.last()) {
                if grown(position.snapshot as nat, c) <= u32::MAX {
                    target_at(s.push(c), start) == Ok::<(Seq<char>, BTreePosition, int), int>(
                        (
                            name,
                            BTreePosition {
                                snapshot: grown(position.snapshot as nat, c) as u32,
                                ..position
                            },
                            s.len() as int + 1,
                        ),
                    )
                } else {
                    target_at(s.push(c), start) is Err
                }
            } else {
                target_at(s.push(c), start) == target_at(s, start)
            }
        }),
{
    lemma_token_text(s, CharClass::Blank, start);
    let name = token_at(s, CharClass::Blank, start)->0;
    lemma_token_text(s, CharClass::Letter, name);
    let gap = token_at(s, CharClass::Letter, name)->0;
    lemma_token_text(s, CharClass::Blank, gap);
    let place = token_at(s, CharClass::Blank, gap)->0;
    lemma_position_push(s, c, place);
    lemma_token_push(s, c, CharClass::Blank, start);
    lemma_token_push(s, c, CharClass::Letter, name);
    lemma_token_push(s, c, CharClass::Blank, gap);
}

/// How a change fares when a character is put behind a line that ends with
/// it.
proof fn lemma_change_push(s: Seq<char>, c: char, start: int)
    requires
        0 <= start <= s.len(),
        change_at(s, start) matches Ok((_, _, _, _, end)) && end == s.len(),
    ensures
        is_digit(s.last()),
        ({
            let (key_type, path, operator, value, end) = change_at(s, start)->Ok_0;
            if is_digit(c) {
                if grown(value as nat, c) <= u64::MAX {
                    change_at(s.push(c), start) == Ok::<
                        (Seq<char>, Seq<char>, UpdateOperator, u64, int),
                        int,
                    >((key_type, path, operator, grown(value as nat, c) as u64, s.len() as int + 1))
                } else {
                    change_at(s.push(c), start) is Err
                }
            } else {
                change_at(s.push(c), start) == change_at(s, start)
            }
        }),
{
    let t = s.push(c);
    lemma_token_text(s, CharClass::Word, start);
    let dot = token_at(s, CharClass::Word, start)->0;
    assert(t[dot] == s[dot]);
    lemma_token_text(s, CharClass::Path, dot + 1);
    let op = token_at(s, CharClass::Path, dot + 1)->0;
    let (_, digits) = operator_at(s, op)->0;
    lemma_number_at(s, digits, u64::MAX as nat);
    lemma_run_end(s, CharClass::Digit, digits);
    assert(is_digit(s[s.len() - 1]));
    assert(t[op] == s[op]);
    assert(t[op + 1] == s[op + 1]);
    lemma_token_push(s, c, CharClass::Word, start);
    lemma_token_push(s, c, CharClass::Path, dot + 1);
    lemma_number_push(s, c, digits, u64::MAX as nat);
}

/// The command whose last number has the digit `c` behind it: the snapshot
/// of a dump command, the value of an update command.
pub open spec fn with_digit(command: CommandView, c: char) -> CommandView {
    match command {
        CommandView::Dump(dump) => CommandView::Dump(
            DumpCommandView {
                position: BTreePosition {
                    snapshot: grown(dump.position.snapshot as nat, c) as u32,
                    ..dump.position
                },
                ..dump
            },
        ),
        CommandView::Update(update) => CommandView::Update(
            UpdateCommandView { value: grown(update.value as nat, c) as u64, ..update },
        ),
    }
}

/// Whether the last number of the command is still in range with the digit
/// `c` behind it.
pub open spec fn takes_digit(command: CommandView, c: char) -> bool {
    match command {
        CommandView::Dump(dump) => grown(dump.position.snapshot as nat, c) <= u32::MAX,
        CommandView::Update(update) => grown(update.value as nat, c) <= u64::MAX,
    }
}

/// A command spans its line: with one more character behind it, the line
/// of a command is a syntax error. The one exception is a digit behind a
/// line that ends with a digit. It makes the last number of the command
/// longer, and the line is a syntax error only where that number is then
/// out of range. Where the character is not taken in as a digit, it is the
/// error's remainder.
pub proof fn lemma_command_spans_line(s: Seq<char>, c: char)
    requires
        command_of(s) is Ok,
    ensures
        ({
            let command = command_of(s)->Ok_0;
            if is_digit(c) && is_digit(s.last()) {
                if takes_digit(command, c) {
                    command_of(s.push(c)) == Ok::<CommandView, ParseErrorView>(
                        with_digit(command, c),
                    )
                } else {
                    command_of(s.push(c)) matches Err(
                        ParseErrorView::Syntax { .. },
                    )
                }
            } else {
                command_of(s.push(c)) == Err::<CommandView, ParseErrorView>(
                    ParseErrorView::Syntax { remainder: seq![c] },
                )
            }
        }),
{
    reveal_strlit("dump");
    reveal_strlit("update");
    let t = s.push(c);
    assert(t.subrange(s.len() as int, t.len() as int) =~= seq![c]);
    if literal_at(s, 0, dump_keyword()) {
        lemma_literal_push(s, c, 0, dump_keyword());
        lemma_target_push(s, c, 4);
    } else {
        assert(s.len() >= 6);
        lemma_literal_push(s, c, 0, dump_keyword());
        lemma_literal_push(s, c, 0, update_keyword());
        lemma_target_push(s, c, 6);
        let (_, _, gap) = target_at(s, 6)->Ok_0;
        lemma_token_text(s, CharClass::Blank, gap);
        let key = token_at(s, CharClass::Blank, gap)->0;
        lemma_token_push(s, c, CharClass::Blank, gap);
        lemma_change_push(s, c, key);
    }
}

/// With one more character behind it the line of a command is a syntax
/// error, unless the character is a digit that the last number of the
/// command takes in.
pub proof fn lemma_longer_line_is_rejected(s: Seq<char>, c: char)
    requires
        command_of(s) is Ok,
        !(is_digit(c) && is_digit(s.last()) && takes_digit(command_of(s)->Ok_0, c)),
    ensures
        command_of(s.push(c)) matches Err(ParseErrorView::Syntax { .. }),
{
    lemma_command_spans_line(s, c);
}

} // verus!
