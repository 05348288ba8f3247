//! The grammar said outright: which texts spell a command, and which
//! command a text spells.
//!
//! A spelling holds the parts of a command line as they are written: the
//! blanks, the names and the numerals. A line is a command exactly where it
//! is the text of a well-formed spelling, and the command is what the
//! spelling means. The canonical text of a command is one of its spellings,
//! so it parses back to the command.

use crate::command::{
    CommandView, DumpCommandView, ParseErrorView, UpdateCommandView, UpdateOperator,
};
use crate::parser::{
    change_at, command_of, dump_at, dump_keyword, operator_at, target_at, token_at, update_at,
    update_keyword,
};
use crate::position::{char_at, position_at, snapshot_at, snapshot_sentinel, BTreePosition};
use crate::render::{
    command_text, dump_text, operator_text, position_form, position_text, snapshot_text,
    update_text,
};
use crate::text::{
    decimal, is_digit, is_numeral, is_token, lemma_literal_chars, lemma_literal_first,
    lemma_literal_split, lemma_literal_whole, lemma_number_spelled, lemma_number_text,
    lemma_numeral, lemma_run_end, lemma_run_end_is, literal_at, number_at, numeral, run_end,
    CharClass,
};
use vstd::prelude::*;

verus! {

/// How the part that both commands start with is written behind the
/// keyword.
pub struct TargetSpelling {
    /// The blanks behind the keyword.
    pub lead: Seq<char>,
    pub btree_name: Seq<char>,
    /// The blanks behind the name.
    pub gap: Seq<char>,
    pub inode: Seq<char>,
    pub offset: Seq<char>,
    /// A numeral, or the sentinel.
    pub snapshot: Seq<char>,
}

/// How the change of an update command is written behind the position.
pub struct ChangeSpelling {
    /// The blanks behind the position.
    pub lead: Seq<char>,
    pub key_type_name: Seq<char>,
    pub field_path: Seq<char>,
    pub operator: UpdateOperator,
    pub value: Seq<char>,
}

impl TargetSpelling {
    /// Whether the parts are what the grammar asks for: runs of blanks, a
    /// name of letters, two 64-bit numerals, and a 32-bit numeral or the
    /// sentinel.
    pub open spec fn well_formed(self) -> bool {
        &&& is_token(self.lead, CharClass::Blank)
        &&& is_token(self.btree_name, CharClass::Letter)
        &&& is_token(self.gap, CharClass::Blank)
        &&& is_numeral(self.inode, u64::MAX as nat)
        &&& is_numeral(self.offset, u64::MAX as nat)
        &&& (is_numeral(self.snapshot, u32::MAX as nat) || self.snapshot == snapshot_sentinel())
    }

    /// The parts one behind the other.
    pub open spec fn text(self) -> Seq<char> {
        self.lead + self.btree_name + self.gap + position_form(
            self.inode,
            self.offset,
            self.snapshot,
        )
    }

    /// The position that the numerals denote.
    pub open spec fn position(self) -> BTreePosition {
        BTreePosition {
            inode: decimal(self.inode) as u64,
            offset: decimal(self.offset) as u64,
            snapshot: if self.snapshot == snapshot_sentinel() {
                u32::MAX
            } else {
                decimal(self.snapshot) as u32
            },
        }
    }
}

impl ChangeSpelling {
    /// Whether the parts are what the grammar asks for.
    pub open spec fn well_formed(self) -> bool {
        &&& is_token(self.lead, CharClass::Blank)
        &&& is_token(self.key_type_name, CharClass::Word)
        &&& is_token(self.field_path, CharClass::Path)
        &&& is_numeral(self.value, u64::MAX as nat)
    }

    /// The parts one behind the other, with the dot between the key type
    /// and the field.
    pub open spec fn text(self) -> Seq<char> {
        self.lead + self.key_type_name + "."@ + self.field_path + operator_text(self.operator)
            + self.value
    }
}

/// The line of a dump command that is spelled this way.
pub open spec fn dump_spelled(target: TargetSpelling) -> Seq<char> {
    dump_keyword() + target.text()
}

/// The line of an update command that is spelled this way.
pub open spec fn update_spelled(target: TargetSpelling, change: ChangeSpelling) -> Seq<char> {
    update_keyword() + target.text() + change.text()
}

/// The dump command that a spelling means.
pub open spec fn dump_meant(target: TargetSpelling) -> DumpCommandView {
    DumpCommandView { btree_name: target.btree_name, position: target.position() }
}

/// The update command that a spelling means.
pub open spec fn update_meant(target: TargetSpelling, change: ChangeSpelling) -> UpdateCommandView {
    UpdateCommandView {
        btree_name: target.btree_name,
        position: target.position(),
        key_type_name: change.key_type_name,
        field_path: change.field_path,
        operator: change.operator,
        value: decimal(change.value) as u64,
    }
}

/// A token that stands in a line, with no character of its class behind
/// it, is the token that is read there.
pub proof fn lemma_token_spelled(s: Seq<char>, class: CharClass, at: int, t: Seq<char>)
    requires
        literal_at(s, at, t),
        is_token(t, class),
        at + t.len() < s.len() ==> !class.contains(s[at + t.len()]),
    ensures
        token_at(s, class, at) == Some(at + t.len()),
        s.subrange(at, at + t.len()) == t,
{
    lemma_literal_chars(s, at, t);
    assert forall|i: int| at <= i < at + t.len() implies class.contains(#[trigger] s[i]) by {
        assert(s[at + (i - at)] == t[i - at]);
    }
    lemma_run_end_is(s, class, at, at + t.len());
}

/// The run that a token covers is a token of its class.
pub proof fn lemma_token_text(s: Seq<char>, class: CharClass, start: int)
    requires
        0 <= start <= s.len(),
    ensures
        token_at(s, class, start) matches Some(end) ==> start < end <= s.len() && is_token(
            s.subrange(start, end),
            class,
        ) && (end < s.len() ==> !class.contains(s[end])),
{
    lemma_run_end(s, class, start);
    let end = run_end(s, class, start);
    assert forall|k: int| 0 <= k < end - start implies class.contains(
        #[trigger] s.subrange(start, end)[k],
    ) by {
        assert(class.contains(s[start + k]));
    }
}

/// Three fields that stand in a line with colons between them are read as
/// a position. The third field is a numeral with no digit behind it, or
/// the sentinel.
proof fn lemma_position_spelled(
    s: Seq<char>,
    at: int,
    inode: Seq<char>,
    offset: Seq<char>,
    third: Seq<char>,
)
    requires
        literal_at(s, at, position_form(inode, offset, third)),
        is_numeral(inode, u64::MAX as nat),
        is_numeral(offset, u64::MAX as nat),
        is_numeral(third, u32::MAX as nat) || third == snapshot_sentinel(),
        ({
            let end = at + position_form(inode, offset, third).len();
            is_numeral(third, u32::MAX as nat) && end < s.len() ==> !is_digit(s[end])
        }),
    ensures
        position_at(s, at) == Ok::<(BTreePosition, int), int>(
            (
                BTreePosition {
                    inode: decimal(inode) as u64,
                    offset: decimal(offset) as u64,
                    snapshot: if third == snapshot_sentinel() {
                        u32::MAX
                    } else {
                        decimal(third) as u32
                    },
                },
                at + position_form(inode, offset, third).len(),
            ),
        ),
{
    reveal_strlit(":");
    reveal_strlit("U32_MAX");
    let colon = ":"@;
    let colon1 = at + inode.len();
    let colon2 = colon1 + 1 + offset.len();
    let place = colon2 + 1;
    lemma_literal_split(s, at, inode + colon + offset + colon, third);
    lemma_literal_split(s, at, inode + colon + offset, colon);
    lemma_literal_split(s, at, inode + colon, offset);
    lemma_literal_split(s, at, inode, colon);
    lemma_literal_first(s, colon1, colon);
    lemma_literal_first(s, colon2, colon);
    lemma_number_spelled(s, at, inode, u64::MAX as nat);
    lemma_number_spelled(s, colon1 + 1, offset, u64::MAX as nat);
    assert(char_at(s, colon1, ':'));
    assert(char_at(s, colon2, ':'));
    assert(literal_at(s, place, third));
    if third == snapshot_sentinel() {
        lemma_literal_first(s, place, third);
        assert(number_at(s, place, u32::MAX as nat) is None);
        assert(snapshot_at(s, place) == Some((u32::MAX, place + third.len())));
    } else {
        lemma_number_spelled(s, place, third, u32::MAX as nat);
        assert(snapshot_at(s, place) == Some((decimal(third) as u32, place + third.len())));
    }
}

/// A position starts with the first digit of its first field.
proof fn lemma_position_form_first(inode: Seq<char>, offset: Seq<char>, third: Seq<char>)
    requires
        is_numeral(inode, u64::MAX as nat),
    ensures
        position_form(inode, offset, third).len() > 0,
        is_digit(position_form(inode, offset, third)[0]),
{
    assert(position_form(inode, offset, third)[0] == inode[0]);
}

/// The target that stands in a line is the target that is read there.
proof fn lemma_target_spelled(s: Seq<char>, at: int, target: TargetSpelling)
    requires
        literal_at(s, at, target.text()),
        target.well_formed(),
        ({
            let end = at + target.text().len();
            is_numeral(target.snapshot, u32::MAX as nat) && end < s.len() ==> !is_digit(s[end])
        }),
    ensures
        target_at(s, at) == Ok::<(Seq<char>, BTreePosition, int), int>(
            (target.btree_name, target.position(), at + target.text().len()),
        ),
{
    let place = position_form(target.inode, target.offset, target.snapshot);
    let name = at + target.lead.len();
    let gap = name + target.btree_name.len();
    let start = gap + target.gap.len();
    lemma_literal_split(s, at, target.lead + target.btree_name + target.gap, place);
    lemma_literal_split(s, at, target.lead + target.btree_name, target.gap);
    lemma_literal_split(s, at, target.lead, target.btree_name);
    lemma_position_form_first(target.inode, target.offset, target.snapshot);
    lemma_literal_first(s, name, target.btree_name);
    lemma_literal_first(s, gap, target.gap);
    lemma_literal_first(s, start, place);
    lemma_token_spelled(s, CharClass::Blank, at, target.lead);
    lemma_token_spelled(s, CharClass::Letter, name, target.btree_name);
    lemma_token_spelled(s, CharClass::Blank, gap, target.gap);
    lemma_position_spelled(s, start, target.inode, target.offset, target.snapshot);
}

/// The change that stands in a line is the change that is read there,
/// behind its blanks.
proof fn lemma_change_spelled(s: Seq<char>, at: int, change: ChangeSpelling)
    requires
        literal_at(s, at, change.text()),
        change.well_formed(),
        ({
            let end = at + change.text().len();
            end < s.len() ==> !is_digit(s[end])
        }),
    ensures
        token_at(s, CharClass::Blank, at) == Some(at + change.lead.len()),
        change_at(s, at + change.lead.len()) == Ok::<
            (Seq<char>, Seq<char>, UpdateOperator, u64, int),
            int,
        >(
            (
                change.key_type_name,
                change.field_path,
                change.operator,
                decimal(change.value) as u64,
                at + change.text().len(),
            ),
        ),
{
    reveal_strlit(".");
    reveal_strlit("=");
    reveal_strlit("+=");
    let sign = operator_text(change.operator);
    let key = at + change.lead.len();
    let dot = key + change.key_type_name.len();
    let op = dot + 1 + change.field_path.len();
    let digits = op + sign.len();
    lemma_literal_split(
        s,
        at,
        change.lead + change.key_type_name + "."@ + change.field_path + sign,
        change.value,
    );
    lemma_literal_split(
        s,
        at,
        change.lead + change.key_type_name + "."@ + change.field_path,
        sign,
    );
    lemma_literal_split(s, at, change.lead + change.key_type_name + "."@, change.field_path);
    lemma_literal_split(s, at, change.lead + change.key_type_name, "."@);
    lemma_literal_split(s, at, change.lead, change.key_type_name);
    lemma_literal_first(s, key, change.key_type_name);
    lemma_literal_first(s, dot, "."@);
    lemma_literal_chars(s, op, sign);
    assert(s[op + 0] == sign[0]);
    if change.operator == UpdateOperator::Add {
        assert(s[op + 1] == sign[1]);
    }
    lemma_token_spelled(s, CharClass::Blank, at, change.lead);
    lemma_token_spelled(s, CharClass::Word, key, change.key_type_name);
    lemma_token_spelled(s, CharClass::Path, dot + 1, change.field_path);
    assert(operator_at(s, op) == Some((change.operator, digits)));
    lemma_number_spelled(s, digits, change.value, u64::MAX as nat);
}

/// A line that starts with one keyword does not start with the other.
proof fn lemma_keywords_differ(s: Seq<char>)
    ensures
        dump_keyword().len() == 4,
        update_keyword().len() == 6,
        !(literal_at(s, 0, dump_keyword()) && literal_at(s, 0, update_keyword())),
{
    reveal_strlit("dump");
    reveal_strlit("update");
    if literal_at(s, 0, dump_keyword()) && literal_at(s, 0, update_keyword()) {
        lemma_literal_first(s, 0, dump_keyword());
        lemma_literal_first(s, 0, update_keyword());
    }
}

/// The text of a well-formed spelling of a dump command is a dump command,
/// the one that the spelling means.
pub proof fn lemma_dump_spelling_parses(target: TargetSpelling)
    requires
        target.well_formed(),
    ensures
        command_of(dump_spelled(target)) == Ok::<CommandView, ParseErrorView>(
            CommandView::Dump(dump_meant(target)),
        ),
{
    let s = dump_spelled(target);
    lemma_keywords_differ(s);
    lemma_literal_whole(s);
    lemma_literal_split(s, 0, dump_keyword(), target.text());
    lemma_target_spelled(s, 4, target);
    assert(dump_at(s, 4) == Ok::<DumpCommandView, int>(dump_meant(target)));
}

/// Where the three parts of a line stand in it.
proof fn lemma_three_parts(a: Seq<char>, b: Seq<char>, c: Seq<char>)
    ensures
        literal_at(a + b + c, 0, a),
        literal_at(a + b + c, a.len() as int, b),
        literal_at(a + b + c, a.len() as int + b.len(), c),
        (a + b + c).len() == a.len() + b.len() + c.len(),
{
    let s = a + b + c;
    lemma_literal_whole(s);
    lemma_literal_split(s, 0, a + b, c);
    lemma_literal_split(s, 0, a, b);
}

/// The change of a well-formed spelling starts with a blank.
proof fn lemma_change_text_first(change: ChangeSpelling)
    requires
        change.well_formed(),
    ensures
        change.text().len() > 0,
        !is_digit(change.text()[0]),
{
    assert(change.text()[0] == change.lead[0]);
}

/// The text of a well-formed spelling of an update command is an update
/// command, the one that the spelling means.
pub proof fn lemma_update_spelling_parses(target: TargetSpelling, change: ChangeSpelling)
    requires
        target.well_formed(),
        change.well_formed(),
    ensures
        command_of(update_spelled(target, change)) == Ok::<CommandView, ParseErrorView>(
            CommandView::Update(update_meant(target, change)),
        ),
{
    let s = update_spelled(target, change);
    let gap = 6 + target.text().len() as int;
    lemma_keywords_differ(s);
    lemma_three_parts(update_keyword(), target.text(), change.text());
    lemma_change_text_first(change);
    lemma_literal_first(s, gap, change.text());
    lemma_target_spelled(s, 6, target);
    lemma_change_spelled(s, gap, change);
    assert(update_at(s, 6) == Ok::<UpdateCommandView, int>(update_meant(target, change)));
}

/// Two pieces of a line that lie one behind the other make up the piece
/// that spans both.
proof fn lemma_subrange_join(s: Seq<char>, from: int, mid: int, to: int)
    requires
        0 <= from <= mid <= to <= s.len(),
    ensures
        s.subrange(from, mid) + s.subrange(mid, to) == s.subrange(from, to),
{
    assert(s.subrange(from, mid) + s.subrange(mid, to) =~= s.subrange(from, to));
}

/// The parts of the position that is read at `start`, as they are written.
pub open spec fn position_parts_at(s: Seq<char>, start: int) -> (Seq<char>, Seq<char>, Seq<char>) {
    let colon1 = run_end(s, CharClass::Digit, start);
    let colon2 = run_end(s, CharClass::Digit, colon1 + 1);
    let end = match snapshot_at(s, colon2 + 1) {
        Some((_, end)) => end,
        None => colon2 + 1,
    };
    (s.subrange(start, colon1), s.subrange(colon1 + 1, colon2), s.subrange(colon2 + 1, end))
}

/// A position that was read is written as three fields with colons
/// between them, which denote it.
proof fn lemma_position_is_spelled(s: Seq<char>, start: int)
    requires
        0 <= start <= s.len(),
        position_at(s, start) is Ok,
    ensures
        ({
            let (position, end) = position_at(s, start)->Ok_0;
            let (inode, offset, third) = position_parts_at(s, start);
            &&& start < end <= s.len()
            &&& s.subrange(start, end) == position_form(inode, offset, third)
            &&& is_numeral(inode, u64::MAX as nat)
            &&& is_numeral(offset, u64::MAX as nat)
            &&& (is_numeral(third, u32::MAX as nat) || third == snapshot_sentinel())
            &&& position.inode == decimal(inode)
            &&& position.offset == decimal(offset)
            &&& position.snapshot == if third == snapshot_sentinel() {
                u32::MAX
            } else {
                decimal(third) as u32
            }
        }),
{
    reveal_strlit(":");
    reveal_strlit("U32_MAX");
    let (inode, offset, third) = position_parts_at(s, start);
    lemma_number_text(s, start, u64::MAX as nat);
    let colon1 = run_end(s, CharClass::Digit, start);
    lemma_number_text(s, colon1 + 1, u64::MAX as nat);
    let colon2 = run_end(s, CharClass::Digit, colon1 + 1);
    let place = colon2 + 1;
    lemma_number_text(s, place, u32::MAX as nat);
    let (_, end) = snapshot_at(s, place)->0;
    if number_at(s, place, u32::MAX as nat) is Some {
        assert(is_digit(third[0]));
        assert(third != snapshot_sentinel()) by {
            if third == snapshot_sentinel() {
                assert(third[0] == snapshot_sentinel()[0]);
            }
        }
    }
    assert(s.subrange(colon1, colon1 + 1) =~= ":"@);
    assert(s.subrange(colon2, colon2 + 1) =~= ":"@);
    lemma_subrange_join(s, start, colon1, colon1 + 1);
    lemma_subrange_join(s, start, colon1 + 1, colon2);
    lemma_subrange_join(s, start, colon2, colon2 + 1);
    lemma_subrange_join(s, start, colon2 + 1, end);
}

/// The spelling of the target that is read at `start`.
pub open spec fn target_spelling_at(s: Seq<char>, start: int) -> TargetSpelling {
    let name = run_end(s, CharClass::Blank, start);
    let gap = run_end(s, CharClass::Letter, name);
    let place = run_end(s, CharClass::Blank, gap);
    let (inode, offset, snapshot) = position_parts_at(s, place);
    TargetSpelling {
        lead: s.subrange(start, name),
        btree_name: s.subrange(name, gap),
        gap: s.subrange(gap, place),
        inode,
        offset,
        snapshot,
    }
}

/// A target that was read is written the way its spelling says.
proof fn lemma_target_is_spelled(s: Seq<char>, start: int)
    requires
        0 <= start <= s.len(),
        target_at(s, start) is Ok,
    ensures
        ({
            let (name, position, end) = target_at(s, start)->Ok_0;
            let target = target_spelling_at(s, start);
            &&& start < end <= s.len()
            &&& target.well_formed()
            &&& s.subrange(start, end) == target.text()
            &&& target.btree_name == name
            &&& target.position() == position
        }),
{
    lemma_token_text(s, CharClass::Blank, start);
    let name = run_end(s, CharClass::Blank, start);
    lemma_token_text(s, CharClass::Letter, name);
    let gap = run_end(s, CharClass::Letter, name);
    lemma_token_text(s, CharClass::Blank, gap);
    let place = run_end(s, CharClass::Blank, gap);
    lemma_position_is_spelled(s, place);
    let (_, end) = position_at(s, place)->Ok_0;
    lemma_subrange_join(s, start, name, gap);
    lemma_subrange_join(s, start, gap, place);
    lemma_subrange_join(s, start, place, end);
}

/// The spelling of the change that is read behind the blanks at `start`.
pub open spec fn change_spelling_at(s: Seq<char>, start: int) -> ChangeSpelling {
    let key = run_end(s, CharClass::Blank, start);
    let dot = run_end(s, CharClass::Word, key);
    let op = run_end(s, CharClass::Path, dot + 1);
    let (operator, digits) = match operator_at(s, op) {
        Some(found) => found,
        None => (UpdateOperator::Assign, op),
    };
    ChangeSpelling {
        lead: s.subrange(start, key),
        key_type_name: s.subrange(key, dot),
        field_path: s.subrange(dot + 1, op),
        operator,
        value: s.subrange(digits, run_end(s, CharClass::Digit, digits)),
    }
}

/// A change that was read is written the way its spelling says.
proof fn lemma_change_is_spelled(s: Seq<char>, start: int)
    requires
        0 <= start <= s.len(),
        token_at(s, CharClass::Blank, start) is Some,
        change_at(s, token_at(s, CharClass::Blank, start)->0) is Ok,
    ensures
        ({
            let (key_type_name, field_path, operator, value, end) = change_at(
                s,
                token_at(s, CharClass::Blank, start)->0,
            )->Ok_0;
            let change = change_spelling_at(s, start);
            &&& start < end <= s.len()
            &&& change.well_formed()
            &&& s.subrange(start, end) == change.text()
            &&& change.key_type_name == key_type_name
            &&& change.field_path == field_path
            &&& change.operator == operator
            &&& decimal(change.value) == value
        }),
{
    reveal_strlit(".");
    reveal_strlit("=");
    reveal_strlit("+=");
    lemma_token_text(s, CharClass::Blank, start);
    let key = run_end(s, CharClass::Blank, start);
    lemma_token_text(s, CharClass::Word, key);
    let dot = run_end(s, CharClass::Word, key);
    lemma_token_text(s, CharClass::Path, dot + 1);
    let op = run_end(s, CharClass::Path, dot + 1);
    let (operator, digits) = operator_at(s, op)->0;
    lemma_number_text(s, digits, u64::MAX as nat);
    let end = run_end(s, CharClass::Digit, digits);
    assert(s.subrange(dot, dot + 1) =~= "."@);
    assert(s.subrange(op, digits) =~= operator_text(operator));
    lemma_subrange_join(s, start, key, dot);
    lemma_subrange_join(s, start, dot, dot + 1);
    lemma_subrange_join(s, start, dot + 1, op);
    lemma_subrange_join(s, start, op, digits);
    lemma_subrange_join(s, start, digits, end);
}

/// A dump command is written as the text of a well-formed spelling that
/// means it.
pub proof fn lemma_dump_is_spelled(s: Seq<char>)
    requires
        command_of(s) matches Ok(CommandView::Dump(_)),
    ensures
        ({
            let target = target_spelling_at(s, 4);
            &&& target.well_formed()
            &&& s == dump_spelled(target)
            &&& command_of(s) == Ok::<CommandView, ParseErrorView>(
                CommandView::Dump(dump_meant(target)),
            )
        }),
{
    lemma_keywords_differ(s);
    lemma_target_is_spelled(s, 4);
    assert(s.subrange(0, 4) == dump_keyword());
    lemma_subrange_join(s, 0, 4, s.len() as int);
    lemma_literal_whole(s);
}

/// An update command is written as the text of two well-formed spellings
/// that mean it.
pub proof fn lemma_update_is_spelled(s: Seq<char>)
    requires
        command_of(s) matches Ok(CommandView::Update(_)),
    ensures
        ({
            let target = target_spelling_at(s, 6);
            let change = change_spelling_at(s, 6 + target.text().len() as int);
            &&& target.well_formed()
            &&& change.well_formed()
            &&& s == update_spelled(target, change)
            &&& command_of(s) == Ok::<CommandView, ParseErrorView>(
                CommandView::Update(update_meant(target, change)),
            )
        }),
{
    lemma_keywords_differ(s);
    lemma_target_is_spelled(s, 6);
    let (_, _, gap) = target_at(s, 6)->Ok_0;
    lemma_change_is_spelled(s, gap);
    assert(s.subrange(0, 6) == update_keyword());
    lemma_subrange_join(s, 0, 6, gap);
    lemma_subrange_join(s, 0, gap, s.len() as int);
    lemma_literal_whole(s);
}

/// The grammar of the dump command: a line is the dump command `dump`
/// exactly where it is the text of a well-formed spelling that means
/// `dump`.
pub proof fn lemma_dump_grammar(s: Seq<char>, dump: DumpCommandView)
    ensures
        command_of(s) == Ok::<CommandView, ParseErrorView>(CommandView::Dump(dump)) <==> exists|
            target: TargetSpelling,
        |
            target.well_formed() && #[trigger] dump_spelled(target) == s && dump_meant(target)
                == dump,
{
    if command_of(s) == Ok::<CommandView, ParseErrorView>(CommandView::Dump(dump)) {
        lemma_dump_is_spelled(s);
        let target = target_spelling_at(s, 4);
        assert(target.well_formed() && dump_spelled(target) == s && dump_meant(target) == dump);
    }
    if exists|target: TargetSpelling|
        target.well_formed() && #[trigger] dump_spelled(target) == s && dump_meant(target)
            == dump {
        let target = choose|target: TargetSpelling|
            target.well_formed() && #[trigger] dump_spelled(target) == s && dump_meant(target)
                == dump;
        lemma_dump_spelling_parses(target);
    }
}

/// The grammar of the update command: a line is the update command
/// `update` exactly where it is the text of two well-formed spellings that
/// mean `update`.
pub proof fn lemma_update_grammar(s: Seq<char>, update: UpdateCommandView)
    ensures
        command_of(s) == Ok::<CommandView, ParseErrorView>(CommandView::Update(update))
            <==> exists|target: TargetSpelling, change: ChangeSpelling|
            target.well_formed() && change.well_formed() && #[trigger] update_spelled(
                target,
                change,
            ) == s && update_meant(target, change) == update,
{
    if command_of(s) == Ok::<CommandView, ParseErrorView>(CommandView::Update(update)) {
        lemma_update_is_spelled(s);
        let target = target_spelling_at(s, 6);
        let change = change_spelling_at(s, 6 + target.text().len() as int);
        assert(target.well_formed() && change.well_formed() && update_spelled(target, change)
            == s && update_meant(target, change) == update);
    }
    if exists|target: TargetSpelling, change: ChangeSpelling|
        target.well_formed() && change.well_formed() && #[trigger] update_spelled(target, change)
            == s && update_meant(target, change) == update {
        let (target, change) = choose|target: TargetSpelling, change: ChangeSpelling|
            target.well_formed() && change.well_formed() && #[trigger] update_spelled(
                target,
                change,
            ) == s && update_meant(target, change) == update;
        lemma_update_spelling_parses(target, change);
    }
}

/// Three numerals with colons between them parse to the position of the
/// numbers they denote, whatever zeros lead them, and the canonical text of
/// that position parses to the same position.
pub proof fn lemma_position_keeps_fields(inode: Seq<char>, offset: Seq<char>, snapshot: Seq<char>)
    requires
        is_numeral(inode, u64::MAX as nat),
        is_numeral(offset, u64::MAX as nat),
        is_numeral(snapshot, u32::MAX as nat),
    ensures
        ({
            let text = position_form(inode, offset, snapshot);
            let position = BTreePosition {
                inode: decimal(inode) as u64,
                offset: decimal(offset) as u64,
                snapshot: decimal(snapshot) as u32,
            };
            &&& position_at(text, 0) == Ok::<(BTreePosition, int), int>(
                (position, text.len() as int),
            )
            &&& position_at(position_text(position), 0) == Ok::<(BTreePosition, int), int>(
                (position, position_text(position).len() as int),
            )
        }),
{
    reveal_strlit("U32_MAX");
    let text = position_form(inode, offset, snapshot);
    assert(snapshot != snapshot_sentinel()) by {
        if snapshot == snapshot_sentinel() {
            assert(is_digit(snapshot[0]));
        }
    }
    lemma_literal_whole(text);
    lemma_position_spelled(text, 0, inode, offset, snapshot);
    lemma_position_round_trip(
        BTreePosition {
            inode: decimal(inode) as u64,
            offset: decimal(offset) as u64,
            snapshot: decimal(snapshot) as u32,
        },
    );
}

/// With the sentinel as its third field a position has the greatest
/// snapshot.
pub proof fn lemma_sentinel_is_greatest(inode: Seq<char>, offset: Seq<char>)
    requires
        is_numeral(inode, u64::MAX as nat),
        is_numeral(offset, u64::MAX as nat),
    ensures
        ({
            let text = position_form(inode, offset, snapshot_sentinel());
            position_at(text, 0) == Ok::<(BTreePosition, int), int>(
                (
                    BTreePosition {
                        inode: decimal(inode) as u64,
                        offset: decimal(offset) as u64,
                        snapshot: u32::MAX,
                    },
                    text.len() as int,
                ),
            )
        }),
{
    let text = position_form(inode, offset, snapshot_sentinel());
    lemma_literal_whole(text);
    lemma_position_spelled(text, 0, inode, offset, snapshot_sentinel());
}

/// The canonical spelling of a target: single spaces, numerals without
/// leading zeros, and the sentinel for the greatest snapshot.
pub open spec fn canonical_target(btree_name: Seq<char>, position: BTreePosition) -> TargetSpelling {
    TargetSpelling {
        lead: " "@,
        btree_name,
        gap: " "@,
        inode: numeral(position.inode as nat),
        offset: numeral(position.offset as nat),
        snapshot: snapshot_text(position.snapshot),
    }
}

/// The canonical spelling of a change.
pub open spec fn canonical_change(update: UpdateCommandView) -> ChangeSpelling {
    ChangeSpelling {
        lead: " "@,
        key_type_name: update.key_type_name,
        field_path: update.field_path,
        operator: update.operator,
        value: numeral(update.value as nat),
    }
}

/// The canonical spelling of a target is well formed and means the target.
proof fn lemma_canonical_target(btree_name: Seq<char>, position: BTreePosition)
    requires
        is_token(btree_name, CharClass::Letter),
    ensures
        canonical_target(btree_name, position).well_formed(),
        canonical_target(btree_name, position).position() == position,
{
    reveal_strlit(" ");
    reveal_strlit("U32_MAX");
    lemma_numeral(position.inode as nat);
    lemma_numeral(position.offset as nat);
    lemma_numeral(position.snapshot as nat);
    let third = snapshot_text(position.snapshot);
    if position.snapshot != u32::MAX {
        assert(third != snapshot_sentinel()) by {
            if third == snapshot_sentinel() {
                assert(is_digit(third[0]));
            }
        }
    }
}

/// The canonical spelling of a change is well formed and means the change.
proof fn lemma_canonical_change(update: UpdateCommandView)
    requires
        is_token(update.key_type_name, CharClass::Word),
        is_token(update.field_path, CharClass::Path),
    ensures
        canonical_change(update).well_formed(),
        decimal(canonical_change(update).value) == update.value,
{
    reveal_strlit(" ");
    lemma_numeral(update.value as nat);
}

/// The canonical text of a position parses to the position.
pub proof fn lemma_position_round_trip(position: BTreePosition)
    ensures
        position_at(position_text(position), 0) == Ok::<(BTreePosition, int), int>(
            (position, position_text(position).len() as int),
        ),
{
    let text = position_text(position);
    lemma_literal_whole(text);
    lemma_canonical_target(seq!['a'], position);
    lemma_position_spelled(
        text,
        0,
        numeral(position.inode as nat),
        numeral(position.offset as nat),
        snapshot_text(position.snapshot),
    );
}

/// The canonical text of a command whose names are tokens parses to the
/// command.
pub proof fn lemma_text_parses_back(command: CommandView)
    requires
        command.well_formed(),
    ensures
        command_of(command_text(command)) == Ok::<CommandView, ParseErrorView>(command),
{
    match command {
        CommandView::Dump(dump) => {
            let target = canonical_target(dump.btree_name, dump.position);
            lemma_canonical_target(dump.btree_name, dump.position);
            assert(dump_text(dump) == dump_spelled(target));
            lemma_dump_spelling_parses(target);
        },
        CommandView::Update(update) => {
            let target = canonical_target(update.btree_name, update.position);
            let change = canonical_change(update);
            lemma_canonical_target(update.btree_name, update.position);
            lemma_canonical_change(update);
            assert(update_text(update) == update_spelled(target, change));
            lemma_update_spelling_parses(target, change);
        },
    }
}

/// The names of a command that was parsed are tokens of the grammar.
pub proof fn lemma_parsed_is_well_formed(s: Seq<char>)
    ensures
        command_of(s) matches Ok(command) ==> command.well_formed(),
{
    match command_of(s) {
        Ok(CommandView::Dump(_)) => {
            lemma_dump_is_spelled(s);
        },
        Ok(CommandView::Update(_)) => {
            lemma_update_is_spelled(s);
        },
        Err(_) => {},
    }
}

/// Parsing the canonical text of a command that was parsed gives the same
/// command again.
pub proof fn lemma_reparse(s: Seq<char>)
    ensures
        command_of(s) matches Ok(command) ==> command_of(command_text(command)) == command_of(s),
{
    lemma_parsed_is_well_formed(s);
    if let Ok(command) = command_of(s) {
        lemma_text_parses_back(command);
    }
}

} // verus!
