//! Character classes, maximal runs and decimal numerals: the lexical layer
//! under the command grammar.
//!
//! Everything here works on a line as a sequence of characters. A token of
//! the grammar is always a maximal run of one character class, so a token is
//! fixed by where it starts.

use vstd::prelude::*;

verus! {

/// The classes of characters that the grammar's tokens are made of.
#[derive(Clone, Copy, Debug, PartialEq, Eq, Structural)]
pub enum CharClass {
    /// `0` to `9`.
    Digit,
    /// `a` to `z` and `A` to `Z`.
    Letter,
    /// A letter, a digit or `_`.
    Word,
    /// A word character or `.`.
    Path,
    /// A space or a tab.
    Blank,
}

/// A decimal digit.
pub open spec fn is_digit(c: char) -> bool {
    '0' <= c <= '9'
}

/// A letter of the basic Latin alphabet, small or capital.
pub open spec fn is_letter(c: char) -> bool {
    ('a' <= c <= 'z') || ('A' <= c <= 'Z')
}

/// A character of a key type name: a letter, a digit or `_`.
pub open spec fn is_word(c: char) -> bool {
    is_letter(c) || is_digit(c) || c == '_'
}

/// A character of a field path: a word character or `.`.
pub open spec fn is_path(c: char) -> bool {
    is_word(c) || c == '.'
}

/// A space or a tab. A line break is no blank.
pub open spec fn is_blank(c: char) -> bool {
    c == ' ' || c == '\t'
}

impl CharClass {
    /// Whether `c` belongs to the class.
    pub open spec fn contains(self, c: char) -> bool {
        match self {
            CharClass::Digit => is_digit(c),
            CharClass::Letter => is_letter(c),
            CharClass::Word => is_word(c),
            CharClass::Path => is_path(c),
            CharClass::Blank => is_blank(c),
        }
    }

    /// Decides membership of `c` in the class.
    pub fn has(self, c: char) -> (r: bool)
        ensures
            r == self.contains(c),
    {
        let digit = '0' <= c && c <= '9';
        let letter = ('a' <= c && c <= 'z') || ('A' <= c && c <= 'Z');
        match self {
            CharClass::Digit => digit,
            CharClass::Letter => letter,
            CharClass::Word => letter || digit || c == '_',
            CharClass::Path => letter || digit || c == '_' || c == '.',
            CharClass::Blank => c == ' ' || c == '\t',
        }
    }
}

/// Where the maximal run of `class` characters that starts at `start` ends:
/// the first index from `start` on that holds no character of the class, or
/// the length of `s`.
pub open spec fn run_end(s: Seq<char>, class: CharClass, start: int) -> int
    decreases s.len() - start,
{
    if 0 <= start < s.len() && class.contains(s[start]) {
        run_end(s, class, start + 1)
    } else {
        start
    }
}

/// Every character of `s` from `from` up to `to` belongs to `class`.
pub open spec fn all_in(s: Seq<char>, class: CharClass, from: int, to: int) -> bool {
    forall|i: int| from <= i < to ==> class.contains(#[trigger] s[i])
}

/// A run ends inside the line, covers class characters only, and stops at
/// the end of the line or in front of a character outside the class.
pub proof fn lemma_run_end(s: Seq<char>, class: CharClass, start: int)
    requires
        0 <= start <= s.len(),
    ensures
        start <= run_end(s, class, start) <= s.len(),
        all_in(s, class, start, run_end(s, class, start)),
        run_end(s, class, start) < s.len() ==> !class.contains(s[run_end(s, class, start)]),
    decreases s.len() - start,
{
    if start < s.len() && class.contains(s[start]) {
        lemma_run_end(s, class, start + 1);
    }
}

/// The end of a run is the only index of which [`lemma_run_end`] holds:
/// an index with class characters up to it and none at it is the end.
pub proof fn lemma_run_end_is(s: Seq<char>, class: CharClass, start: int, end: int)
    requires
        0 <= start <= end <= s.len(),
        all_in(s, class, start, end),
        end < s.len() ==> !class.contains(s[end]),
    ensures
        run_end(s, class, start) == end,
    decreases end - start,
{
    if start < end {
        assert(class.contains(s[start]));
        lemma_run_end_is(s, class, start + 1, end);
    }
}

/// Finds the end of the run of `class` characters that starts at `start`.
pub fn scan(chars: &[char], class: CharClass, start: usize) -> (end: usize)
    ensures
        end == run_end(chars@, class, start as int),
        start <= end,
        start <= chars@.len() ==> end <= chars@.len(),
{
    let mut end: usize = start;
    while end < chars.len() && class.has(chars[end])
        invariant
            start <= end,
            start <= chars@.len() ==> end <= chars@.len(),
            run_end(chars@, class, start as int) == run_end(chars@, class, end as int),
        decreases chars@.len() - end,
    {
        end = end + 1;
    }
    end
}

/// The value of the digit `c`.
pub open spec fn digit_value(c: char) -> nat {
    (c as nat - '0' as nat) as nat
}

/// The number that a sequence of digits denotes in base ten. Leading zeros
/// do not count, and the empty sequence denotes zero.
pub open spec fn decimal(digits: Seq<char>) -> nat
    decreases digits.len(),
{
    if digits.len() == 0 {
        0
    } else {
        decimal(digits.drop_last()) * 10 + digit_value(digits.last())
    }
}

/// The numeral at `start`: the maximal run of digits there, if it is not
/// empty and denotes a number up to `max`, as that number and the index
/// behind the run.
pub open spec fn number_at(s: Seq<char>, start: int, max: nat) -> Option<(nat, int)> {
    let end = run_end(s, CharClass::Digit, start);
    let value = decimal(s.subrange(start, end));
    if start < end && value <= max {
        Some((value, end))
    } else {
        None
    }
}

/// Whether `t` is a numeral for a number up to `max`: digits, at least one.
pub open spec fn is_numeral(t: Seq<char>, max: nat) -> bool {
    &&& t.len() > 0
    &&& all_in(t, CharClass::Digit, 0, t.len() as int)
    &&& decimal(t) <= max
}

/// Whether `t` can be a token of `class`: characters of the class, at
/// least one.
pub open spec fn is_token(t: Seq<char>, class: CharClass) -> bool {
    t.len() > 0 && all_in(t, class, 0, t.len() as int)
}

/// A numeral that is found is not empty and ends inside the line.
pub proof fn lemma_number_at(s: Seq<char>, start: int, max: nat)
    requires
        0 <= start <= s.len(),
    ensures
        number_at(s, start, max) matches Some((value, end)) ==> start < end <= s.len() && value
            <= max,
{
    lemma_run_end(s, CharClass::Digit, start);
}

/// A numeral with more digits denotes no smaller number.
pub proof fn lemma_decimal_grows(s: Seq<char>, start: int, mid: int, end: int)
    requires
        0 <= start <= mid <= end <= s.len(),
    ensures
        decimal(s.subrange(start, mid)) <= decimal(s.subrange(start, end)),
    decreases end - mid,
{
    if mid < end {
        lemma_decimal_grows(s, start, mid, end - 1);
        assert(s.subrange(start, end).drop_last() == s.subrange(start, end - 1));
    }
}

/// Reads the numeral at `start`. It fails where no digit stands there and
/// where the numeral denotes more than `max`.
pub fn scan_number(chars: &[char], start: usize, max: u64) -> (r: Option<(u64, usize)>)
    ensures
        r is Some <==> number_at(chars@, start as int, max as nat) is Some,
        r matches Some((value, end)) ==> number_at(chars@, start as int, max as nat) == Some(
            (value as nat, end as int),
        ),
{
    let end: usize = scan(chars, CharClass::Digit, start);
    if end == start {
        return None;
    }
    proof {
        lemma_run_end(chars@, CharClass::Digit, start as int);
    }
    let mut value: u64 = 0;
    let mut i: usize = start;
    while i < end
        invariant
            start <= i <= end <= chars@.len(),
            end == run_end(chars@, CharClass::Digit, start as int),
            all_in(chars@, CharClass::Digit, start as int, end as int),
            value == decimal(chars@.subrange(start as int, i as int)),
            value <= max,
        decreases end - i,
    {
        let c: char = chars[i];
        assert(is_digit(c));
        let d: u64 = ((c as u32) - ('0' as u32)) as u64;
        proof {
            assert(chars@.subrange(start as int, i + 1).drop_last() == chars@.subrange(
                start as int,
                i as int,
            ));
            assert(decimal(chars@.subrange(start as int, i + 1)) == value * 10 + d);
            lemma_decimal_grows(chars@, start as int, i + 1, end as int);
        }
        if value > max / 10 || (value == max / 10 && d > max % 10) {
            return None;
        }
        value = value * 10 + d;
        i = i + 1;
    }
    Some((value, end))
}

/// The digit that stands for `d`, a number below ten.
pub open spec fn digit_char(d: nat) -> char {
    (d + '0' as nat) as char
}

/// The numeral of `n`: its digits in base ten, without leading zeros.
pub open spec fn numeral(n: nat) -> Seq<char>
    decreases n,
{
    if n < 10 {
        seq![digit_char(n)]
    } else {
        numeral(n / 10).push(digit_char(n % 10))
    }
}

/// A numeral is made of digits, and denotes the number it was made for.
pub proof fn lemma_numeral(n: nat)
    ensures
        numeral(n).len() > 0,
        all_in(numeral(n), CharClass::Digit, 0, numeral(n).len() as int),
        decimal(numeral(n)) == n,
    decreases n,
{
    if n < 10 {
        let one = seq![digit_char(n)];
        assert(one.drop_last() == Seq::<char>::empty());
        assert(decimal(one.drop_last()) == 0);
        assert(one.last() == digit_char(n));
    } else {
        lemma_numeral(n / 10);
        let all = numeral(n);
        assert(all.drop_last() == numeral(n / 10));
        assert(all.last() == digit_char(n % 10));
    }
}

/// The digit for `d` as a text.
fn digit_text(d: u64) -> (text: &'static str)
    requires
        d < 10,
    ensures
        text@ == seq![digit_char(d as nat)],
{
    proof {
        reveal_strlit("0");
        reveal_strlit("1");
        reveal_strlit("2");
        reveal_strlit("3");
        reveal_strlit("4");
        reveal_strlit("5");
        reveal_strlit("6");
        reveal_strlit("7");
        reveal_strlit("8");
        reveal_strlit("9");
    }
    let text = if d == 0 {
        "0"
    } else if d == 1 {
        "1"
    } else if d == 2 {
        "2"
    } else if d == 3 {
        "3"
    } else if d == 4 {
        "4"
    } else if d == 5 {
        "5"
    } else if d == 6 {
        "6"
    } else if d == 7 {
        "7"
    } else if d == 8 {
        "8"
    } else {
        "9"
    };
    assert(text@ =~= seq![digit_char(d as nat)]);
    text
}

/// Writes `n` as a numeral.
pub fn render_number(n: u64) -> (text: String)
    ensures
        text@ == numeral(n as nat),
    decreases n,
{
    if n < 10 {
        String::from_str(digit_text(n))
    } else {
        let mut text = render_number(n / 10);
        text.append(digit_text(n % 10));
        assert(text@ =~= numeral(n as nat));
        text
    }
}

/// Whether the characters of `literal` stand in `s` from `at` on.
pub open spec fn literal_at(s: Seq<char>, at: int, literal: Seq<char>) -> bool {
    &&& 0 <= at
    &&& at + literal.len() <= s.len()
    &&& s.subrange(at, at + literal.len()) == literal
}

/// A text stands in itself.
pub proof fn lemma_literal_whole(s: Seq<char>)
    ensures
        literal_at(s, 0, s),
{
    assert(s.subrange(0, s.len() as int) =~= s);
}

/// A text that stands in a line stands there part by part.
pub proof fn lemma_literal_split(s: Seq<char>, at: int, a: Seq<char>, b: Seq<char>)
    requires
        literal_at(s, at, a + b),
    ensures
        literal_at(s, at, a),
        literal_at(s, at + a.len(), b),
{
    let whole = s.subrange(at, at + (a + b).len());
    assert forall|k: int| 0 <= k < a.len() implies s.subrange(at, at + a.len())[k] == a[k] by {
        assert(whole[k] == (a + b)[k]);
    }
    assert(s.subrange(at, at + a.len()) =~= a);
    assert forall|k: int| 0 <= k < b.len() implies s.subrange(
        at + a.len(),
        at + a.len() + b.len(),
    )[k] == b[k] by {
        assert(whole[a.len() + k] == (a + b)[a.len() + k]);
    }
    assert(s.subrange(at + a.len(), at + a.len() + b.len()) =~= b);
}

/// The characters of a text that stands in a line are the line's.
pub proof fn lemma_literal_chars(s: Seq<char>, at: int, t: Seq<char>)
    requires
        literal_at(s, at, t),
    ensures
        forall|k: int| 0 <= k < t.len() ==> s[at + k] == #[trigger] t[k],
{
    assert forall|k: int| 0 <= k < t.len() implies s[at + k] == #[trigger] t[k] by {
        assert(s.subrange(at, at + t.len())[k] == t[k]);
    }
}

/// The first character of a text that stands in a line.
pub proof fn lemma_literal_first(s: Seq<char>, at: int, t: Seq<char>)
    requires
        literal_at(s, at, t),
        t.len() > 0,
    ensures
        0 <= at < s.len(),
        s[at] == t[0],
{
    lemma_literal_chars(s, at, t);
    assert(s[at + 0] == t[0]);
}

/// A numeral that stands in a line, with no digit behind it, is the number
/// that is read there.
pub proof fn lemma_number_spelled(s: Seq<char>, at: int, t: Seq<char>, max: nat)
    requires
        literal_at(s, at, t),
        is_numeral(t, max),
        at + t.len() < s.len() ==> !is_digit(s[at + t.len()]),
    ensures
        number_at(s, at, max) == Some((decimal(t), at + t.len())),
{
    lemma_literal_chars(s, at, t);
    assert forall|i: int| at <= i < at + t.len() implies is_digit(#[trigger] s[i]) by {
        assert(s[at + (i - at)] == t[i - at]);
    }
    lemma_run_end_is(s, CharClass::Digit, at, at + t.len());
}

/// The digits of a number that was read are a numeral for it.
pub proof fn lemma_number_text(s: Seq<char>, start: int, max: nat)
    requires
        0 <= start <= s.len(),
    ensures
        number_at(s, start, max) matches Some((value, end)) ==> start < end <= s.len()
            && is_numeral(s.subrange(start, end), max) && decimal(s.subrange(start, end))
            == value,
{
    lemma_run_end(s, CharClass::Digit, start);
    let end = run_end(s, CharClass::Digit, start);
    assert forall|k: int| 0 <= k < end - start implies is_digit(
        #[trigger] s.subrange(start, end)[k],
    ) by {
        assert(is_digit(s[start + k]));
    }
}

/// Tests whether `literal` stands in `chars` from `at` on.
pub fn match_literal(chars: &[char], at: usize, literal: &str) -> (r: bool)
    ensures
        r == literal_at(chars@, at as int, literal@),
{
    let n: usize = literal.unicode_len();
    if at > chars.len() || n > chars.len() - at {
        return false;
    }
    let mut i: usize = 0;
    while i < n
        invariant
            i <= n,
            n == literal@.len(),
            at + n <= chars.len(),
            chars@.subrange(at as int, at + i) == literal@.subrange(0, i as int),
        decreases n - i,
    {
        if chars[at + i] != literal.get_char(i) {
            assert(chars@.subrange(at as int, at + n)[i as int] != literal@[i as int]);
            return false;
        }
        assert(chars@.subrange(at as int, at + i + 1) == chars@.subrange(at as int, at + i).push(
            chars@[at + i],
        ));
        assert(literal@.subrange(0, i + 1) == literal@.subrange(0, i as int).push(
            literal@[i as int],
        ));
        i = i + 1;
    }
    assert(literal@.subrange(0, n as int) == literal@);
    true
}

/// The characters of a line, in order.
pub fn to_chars(input: &str) -> (chars: Vec<char>)
    ensures
        chars@ == input@,
{
    let mut chars: Vec<char> = Vec::new();
    for c in it: input.chars()
        invariant
            chars@ == it.seq().take(it.index() as int),
    {
        chars.push(c);
    }
    chars
}

} // verus!
