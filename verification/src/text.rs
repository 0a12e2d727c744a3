//! Texts as sequences of characters, for the parsers and the generator.

use vstd::prelude::*;
use vstd::string::*;

verus! {

/// The characters of a text.
pub fn chars_of(s: &str) -> (v: Vec<char>)
    ensures
        v@ == s@,
{
    let mut v: Vec<char> = Vec::new();
    for c in it: s.chars()
        invariant
            it.seq() == s@,
            v@ == it.seq().take(it.index() as int),
    {
        v.push(c);
    }
    v
}

/// `String::push`: appends one character.
#[verifier::external_body]
pub(crate) fn push_char(s: &mut String, c: char)
    ensures
        final(s)@ == old(s)@.push(c),
{
    s.push(c)
}

/// The characters from `from` up to `to`; none where that is no stretch
/// of the text.
pub open spec fn stretch(s: Seq<char>, from: int, to: int) -> Seq<char> {
    if 0 <= from <= to <= s.len() {
        s.subrange(from, to)
    } else {
        Seq::empty()
    }
}

/// The text of the characters from `from` up to `to`; the empty text
/// where that is no stretch of the text.
pub fn string_of(chars: &[char], from: usize, to: usize) -> (s: String)
    ensures
        s@ == stretch(chars@, from as int, to as int),
{
    if from > to || to > chars.len() {
        return String::new();
    }
    let mut s = String::new();
    let mut i: usize = from;
    while i < to
        invariant
            from <= i <= to,
            to <= chars@.len(),
            s@ == chars@.subrange(from as int, i as int),
        decreases to - i,
    {
        push_char(&mut s, chars[i]);
        assert(chars@.subrange(from as int, i as int).push(chars@[i as int]) =~= chars@.subrange(
            from as int,
            i + 1,
        ));
        i = i + 1;
    }
    assert(chars@.subrange(from as int, from as int) =~= Seq::<char>::empty());
    s
}

/// `word` stands at position `pos` of `s`.
pub open spec fn has_at(s: Seq<char>, pos: int, word: Seq<char>) -> bool {
    0 <= pos && pos + word.len() <= s.len() && s.subrange(pos, pos + word.len()) == word
}

/// Whether `word` stands at position `pos`.
pub fn starts_with_at(chars: &[char], pos: usize, word: &str) -> (r: bool)
    ensures
        r == has_at(chars@, pos as int, word@),
{
    let w = chars_of(word);
    let n = chars.len();
    if pos > n || w.len() > n - pos {
        return false;
    }
    let mut i: usize = 0;
    while i < w.len()
        invariant
            i <= w.len(),
            w@ == word@,
            n == chars@.len(),
            pos + w.len() <= n,
            forall|j: int| 0 <= j < i ==> chars@[pos + j] == w@[j],
        decreases w.len() - i,
    {
        if chars[pos + i] != w[i] {
            assert(chars@.subrange(pos as int, pos + w.len())[i as int] != w@[i as int]);
            return false;
        }
        i = i + 1;
    }
    assert(chars@.subrange(pos as int, pos + w.len()) =~= w@);
    true
}

/// The position behind `word` where it stands at `pos`.
pub fn tag_at(chars: &[char], pos: usize, word: &str) -> (r: Option<usize>)
    ensures
        has_at(chars@, pos as int, word@) ==> (r matches Some(end) && end == pos + word@.len()
            && end <= chars@.len()),
        !has_at(chars@, pos as int, word@) ==> r is None,
{
    let total = chars.len();
    if starts_with_at(chars, pos, word) {
        let n = word.unicode_len();
        assert(pos + n <= total);
        Some(pos + n)
    } else {
        None
    }
}

/// Whether the characters from `from` up to `to` are a stretch of the
/// text that spells `word`.
pub fn spells(chars: &[char], from: usize, to: usize, word: &str) -> (r: bool)
    ensures
        r == (from <= to <= chars@.len() && chars@.subrange(from as int, to as int) == word@),
{
    if from > to || to > chars.len() {
        return false;
    }
    let w = chars_of(word);
    if w.len() != to - from {
        return false;
    }
    starts_with_at(chars, from, word)
}

/// A blank: space, tab, line feed or carriage return.
pub open spec fn is_blank(c: char) -> bool {
    c == ' ' || c == '\t' || c == '\n' || c == '\r'
}

/// Whether the character is a blank.
pub fn blank(c: char) -> (r: bool)
    ensures
        r == is_blank(c),
{
    c == ' ' || c == '\t' || c == '\n' || c == '\r'
}

/// The first position at or after `pos` that holds no blank.
pub open spec fn after_blanks(s: Seq<char>, pos: int) -> int
    decreases s.len() - pos,
{
    if 0 <= pos < s.len() && is_blank(s[pos]) {
        after_blanks(s, pos + 1)
    } else {
        pos
    }
}

/// Blanks end within the text, at or behind where they start.
pub proof fn lemma_after_blanks_range(s: Seq<char>, pos: int)
    requires
        0 <= pos <= s.len(),
    ensures
        pos <= after_blanks(s, pos) <= s.len(),
    decreases s.len() - pos,
{
    if pos < s.len() && is_blank(s[pos]) {
        lemma_after_blanks_range(s, pos + 1);
    }
}

/// The first position at or after `pos` that holds no blank.
pub fn skip_blanks(chars: &[char], pos: usize) -> (r: usize)
    ensures
        r == after_blanks(chars@, pos as int),
        pos <= r,
        r <= chars@.len() || r == pos,
{
    let mut i: usize = pos;
    while i < chars.len() && blank(chars[i])
        invariant
            pos <= i,
            i <= chars@.len() || i == pos,
            after_blanks(chars@, pos as int) == after_blanks(chars@, i as int),
        decreases chars@.len() - i,
    {
        i = i + 1;
    }
    i
}


/// The first position at or after `from` that holds `c`, if any.
pub open spec fn index_of(s: Seq<char>, c: char, from: int) -> Option<int>
    decreases s.len() - from,
{
    if from < 0 || from >= s.len() {
        None
    } else if s[from] == c {
        Some(from)
    } else {
        index_of(s, c, from + 1)
    }
}

/// The first position at or after `from` that holds `c`, if any.
pub fn find_char(chars: &[char], c: char, from: usize) -> (r: Option<usize>)
    ensures
        match index_of(chars@, c, from as int) {
            Some(i) => r matches Some(found) && found == i && from <= i < chars@.len()
                && chars@[i] == c,
            None => r is None,
        },
{
    let mut i: usize = from;
    while i < chars.len()
        invariant
            from <= i,
            index_of(chars@, c, from as int) == index_of(chars@, c, i as int),
        decreases chars@.len() - i,
    {
        if chars[i] == c {
            return Some(i);
        }
        i = i + 1;
    }
    None
}

/// The first position at or after `from` at which `a` stands and `b`
/// follows it, if any.
pub open spec fn index_of_pair(s: Seq<char>, a: char, b: char, from: int) -> Option<int>
    decreases s.len() - from,
{
    if from < 0 || from + 1 >= s.len() {
        None
    } else if s[from] == a && s[from + 1] == b {
        Some(from)
    } else {
        index_of_pair(s, a, b, from + 1)
    }
}

/// The first position at or after `from` at which `a` stands and `b`
/// follows it, if any.
pub fn find_pair(chars: &[char], a: char, b: char, from: usize) -> (r: Option<usize>)
    ensures
        match index_of_pair(chars@, a, b, from as int) {
            Some(i) => r matches Some(found) && found == i && from <= i && i + 1 < chars@.len(),
            None => r is None,
        },
{
    let mut i: usize = from;
    let n = chars.len();
    while i < n && i + 1 < n
        invariant
            from <= i,
            n == chars@.len(),
            index_of_pair(chars@, a, b, from as int) == index_of_pair(chars@, a, b, i as int),
        decreases chars@.len() - i,
    {
        if chars[i] == a && chars[i + 1] == b {
            return Some(i);
        }
        i = i + 1;
    }
    None
}

/// The first position at or after `from` that holds a line feed, or the
/// end of the text.
pub open spec fn line_end(s: Seq<char>, from: int) -> int {
    match index_of(s, '\n', from) {
        Some(i) => i,
        None => if from <= s.len() {
            s.len() as int
        } else {
            from
        },
    }
}

/// The first position at or after `from` that holds a line feed, or the
/// end of the text.
pub fn find_line_end(chars: &[char], from: usize) -> (r: usize)
    ensures
        r == line_end(chars@, from as int),
        from <= r,
        r <= chars@.len() || r == from,
{
    match find_char(chars, '\n', from) {
        Some(i) => i,
        None => if from <= chars.len() {
            chars.len()
        } else {
            from
        },
    }
}

/// An ASCII letter.
pub open spec fn is_letter(c: char) -> bool {
    ('a' <= c && c <= 'z') || ('A' <= c && c <= 'Z')
}

/// An ASCII digit.
pub open spec fn is_digit(c: char) -> bool {
    '0' <= c && c <= '9'
}

/// Whether the character is an ASCII letter.
pub fn letter(c: char) -> (r: bool)
    ensures
        r == is_letter(c),
{
    ('a' <= c && c <= 'z') || ('A' <= c && c <= 'Z')
}

/// Whether the character is an ASCII digit.
pub fn digit(c: char) -> (r: bool)
    ensures
        r == is_digit(c),
{
    '0' <= c && c <= '9'
}

/// The character of a decimal digit.
pub open spec fn digit_char(d: int) -> char {
    if d == 0 {
        '0'
    } else if d == 1 {
        '1'
    } else if d == 2 {
        '2'
    } else if d == 3 {
        '3'
    } else if d == 4 {
        '4'
    } else if d == 5 {
        '5'
    } else if d == 6 {
        '6'
    } else if d == 7 {
        '7'
    } else if d == 8 {
        '8'
    } else {
        '9'
    }
}

/// The decimal digits of a natural number, the most significant first,
/// without leading zeros.
pub open spec fn digits_text(n: nat) -> Seq<char>
    decreases n,
{
    if n < 10 {
        Seq::<char>::empty().push(digit_char(n as int))
    } else {
        digits_text(n / 10).push(digit_char((n % 10) as int))
    }
}

/// The decimal text of a number: a minus sign where it is negative, then
/// its digits.
pub open spec fn decimal_text(n: int) -> Seq<char> {
    if n < 0 {
        "-"@ + digits_text((-n) as nat)
    } else {
        digits_text(n as nat)
    }
}

/// Appends the decimal digits of `n` to `s`.
pub fn push_digits(s: &mut String, n: u64)
    ensures
        final(s)@ == old(s)@ + digits_text(n as nat),
    decreases n,
{
    let d: u64 = n % 10;
    if n >= 10 {
        push_digits(s, n / 10);
    }
    let c = if d == 0 {
        '0'
    } else if d == 1 {
        '1'
    } else if d == 2 {
        '2'
    } else if d == 3 {
        '3'
    } else if d == 4 {
        '4'
    } else if d == 5 {
        '5'
    } else if d == 6 {
        '6'
    } else if d == 7 {
        '7'
    } else if d == 8 {
        '8'
    } else {
        '9'
    };
    push_char(s, c);
    proof {
        if n >= 10 {
            assert(old(s)@ + digits_text(n as nat) =~= (old(s)@ + digits_text((n / 10) as nat)).push(
                digit_char(d as int),
            ));
        } else {
            assert(old(s)@ + digits_text(n as nat) =~= old(s)@.push(digit_char(d as int)));
        }
    }
}

/// The decimal text of an unsigned number.
pub fn unsigned_decimal(n: u64) -> (r: String)
    ensures
        r@ == decimal_text(n as int),
{
    let mut s = String::from_str("");
    proof {
        reveal_strlit("");
    }
    push_digits(&mut s, n);
    proof {
        assert(s@ =~= digits_text(n as nat));
    }
    s
}

/// The decimal text of a signed number.
pub fn decimal(n: i64) -> (r: String)
    ensures
        r@ == decimal_text(n as int),
{
    if n < 0 {
        let mut s = String::from_str("-");
        // -(n + 1) + 1 avoids negating the least number
        let magnitude: u64 = ((-(n + 1)) as u64) + 1;
        push_digits(&mut s, magnitude);
        s
    } else {
        unsigned_decimal(n as u64)
    }
}

} // verus!
