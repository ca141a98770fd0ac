//! Text as sequences of characters.
//!
//! The parsers and formatters of this crate work on characters rather than on
//! encoded bytes: contracts then speak of what a reader of the text sees.

use vstd::prelude::*;
use vstd::slice::slice_subrange;

verus! {

/// `String::push` of the standard library: the character is appended and the
/// rest of the string is kept.
pub assume_specification[ String::push ](s: &mut String, c: char)
    ensures
        final(s)@ == old(s)@.push(c),
;

/// The characters of a string slice.
pub fn chars_of(s: &str) -> (v: Vec<char>)
    ensures
        v@ == s@,
{
    broadcast use vstd::string::axiom_spec_iter;

    let mut v: Vec<char> = Vec::new();
    for c in it: s.chars()
        invariant
            v@ == it.seq().take(it.index() as int),
            it.seq() == s@,
    {
        v.push(c);
    }
    v
}

/// A string with the given characters.
pub fn string_of(v: &[char]) -> (s: String)
    ensures
        s@ == v@,
{
    let mut s = String::new();
    push_chars(&mut s, v);
    s
}

/// Append characters to a string.
pub fn push_chars(s: &mut String, v: &[char])
    ensures
        final(s)@ == old(s)@ + v@,
{
    let mut i: usize = 0;
    while i < v.len()
        invariant
            i <= v@.len(),
            s@ == old(s)@ + v@.take(i as int),
        decreases v@.len() - i,
    {
        s.push(v[i]);
        i = i + 1;
        assert(v@.take(i as int) =~= v@.take(i - 1).push(v@[i - 1]));
    }
    assert(v@.take(i as int) =~= v@);
}

/// Append a string slice to a string.
pub fn push_str(s: &mut String, t: &str)
    ensures
        final(s)@ == old(s)@ + t@,
{
    let v = chars_of(t);
    push_chars(s, v.as_slice());
}

/// Whether the characters spell `w`.
pub fn is_word(v: &[char], w: &str) -> (r: bool)
    ensures
        r == (v@ == w@),
{
    let u = chars_of(w);
    same_chars(v, u.as_slice())
}

/// Whether two runs of characters are the same.
pub fn same_chars(a: &[char], b: &[char]) -> (r: bool)
    ensures
        r == (a@ == b@),
{
    if a.len() != b.len() {
        return false;
    }
    let mut i: usize = 0;
    while i < a.len()
        invariant
            i <= a@.len(),
            a@.len() == b@.len(),
            forall|k: int| 0 <= k < i ==> a@[k] == b@[k],
        decreases a@.len() - i,
    {
        if a[i] != b[i] {
            return false;
        }
        i = i + 1;
    }
    assert(a@ =~= b@);
    true
}

/// Whether two strings are the same.
pub fn same_text(a: &str, b: &str) -> (r: bool)
    ensures
        r == (a@ == b@),
{
    let v = chars_of(a);
    is_word(v.as_slice(), b)
}

/// A decimal digit.
pub open spec fn is_digit(c: char) -> bool {
    '0' <= c <= '9'
}

/// Whether a character is a decimal digit.
pub fn digit(c: char) -> (r: bool)
    ensures
        r == is_digit(c),
{
    c >= '0' && c <= '9'
}

/// The value of a decimal digit.
pub open spec fn digit_value(c: char) -> int {
    c as int - '0' as int
}

/// The digit of a value below ten.
pub open spec fn digit_char(d: int) -> char {
    (d + '0' as int) as char
}

/// The decimal digits of a number, without leading zeros.
pub open spec fn dec(n: nat) -> Seq<char>
    decreases n,
{
    if n < 10 {
        seq![digit_char(n as int)]
    } else {
        dec(n / 10).push(digit_char((n % 10) as int))
    }
}

/// The decimal digits of a number, filled up with zeros on the left to at
/// least `width` digits.
pub open spec fn dec_padded(n: nat, width: nat) -> Seq<char> {
    if dec(n).len() >= width {
        dec(n)
    } else {
        Seq::new((width - dec(n).len()) as nat, |i: int| '0') + dec(n)
    }
}

/// The value that a run of decimal digits spells.
pub open spec fn digits_value(s: Seq<char>) -> nat
    decreases s.len(),
{
    if s.len() == 0 {
        0
    } else {
        (digits_value(s.drop_last()) * 10 + digit_value(s.last())) as nat
    }
}

/// A run of decimal digits that is not empty.
pub open spec fn is_number(s: Seq<char>) -> bool {
    s.len() > 0 && forall|i: int| 0 <= i < s.len() ==> is_digit(#[trigger] s[i])
}

/// What a run of characters reads as an unsigned number: digits, after at
/// most one plus sign.
pub open spec fn unsigned(s: Seq<char>) -> Option<nat> {
    let body = if s.len() > 0 && s[0] == '+' {
        s.skip(1)
    } else {
        s
    };
    if is_number(body) {
        Some(digits_value(body))
    } else {
        None
    }
}

/// What a run of characters reads as a signed number: digits, after at most
/// one sign.
pub open spec fn signed(s: Seq<char>) -> Option<int> {
    if s.len() > 0 && s[0] == '-' {
        if is_number(s.skip(1)) {
            Some(-(digits_value(s.skip(1)) as int))
        } else {
            None
        }
    } else {
        match unsigned(s) {
            Some(n) => Some(n as int),
            None => None,
        }
    }
}

/// A number of digits alone: no sign, and at least one digit.
pub open spec fn plain_number(s: Seq<char>) -> Option<nat> {
    if is_number(s) {
        Some(digits_value(s))
    } else {
        None
    }
}

/// An unsigned number that a type with the given maximum can hold.
pub open spec fn unsigned_to(s: Seq<char>, max: int) -> Option<nat> {
    match unsigned(s) {
        Some(n) => if n <= max {
            Some(n)
        } else {
            None
        },
        None => None,
    }
}

proof fn lemma_digits_value_step(s: Seq<char>, i: int)
    requires
        0 <= i < s.len(),
        is_digit(s[i]),
    ensures
        digits_value(s.take(i + 1)) == digits_value(s.take(i)) * 10 + digit_value(s[i]),
{
    assert(s.take(i + 1).drop_last() =~= s.take(i));
}

/// The digits from `from` on, as a number up to `max`.
fn digits_from(s: &[char], from: usize, max: u64) -> (r: Option<u64>)
    requires
        from <= s@.len(),
        max <= 0xffff_ffff_ffff,
    ensures
        r == (if is_number(s@.skip(from as int)) && digits_value(s@.skip(from as int)) <= max {
            Some(digits_value(s@.skip(from as int)) as u64)
        } else {
            None
        }),
{
    let ghost t = s@.skip(from as int);
    if s.len() == from {
        return None;
    }
    let mut n: u64 = 0;
    let mut i: usize = from;
    assert(t.take(0) =~= Seq::<char>::empty());
    let mut over: bool = false;
    while i < s.len()
        invariant
            from <= i <= s@.len(),
            t == s@.skip(from as int),
            max <= 0xffff_ffff_ffff,
            forall|k: int| 0 <= k < i - from ==> is_digit(#[trigger] t[k]),
            over ==> digits_value(t.take(i - from)) > max,
            !over ==> n == digits_value(t.take(i - from)) && n <= max,
        decreases s@.len() - i,
    {
        let c: char = s[i];
        assert(t[i - from] == c);
        if !(c >= '0' && c <= '9') {
            return None;
        }
        proof {
            lemma_digits_value_step(t, i - from);
        }
        if !over {
            n = n * 10 + (c as u32 - '0' as u32) as u64;
            if n > max {
                over = true;
            }
        }
        i = i + 1;
    }
    assert(t.take(i - from) =~= t);
    if over {
        None
    } else {
        Some(n)
    }
}

/// Digits stand for less than the power of ten of their count.
pub proof fn lemma_digits_value_bound(s: Seq<char>)
    requires
        forall|k: int| 0 <= k < s.len() ==> is_digit(#[trigger] s[k]),
    ensures
        s.len() <= 2 ==> digits_value(s) < 100,
        s.len() <= 3 ==> digits_value(s) < 1000,
        s.len() <= 4 ==> digits_value(s) < 10_000,
{
    reveal_with_fuel(digits_value, 5);
    if s.len() >= 1 {
        assert(is_digit(s.last()));
    }
    if s.len() >= 2 {
        assert(is_digit(s[s.len() - 2]));
        assert(s.drop_last().last() == s[s.len() - 2]);
    }
    if s.len() >= 3 {
        assert(is_digit(s[s.len() - 3]));
        assert(s.drop_last().drop_last().last() == s[s.len() - 3]);
    }
    if s.len() >= 4 {
        assert(is_digit(s[s.len() - 4]));
        assert(s.drop_last().drop_last().drop_last().last() == s[s.len() - 4]);
    }
}

/// Read a few digits as a number.
pub fn parse_plain(s: &[char]) -> (r: Option<u32>)
    requires
        s@.len() <= 4,
    ensures
        r == (match plain_number(s@) {
            Some(n) => Some(n as u32),
            None => None,
        }),
        plain_number(s@) matches Some(n) ==> n < 10_000 && (s@.len() <= 3 ==> n < 1000) && (s@.len()
            <= 2 ==> n < 100),
{
    assert(s@.skip(0) =~= s@);
    proof {
        if is_number(s@) {
            lemma_digits_value_bound(s@);
        }
    }
    match digits_from(s, 0, 9_999) {
        Some(n) => Some(n as u32),
        None => None,
    }
}

/// Read an unsigned number of at most `max`.
pub fn parse_unsigned(s: &[char], max: u64) -> (r: Option<u64>)
    requires
        max <= 0xffff_ffff_ffff,
    ensures
        r == (match unsigned_to(s@, max as int) {
            Some(n) => Some(n as u64),
            None => None,
        }),
{
    assert(s@.skip(0) =~= s@);
    let from: usize = if s.len() > 0 && s[0] == '+' {
        1
    } else {
        0
    };
    digits_from(s, from, max)
}

/// Read a signed number that an `i32` holds.
pub fn parse_i32(s: &[char]) -> (r: Option<i32>)
    ensures
        r == (match signed(s@) {
            Some(n) => if i32::MIN <= n <= i32::MAX {
                Some(n as i32)
            } else {
                None
            },
            None => None,
        }),
{
    if s.len() > 0 && s[0] == '-' {
        match digits_from(s, 1, 0x8000_0000) {
            Some(n) => Some((-(n as i64)) as i32),
            None => None,
        }
    } else {
        match parse_unsigned(s, 0x7fff_ffff) {
            Some(n) => Some(n as i32),
            None => None,
        }
    }
}

/// The decimal digits of a number.
pub fn dec_chars(n: u64) -> (v: Vec<char>)
    ensures
        v@ == dec(n as nat),
    decreases n,
{
    let d: u8 = (n % 10) as u8 + 48;
    let c: char = d as char;
    if n < 10 {
        let mut v: Vec<char> = Vec::new();
        v.push(c);
        assert(v@ =~= dec(n as nat));
        v
    } else {
        let mut v = dec_chars(n / 10);
        v.push(c);
        v
    }
}

/// Append the decimal digits of a number.
pub fn push_dec(s: &mut String, n: u64)
    ensures
        final(s)@ == old(s)@ + dec(n as nat),
{
    let v = dec_chars(n);
    push_chars(s, v.as_slice());
}

/// Append the decimal digits of a number, padded with zeros.
pub fn push_dec_padded(s: &mut String, n: u64, width: usize)
    ensures
        final(s)@ == old(s)@ + dec_padded(n as nat, width as nat),
{
    let v = dec_chars(n);
    let mut i: usize = v.len();
    let ghost before = s@;
    let ghost zeros = |k: nat| Seq::new(k, |j: int| '0');
    assert(before =~= before + zeros(0));
    while i < width
        invariant
            v@ == dec(n as nat),
            i >= v@.len(),
            zeros == (|k: nat| Seq::new(k, |j: int| '0')),
            i <= width || i == v@.len(),
            s@ == before + zeros((i - v@.len()) as nat),
        decreases width - i,
    {
        s.push('0');
        i = i + 1;
        assert(s@ =~= before + zeros((i - v@.len()) as nat));
    }
    push_chars(s, v.as_slice());
    assert(s@ =~= before + dec_padded(n as nat, width as nat));
}

/// Append `true` or `false`.
pub fn push_bool(s: &mut String, b: bool)
    ensures
        final(s)@ == old(s)@ + bool_text(b)@,
{
    push_str(s, if b { "true" } else { "false" });
}

pub open spec fn bool_text(b: bool) -> &'static str {
    if b {
        "true"
    } else {
        "false"
    }
}

/// White space, as Unicode has it.
pub open spec fn is_space(c: char) -> bool {
    ||| 0x09 <= c as u32 <= 0x0d
    ||| c as u32 == 0x20
    ||| c as u32 == 0x85
    ||| c as u32 == 0xa0
    ||| c as u32 == 0x1680
    ||| 0x2000 <= c as u32 <= 0x200a
    ||| c as u32 == 0x2028
    ||| c as u32 == 0x2029
    ||| c as u32 == 0x202f
    ||| c as u32 == 0x205f
    ||| c as u32 == 0x3000
}

pub fn space(c: char) -> (r: bool)
    ensures
        r == is_space(c),
{
    let u: u32 = c as u32;
    (0x09 <= u && u <= 0x0d) || u == 0x20 || u == 0x85 || u == 0xa0 || u == 0x1680 || (0x2000 <= u
        && u <= 0x200a) || u == 0x2028 || u == 0x2029 || u == 0x202f || u == 0x205f || u == 0x3000
}

/// The characters from the first on that is not white space.
pub open spec fn trimmed_start(s: Seq<char>) -> Seq<char>
    decreases s.len(),
{
    if s.len() > 0 && is_space(s[0]) {
        trimmed_start(s.skip(1))
    } else {
        s
    }
}

/// The characters up to the last that is not white space.
pub open spec fn trimmed_end(s: Seq<char>) -> Seq<char>
    decreases s.len(),
{
    if s.len() > 0 && is_space(s.last()) {
        trimmed_end(s.drop_last())
    } else {
        s
    }
}

/// The characters without the white space around them.
pub open spec fn trimmed(s: Seq<char>) -> Seq<char> {
    trimmed_end(trimmed_start(s))
}

pub fn trim_start(s: &[char]) -> (r: &[char])
    ensures
        r@ == trimmed_start(s@),
{
    let mut i: usize = 0;
    assert(s@.skip(0) =~= s@);
    while i < s.len() && space(s[i])
        invariant
            i <= s@.len(),
            trimmed_start(s@.skip(i as int)) == trimmed_start(s@),
        decreases s@.len() - i,
    {
        assert(s@.skip(i as int).skip(1) =~= s@.skip(i + 1));
        i = i + 1;
    }
    slice_subrange(s, i, s.len())
}

pub fn trim_end(s: &[char]) -> (r: &[char])
    ensures
        r@ == trimmed_end(s@),
{
    let mut n: usize = s.len();
    assert(s@.take(n as int) =~= s@);
    while n > 0 && space(s[n - 1])
        invariant
            n <= s@.len(),
            trimmed_end(s@.take(n as int)) == trimmed_end(s@),
        decreases n,
    {
        assert(s@.take(n as int).drop_last() =~= s@.take(n - 1));
        n = n - 1;
    }
    slice_subrange(s, 0, n)
}

pub fn trim(s: &[char]) -> (r: &[char])
    ensures
        r@ == trimmed(s@),
{
    trim_end(trim_start(s))
}

/// The texts of a list of strings.
pub open spec fn texts(v: Seq<String>) -> Seq<Seq<char>> {
    Seq::new(v.len(), |i: int| v[i]@)
}

/// Texts one after the other, with a separator between them.
pub open spec fn joined(parts: Seq<Seq<char>>, sep: Seq<char>) -> Seq<char>
    decreases parts.len(),
{
    if parts.len() == 0 {
        Seq::empty()
    } else if parts.len() == 1 {
        parts[0]
    } else {
        joined(parts.drop_last(), sep) + sep + parts.last()
    }
}

pub fn join(parts: &Vec<String>, sep: &str) -> (s: String)
    ensures
        s@ == joined(texts(parts@), sep@),
{
    let mut s = String::new();
    let mut i: usize = 0;
    assert(texts(parts@).take(0) =~= Seq::empty());
    while i < parts.len()
        invariant
            i <= parts@.len(),
            s@ == joined(texts(parts@).take(i as int), sep@),
        decreases parts@.len() - i,
    {
        if i > 0 {
            push_str(&mut s, sep);
        }
        push_str(&mut s, parts[i].as_str());
        assert(texts(parts@).take(i + 1).drop_last() =~= texts(parts@).take(i as int));
        i = i + 1;
        assert(s@ =~= joined(texts(parts@).take(i as int), sep@));
    }
    assert(texts(parts@).take(i as int) =~= texts(parts@));
    s
}

/// Append a list item if a condition holds.
pub fn push_if(parts: &mut Vec<String>, cond: bool, item: String)
    ensures
        texts(final(parts)@) == texts(old(parts)@) + only_if(cond, item@),
{
    if cond {
        parts.push(item);
    }
    assert(texts(parts@) =~= texts(old(parts)@) + only_if(cond, item@));
}

/// A list of one text, or of none.
pub open spec fn only_if(cond: bool, item: Seq<char>) -> Seq<Seq<char>> {
    if cond {
        seq![item]
    } else {
        Seq::empty()
    }
}

/// An upper-case hexadecimal digit.
pub open spec fn hex_char(d: int) -> char {
    if d < 10 {
        (d + '0' as int) as char
    } else {
        (d - 10 + 'A' as int) as char
    }
}

/// The four upper-case hexadecimal digits of a 16-bit number.
pub open spec fn hex4(n: u16) -> Seq<char> {
    seq![
        hex_char(n as int / 0x1000),
        hex_char(n as int / 0x100 % 0x10),
        hex_char(n as int / 0x10 % 0x10),
        hex_char(n as int % 0x10),
    ]
}

fn hex_digit(d: u8) -> (c: char)
    requires
        d < 16,
    ensures
        c == hex_char(d as int),
{
    if d < 10 {
        (d + 48) as char
    } else {
        (d - 10 + 65) as char
    }
}

/// Append the four upper-case hexadecimal digits of a 16-bit number.
pub fn push_hex4(s: &mut String, n: u16)
    ensures
        final(s)@ == old(s)@ + hex4(n),
{
    s.push(hex_digit((n / 0x1000) as u8));
    s.push(hex_digit((n / 0x100 % 0x10) as u8));
    s.push(hex_digit((n / 0x10 % 0x10) as u8));
    s.push(hex_digit((n % 0x10) as u8));
    assert(s@ =~= old(s)@ + hex4(n));
}

/// The parts of a text between the occurrences of a separator: always one more
/// than there are separators.
pub open spec fn split(s: Seq<char>, sep: char) -> Seq<Seq<char>>
    decreases s.len(),
{
    if s.len() == 0 {
        seq![Seq::empty()]
    } else {
        let before = split(s.drop_last(), sep);
        if s.last() == sep {
            before.push(Seq::empty())
        } else {
            before.drop_last().push(before.last().push(s.last()))
        }
    }
}

/// The texts of a list of runs of characters.
pub open spec fn runs(v: Seq<Vec<char>>) -> Seq<Seq<char>> {
    Seq::new(v.len(), |i: int| v[i]@)
}

proof fn lemma_split_len(s: Seq<char>, sep: char)
    ensures
        1 <= split(s, sep).len() <= s.len() + 1,
    decreases s.len(),
{
    if s.len() > 0 {
        lemma_split_len(s.drop_last(), sep);
    }
}

pub fn split_at_each(s: &[char], sep: char) -> (v: Vec<Vec<char>>)
    ensures
        runs(v@) == split(s@, sep),
        v@.len() >= 1,
{
    let mut v: Vec<Vec<char>> = Vec::new();
    let mut part: Vec<char> = Vec::new();
    let mut i: usize = 0;
    assert(s@.take(0) =~= Seq::empty());
    assert(runs(v@).push(part@) =~= split(s@.take(0), sep));
    while i < s.len()
        invariant
            i <= s@.len(),
            runs(v@).push(part@) == split(s@.take(i as int), sep),
        decreases s@.len() - i,
    {
        let c: char = s[i];
        assert(s@.take(i + 1).drop_last() =~= s@.take(i as int));
        if c == sep {
            let ghost before = runs(v@).push(part@);
            v.push(part);
            part = Vec::new();
            assert(runs(v@) =~= before);
        } else {
            let ghost before = runs(v@).push(part@);
            part.push(c);
            assert(before.drop_last() =~= runs(v@));
        }
        i = i + 1;
        assert(runs(v@).push(part@) =~= split(s@.take(i as int), sep));
    }
    assert(s@.take(i as int) =~= s@);
    let ghost all = runs(v@).push(part@);
    v.push(part);
    assert(runs(v@) =~= all);
    v
}

/// Splitting loses nothing: the parts, joined by the separator, are the text
/// again, and no part holds the separator.
pub proof fn law_split(s: Seq<char>, sep: char)
    ensures
        joined(split(s, sep), seq![sep]) == s,
        forall|i: int, j: int|
            0 <= i < split(s, sep).len() && 0 <= j < split(s, sep)[i].len()
                ==> #[trigger] split(s, sep)[i][j] != sep,
    decreases s.len(),
{
    lemma_split_len(s, sep);
    if s.len() > 0 {
        let before = split(s.drop_last(), sep);
        lemma_split_len(s.drop_last(), sep);
        law_split(s.drop_last(), sep);
        let parts = split(s, sep);
        assert(s =~= s.drop_last().push(s.last()));
        if s.last() == sep {
            assert(parts.drop_last() =~= before);
            assert(joined(parts, seq![sep]) =~= s);
        } else {
            assert(parts.drop_last() =~= before.drop_last());
            assert(joined(parts, seq![sep]) =~= joined(before, seq![sep]).push(s.last()));
        }
    } else {
        assert(joined(split(s, sep), seq![sep]) =~= s);
    }
}

/// Joining loses nothing either: where no part holds the separator, splitting
/// gives the parts back.
pub proof fn law_join_splits_back(parts: Seq<Seq<char>>, sep: char)
    requires
        parts.len() > 0,
        forall|i: int| 0 <= i < parts.len() ==> !(#[trigger] parts[i]).contains(sep),
    ensures
        split(joined(parts, seq![sep]), sep) == parts,
    decreases parts.len(),
{
    let last = parts.last();
    assert(!parts[parts.len() - 1].contains(sep));
    if parts.len() == 1 {
        lemma_split_rest(Seq::empty(), last, sep);
        assert(Seq::<char>::empty() + last =~= last);
        assert(split(Seq::<char>::empty(), sep).drop_last() =~= Seq::empty());
        assert(Seq::<char>::empty() + last =~= last);
        assert(split(last, sep) =~= parts);
    } else {
        let front = parts.drop_last();
        assert forall|i: int| 0 <= i < front.len() implies !(#[trigger] front[i]).contains(sep) by {
            assert(front[i] == parts[i]);
        }
        law_join_splits_back(front, sep);
        let head = joined(front, seq![sep]).push(sep);
        assert(head.drop_last() =~= joined(front, seq![sep]));
        assert(joined(parts, seq![sep]) =~= head + last);
        lemma_split_rest(head, last, sep);
        assert(split(head, sep) =~= front.push(Seq::empty()));
        assert(split(head, sep).drop_last() =~= front);
        assert(Seq::<char>::empty() + last =~= last);
        assert(front.push(last) =~= parts);
    }
}

/// What a part without a separator adds to the parts before it.
proof fn lemma_split_rest(s: Seq<char>, t: Seq<char>, sep: char)
    requires
        !t.contains(sep),
    ensures
        split(s + t, sep) == split(s, sep).drop_last().push(split(s, sep).last() + t),
    decreases t.len(),
{
    lemma_split_len(s, sep);
    if t.len() == 0 {
        assert(s + t =~= s);
        assert(split(s, sep).last() + t =~= split(s, sep).last());
        assert(split(s, sep).drop_last().push(split(s, sep).last()) =~= split(s, sep));
    } else {
        assert(t.contains(t.last()));
        assert forall|i: int| 0 <= i < t.len() - 1 implies t.drop_last()[i] != sep by {
            assert(t.contains(t[i]));
        }
        lemma_split_rest(s, t.drop_last(), sep);
        assert((s + t).drop_last() =~= s + t.drop_last());
        let before = split(s + t.drop_last(), sep);
        assert(before.drop_last() =~= split(s, sep).drop_last());
        assert((split(s, sep).last() + t.drop_last()).push(t.last()) =~= split(s, sep).last() + t);
    }
}

/// The word that the end of a text is in the middle of.
pub open spec fn open_word(s: Seq<char>) -> Seq<char>
    decreases s.len(),
{
    if s.len() == 0 || is_space(s.last()) {
        Seq::empty()
    } else {
        open_word(s.drop_last()).push(s.last())
    }
}

/// The words of a text that are followed by white space.
pub open spec fn closed_words(s: Seq<char>) -> Seq<Seq<char>>
    decreases s.len(),
{
    if s.len() == 0 {
        Seq::empty()
    } else if is_space(s.last()) {
        closed_words(s.drop_last()) + only_if(
            open_word(s.drop_last()).len() > 0,
            open_word(s.drop_last()),
        )
    } else {
        closed_words(s.drop_last())
    }
}

/// The words of a text: its longest runs without white space.
pub open spec fn words(s: Seq<char>) -> Seq<Seq<char>> {
    closed_words(s) + only_if(open_word(s).len() > 0, open_word(s))
}

pub fn split_words(s: &[char]) -> (v: Vec<Vec<char>>)
    ensures
        runs(v@) == words(s@),
{
    let mut v: Vec<Vec<char>> = Vec::new();
    let mut word: Vec<char> = Vec::new();
    let mut i: usize = 0;
    assert(s@.take(0) =~= Seq::empty());
    assert(runs(v@) =~= closed_words(s@.take(0)));
    while i < s.len()
        invariant
            i <= s@.len(),
            runs(v@) == closed_words(s@.take(i as int)),
            word@ == open_word(s@.take(i as int)),
        decreases s@.len() - i,
    {
        let c: char = s[i];
        assert(s@.take(i + 1).drop_last() =~= s@.take(i as int));
        if space(c) {
            if word.len() > 0 {
                let ghost before = runs(v@);
                let ghost w = word@;
                v.push(word);
                assert(runs(v@) =~= before + seq![w]);
                word = Vec::new();
            }
        } else {
            word.push(c);
        }
        i = i + 1;
        assert(runs(v@) =~= closed_words(s@.take(i as int)));
        assert(word@ =~= open_word(s@.take(i as int)));
    }
    assert(s@.take(i as int) =~= s@);
    if word.len() > 0 {
        let ghost before = runs(v@);
        let ghost w = word@;
        v.push(word);
        assert(runs(v@) =~= before + seq![w]);
    }
    assert(runs(v@) =~= words(s@));
    v
}

/// Where a pattern first occurs in a text.
pub open spec fn first_at(s: Seq<char>, pat: Seq<char>) -> Option<int>
    decreases s.len(),
{
    if pat.is_prefix_of(s) {
        Some(0)
    } else if s.len() == 0 {
        None
    } else {
        match first_at(s.skip(1), pat) {
            Some(i) => Some(i + 1),
            None => None,
        }
    }
}

/// Whether a text begins with a pattern.
pub fn starts_with(s: &[char], pat: &[char]) -> (r: bool)
    ensures
        r == pat@.is_prefix_of(s@),
{
    if pat.len() > s.len() {
        return false;
    }
    same_chars(slice_subrange(s, 0, pat.len()), pat)
}

/// Whether a text ends with a pattern.
pub fn ends_with(s: &[char], pat: &str) -> (r: bool)
    ensures
        r == pat@.is_suffix_of(s@),
{
    let p = chars_of(pat);
    if p.len() > s.len() {
        return false;
    }
    same_chars(slice_subrange(s, s.len() - p.len(), s.len()), p.as_slice())
}

pub fn find(s: &[char], pat: &[char]) -> (r: Option<usize>)
    ensures
        first_at(s@, pat@) == (match r {
            Some(i) => Some(i as int),
            None => None,
        }),
        r matches Some(i) ==> i + pat@.len() <= s@.len(),
{
    let mut i: usize = 0;
    assert(s@.skip(0) =~= s@);
    loop
        invariant
            i <= s@.len(),
            first_at(s@, pat@) == (match first_at(s@.skip(i as int), pat@) {
                Some(k) => Some(k + i),
                None => None,
            }),
        decreases s@.len() - i,
    {
        if starts_with(slice_subrange(s, i, s.len()), pat) {
            return Some(i);
        }
        if i == s.len() {
            return None;
        }
        assert(s@.skip(i as int).skip(1) =~= s@.skip(i + 1));
        i = i + 1;
    }
}

/// Where one of two characters first occurs.
pub open spec fn first_of(s: Seq<char>, a: char, b: char) -> Option<int>
    decreases s.len(),
{
    if s.len() == 0 {
        None
    } else if s[0] == a || s[0] == b {
        Some(0)
    } else {
        match first_of(s.skip(1), a, b) {
            Some(i) => Some(i + 1),
            None => None,
        }
    }
}

pub fn find_of(s: &[char], a: char, b: char) -> (r: Option<usize>)
    ensures
        first_of(s@, a, b) == (match r {
            Some(i) => Some(i as int),
            None => None,
        }),
        r matches Some(i) ==> i < s@.len(),
{
    let mut i: usize = 0;
    assert(s@.skip(0) =~= s@);
    while i < s.len()
        invariant
            i <= s@.len(),
            first_of(s@, a, b) == (match first_of(s@.skip(i as int), a, b) {
                Some(k) => Some(k + i),
                None => None,
            }),
        decreases s@.len() - i,
    {
        if s[i] == a || s[i] == b {
            return Some(i);
        }
        assert(s@.skip(i as int).skip(1) =~= s@.skip(i + 1));
        i = i + 1;
    }
    None
}

/// A string with the text of a slice.
pub fn owned(t: &str) -> (s: String)
    ensures
        s@ == t@,
{
    t.to_owned()
}

/// Printing a number and reading it back gives the number.
pub proof fn law_dec_reads_back(n: nat)
    ensures
        unsigned(dec(n)) == Some(n),
{
    lemma_dec_is_number(n);
    assert(!is_digit('+'));
}

/// The decimal digits of a number are digits, and spell it.
pub proof fn lemma_dec_is_number(n: nat)
    ensures
        is_number(dec(n)),
        digits_value(dec(n)) == n,
    decreases n,
{
    if n >= 10 {
        lemma_dec_is_number(n / 10);
        assert(dec(n).drop_last() =~= dec(n / 10));
    } else {
        assert(dec(n).drop_last() =~= Seq::<char>::empty());
        reveal_with_fuel(digits_value, 2);
    }
}

/// How many digits small numbers have.
pub proof fn lemma_dec_width(n: nat)
    ensures
        1 <= dec(n).len(),
        n < 100 ==> dec(n).len() <= 2,
        n < 1000 ==> dec(n).len() <= 3,
        n < 10_000 ==> dec(n).len() <= 4,
{
    reveal_with_fuel(dec, 4);
}

proof fn lemma_leading_zeros(z: Seq<char>, t: Seq<char>)
    requires
        forall|i: int| 0 <= i < z.len() ==> z[i] == '0',
    ensures
        digits_value(z + t) == digits_value(t),
    decreases z.len() + t.len(),
{
    if t.len() == 0 {
        assert(z + t =~= z);
        if z.len() > 0 {
            lemma_leading_zeros(z.drop_last(), t);
            assert(z.drop_last() + t =~= z.drop_last());
        }
    } else {
        lemma_leading_zeros(z, t.drop_last());
        assert((z + t).drop_last() =~= z + t.drop_last());
    }
}

/// A number that fits its width fills it exactly, with digits alone, and reads
/// back as itself.
pub proof fn law_padded_reads_back(n: nat, width: nat)
    requires
        dec(n).len() <= width,
    ensures
        dec_padded(n, width).len() == width,
        plain_number(dec_padded(n, width)) == Some(n),
{
    lemma_dec_is_number(n);
    if dec(n).len() < width {
        let zeros = Seq::new((width - dec(n).len()) as nat, |i: int| '0');
        lemma_leading_zeros(zeros, dec(n));
        assert(forall|i: int| 0 <= i < zeros.len() ==> is_digit(#[trigger] zeros[i]));
    }
}

/// Whether a text sorts before another: character by character, and a text
/// before what it begins.
pub open spec fn before(a: Seq<char>, b: Seq<char>) -> bool
    decreases a.len(),
{
    if b.len() == 0 {
        false
    } else if a.len() == 0 {
        true
    } else if a[0] != b[0] {
        a[0] < b[0]
    } else {
        before(a.skip(1), b.skip(1))
    }
}

/// Texts that differ in beginnings of one length sort by them.
pub proof fn lemma_before_by_prefix(x: Seq<char>, y: Seq<char>, u: Seq<char>, v: Seq<char>)
    requires
        x.len() == y.len(),
        before(x, y),
    ensures
        before(x + u, y + v),
    decreases x.len(),
{
    if x[0] == y[0] {
        lemma_before_by_prefix(x.skip(1), y.skip(1), u, v);
        assert((x + u).skip(1) =~= x.skip(1) + u);
        assert((y + v).skip(1) =~= y.skip(1) + v);
    }
}

/// Texts that begin alike sort by what follows.
pub proof fn lemma_before_by_rest(x: Seq<char>, u: Seq<char>, v: Seq<char>)
    requires
        before(u, v),
    ensures
        before(x + u, x + v),
    decreases x.len(),
{
    if x.len() == 0 {
        assert(x + u =~= u);
        assert(x + v =~= v);
    } else {
        lemma_before_by_rest(x.skip(1), u, v);
        assert((x + u).skip(1) =~= x.skip(1) + u);
        assert((x + v).skip(1) =~= x.skip(1) + v);
    }
}

/// As many digits on either side sort as the numbers do.
proof fn lemma_digits_in_order(p: Seq<char>, q: Seq<char>)
    requires
        p.len() == q.len(),
        forall|k: int| 0 <= k < p.len() ==> is_digit(#[trigger] p[k]),
        forall|k: int| 0 <= k < q.len() ==> is_digit(#[trigger] q[k]),
    ensures
        digits_value(p) < digits_value(q) ==> before(p, q),
        digits_value(p) == digits_value(q) ==> p == q,
    decreases p.len(),
{
    if p.len() == 0 {
        assert(p =~= q);
    } else {
        let a = p.drop_last();
        let b = q.drop_last();
        lemma_digits_in_order(a, b);
        assert(is_digit(p.last()));
        assert(is_digit(q.last()));
        assert(p =~= a + seq![p.last()]);
        assert(q =~= b + seq![q.last()]);
        if digits_value(p) < digits_value(q) {
            if digits_value(a) < digits_value(b) {
                lemma_before_by_prefix(a, b, seq![p.last()], seq![q.last()]);
            } else {
                assert(a == b);
                lemma_before_by_rest(a, seq![p.last()], seq![q.last()]);
            }
        }
    }
}

/// Numbers of one width sort as texts in the order of the numbers.
pub proof fn law_padded_sorts(a: nat, b: nat, width: nat)
    requires
        dec(a).len() <= width,
        dec(b).len() <= width,
        a < b,
    ensures
        before(dec_padded(a, width), dec_padded(b, width)),
{
    law_padded_reads_back(a, width);
    law_padded_reads_back(b, width);
    lemma_digits_in_order(dec_padded(a, width), dec_padded(b, width));
}

/// A search finds the first occurrence of a pattern, and misses none.
pub proof fn law_search(s: Seq<char>, pat: Seq<char>)
    ensures
        first_at(s, pat) matches Some(i) ==> {
            &&& 0 <= i && i + pat.len() <= s.len()
            &&& s.subrange(i, i + pat.len()) == pat
            &&& forall|j: int| 0 <= j < i ==> !pat.is_prefix_of(#[trigger] s.skip(j))
        },
        first_at(s, pat) is None ==> forall|j: int|
            0 <= j <= s.len() ==> !pat.is_prefix_of(#[trigger] s.skip(j)),
    decreases s.len(),
{
    assert(s.skip(0) =~= s);
    if pat.is_prefix_of(s) {
        assert(s.subrange(0, pat.len() as int) =~= pat);
    } else if s.len() > 0 {
        law_search(s.skip(1), pat);
        assert forall|j: int| 1 <= j <= s.len() implies #[trigger] s.skip(j) == s.skip(1).skip(
            j - 1,
        ) by {
            assert(s.skip(j) =~= s.skip(1).skip(j - 1));
        }
        if let Some(i) = first_at(s.skip(1), pat) {
            assert(s.subrange(i + 1, i + 1 + pat.len()) =~= s.skip(1).subrange(i, i + pat.len()));
        }
    }
}

/// So does a search for one of two characters.
pub proof fn law_search_of(s: Seq<char>, a: char, b: char)
    ensures
        first_of(s, a, b) matches Some(i) ==> {
            &&& 0 <= i < s.len()
            &&& s[i] == a || s[i] == b
            &&& forall|j: int| 0 <= j < i ==> (#[trigger] s[j]) != a && s[j] != b
        },
        first_of(s, a, b) is None ==> forall|j: int|
            0 <= j < s.len() ==> (#[trigger] s[j]) != a && s[j] != b,
    decreases s.len(),
{
    if s.len() > 0 && s[0] != a && s[0] != b {
        law_search_of(s.skip(1), a, b);
        assert(forall|j: int| 1 <= j < s.len() ==> #[trigger] s[j] == s.skip(1)[j - 1]);
    }
}

/// The characters that separate words are white space, and no printable ASCII
/// character is.
pub proof fn law_white_space(c: char)
    ensures
        c == ' ' || c == '\t' || c == '\n' || c == '\r' ==> is_space(c),
        '!' <= c <= '~' ==> !is_space(c),
{
}

proof fn lemma_trimmed_start(s: Seq<char>) -> (k: int)
    ensures
        0 <= k <= s.len(),
        trimmed_start(s) == s.skip(k),
        forall|i: int| 0 <= i < k ==> is_space(#[trigger] s[i]),
        k < s.len() ==> !is_space(s[k]),
    decreases s.len(),
{
    if s.len() > 0 && is_space(s[0]) {
        let k = lemma_trimmed_start(s.skip(1));
        assert(s.skip(1).skip(k) =~= s.skip(k + 1));
        assert(forall|i: int| 1 <= i < s.len() ==> #[trigger] s[i] == s.skip(1)[i - 1]);
        k + 1
    } else {
        assert(s.skip(0) =~= s);
        0
    }
}

proof fn lemma_trimmed_end(s: Seq<char>) -> (k: int)
    ensures
        0 <= k <= s.len(),
        trimmed_end(s) == s.take(k),
        forall|i: int| k <= i < s.len() ==> is_space(#[trigger] s[i]),
        k > 0 ==> !is_space(s[k - 1]),
    decreases s.len(),
{
    if s.len() > 0 && is_space(s.last()) {
        let k = lemma_trimmed_end(s.drop_last());
        assert(s.drop_last().take(k) =~= s.take(k));
        assert(forall|i: int| 0 <= i < s.len() - 1 ==> #[trigger] s[i] == s.drop_last()[i]);
        k
    } else {
        assert(s.take(s.len() as int) =~= s);
        s.len() as int
    }
}

/// Trimming takes away the white space at both ends and nothing else.
pub proof fn law_trimmed(s: Seq<char>)
    ensures
        exists|a: int, b: int|
            {
                &&& 0 <= a <= b <= s.len()
                &&& trimmed(s) == #[trigger] s.subrange(a, b)
                &&& forall|i: int| 0 <= i < a || b <= i < s.len() ==> is_space(#[trigger] s[i])
            },
        trimmed(s).len() > 0 ==> !is_space(trimmed(s)[0]) && !is_space(trimmed(s).last()),
{
    let a = lemma_trimmed_start(s);
    let t = s.skip(a);
    let k = lemma_trimmed_end(t);
    assert(t.take(k) =~= s.subrange(a, a + k));
    assert forall|i: int| 0 <= i < a || a + k <= i < s.len() implies is_space(#[trigger] s[i]) by {
        if i >= a + k {
            assert(t[i - a] == s[i]);
        }
    }
    assert(trimmed(s) == s.subrange(a, a + k));
}

/// A text without white space at its ends is not trimmed.
pub proof fn law_trimmed_keeps(s: Seq<char>)
    requires
        s.len() > 0 ==> !is_space(s[0]) && !is_space(s.last()),
    ensures
        trimmed(s) == s,
        trimmed_start(s) == s,
{
}

/// How words come about: white space ends one and is none itself, and a run of
/// other characters behind white space is one more.
pub proof fn law_words(s: Seq<char>, c: char, w: Seq<char>)
    requires
        is_space(c),
        w.len() > 0,
        forall|i: int| 0 <= i < w.len() ==> !is_space(#[trigger] w[i]),
    ensures
        words(Seq::empty()) == Seq::<Seq<char>>::empty(),
        words(s.push(c)) == words(s),
        words(s.push(c) + w) == words(s).push(w),
        words(w) == seq![w],
{
    assert(words(Seq::empty()) =~= Seq::<Seq<char>>::empty());
    assert(s.push(c).drop_last() =~= s);
    assert(words(s.push(c)) =~= words(s));
    lemma_word_behind(s.push(c), w);
    assert(open_word(s.push(c)) + w =~= w);
    assert(words(s.push(c) + w) =~= words(s).push(w));
    lemma_word_behind(Seq::empty(), w);
    assert(Seq::<char>::empty() + w =~= w);
    assert(words(w) =~= seq![w]);
}

proof fn lemma_word_behind(s: Seq<char>, w: Seq<char>)
    requires
        forall|i: int| 0 <= i < w.len() ==> !is_space(#[trigger] w[i]),
    ensures
        open_word(s + w) == open_word(s) + w,
        closed_words(s + w) == closed_words(s),
    decreases w.len(),
{
    if w.len() == 0 {
        assert(s + w =~= s);
        assert(open_word(s) + w =~= open_word(s));
    } else {
        assert(forall|i: int| 0 <= i < w.len() - 1 ==> #[trigger] w.drop_last()[i] == w[i]);
        lemma_word_behind(s, w.drop_last());
        assert((s + w).drop_last() =~= s + w.drop_last());
        assert(!is_space(w[w.len() - 1]));
        assert((open_word(s) + w.drop_last()).push(w.last()) =~= open_word(s) + w);
    }
}

/// A sign may stand before a number, a minus only before a signed one, and
/// nothing else may.
pub proof fn law_signs(n: nat, s: Seq<char>)
    ensures
        unsigned(dec(n)) == Some(n),
        unsigned(seq!['+'] + dec(n)) == Some(n),
        unsigned(seq!['-'] + dec(n)) is None,
        signed(dec(n)) == Some(n as int),
        signed(seq!['-'] + dec(n)) == Some(-(n as int)),
        plain_number(dec(n)) == Some(n),
        plain_number(seq!['+'] + dec(n)) is None,
        unsigned(s) is Some ==> s.len() > 0 && is_digit(s.last()),
        s.len() > 0 && !is_digit(s.last()) ==> signed(s) is None && plain_number(s) is None,
        s.len() == 0 ==> unsigned(s) is None && signed(s) is None && plain_number(s) is None,
{
    lemma_dec_is_number(n);
    let p = seq!['+'] + dec(n);
    let m = seq!['-'] + dec(n);
    assert(is_digit(dec(n)[0]));
    assert(p.skip(1) =~= dec(n));
    assert(m.skip(1) =~= dec(n));
    assert(!is_digit(m[0]) && !is_digit(p[0]));
    assert(!is_number(m) && !is_number(p));
    if s.len() > 0 {
        let last = s.len() - 1;
        if unsigned(s) is Some {
            if s[0] == '+' {
                assert(is_digit(s.skip(1)[last - 1]));
            } else {
                assert(is_digit(s[last]));
            }
        }
        if !is_digit(s.last()) {
            assert(!is_number(s)) by {
                if is_number(s) {
                    assert(is_digit(s[last]));
                }
            }
            if s.len() > 1 {
                assert(s.skip(1)[last - 1] == s.last());
                assert(!is_number(s.skip(1)));
            }
        }
    }
}

/// Numbers are decimal: one more digit is ten times the number and the digit,
/// and the digits are those from `0` to `9`.
pub proof fn law_decimal(s: Seq<char>, c: char, n: nat)
    ensures
        is_digit(c) <==> 48 <= c as int <= 57,
        is_digit(c) ==> digits_value(s.push(c)) == 10 * digits_value(s) + (c as int - 48),
        digits_value(Seq::empty()) == 0,
        n < 10 ==> dec(n).len() == 1 && dec(n)[0] as int == 48 + n,
        n >= 10 ==> dec(n).drop_last() == dec(n / 10) && dec(n).last() as int == 48 + n % 10,
        is_number(s) <==> s.len() > 0 && forall|i: int|
            0 <= i < s.len() ==> 48 <= #[trigger] s[i] as int && s[i] as int <= 57,
{
    assert(s.push(c).drop_last() =~= s);
    if n >= 10 {
        assert(dec(n).drop_last() =~= dec(n / 10));
    }
}

/// The words for what is and what is not so.
pub proof fn law_truths(b: bool)
    ensures
        bool_text(b)@.len() == (if b {
            4int
        } else {
            5int
        }),
        bool_text(b)@[0] == (if b {
            't'
        } else {
            'f'
        }),
        bool_text(b)@ == "true"@ <==> b,
        bool_text(b)@ == "false"@ <==> !b,
{
    reveal_strlit("true");
    reveal_strlit("false");
    assert("true"@.len() == 4 && "false"@.len() == 5);
    assert("true"@[0] == 't' && "false"@[0] == 'f');
}

/// White space is what Unicode calls so, and nothing else.
pub proof fn law_spaces(c: char)
    ensures
        ({
            let n = c as int;
            is_space(c) <==> (9 <= n && n <= 13) || n == 32 || n == 133 || n == 160 || n == 5760 || (
            8192 <= n && n <= 8202) || n == 8232 || n == 8233 || n == 8239 || n == 8287 || n == 12288
        }),
{
}

/// A number is read up to its maximum and including it, as itself; one sign may
/// stand before it.
pub proof fn law_bounded_numbers(s: Seq<char>, max: int, n: nat)
    ensures
        unsigned_to(s, max) == Some(n) <==> unsigned(s) == Some(n) && n <= max,
        n <= max ==> unsigned_to(dec(n), max) == Some(n),
        n <= max ==> unsigned_to(seq!['+'] + dec(n), max) == Some(n),
        n > max ==> unsigned_to(dec(n), max) is None,
{
    law_dec_reads_back(n);
    lemma_dec_is_number(n);
    assert((seq!['+'] + dec(n)).skip(1) =~= dec(n));
    assert(is_digit(dec(n)[0]));
}

} // verus!
