//! From chunks of bytes to complete lines.

use crate::text;
use vstd::prelude::*;
use vstd::slice::slice_subrange;
use vstd::utf8;

verus! {

/// The text that `String::from_utf8_lossy` makes of bytes: sequences that are
/// not UTF-8 are replaced.
pub uninterp spec fn lossy_text(bytes: Seq<u8>) -> Seq<char>;

/// `String::from_utf8_lossy`, as an owned string. Its result depends on the
/// bytes alone; on bytes that are UTF-8 it is the text that they encode.
#[verifier::external_body]
fn from_utf8_lossy(bytes: &[u8]) -> (s: String)
    ensures
        s@ == lossy_text(bytes@),
        utf8::valid_utf8(bytes@) ==> s@ == utf8::decode_utf8(bytes@),
{
    String::from_utf8_lossy(bytes).into_owned()
}

/// A line without the carriage returns at its end.
pub open spec fn without_returns(s: Seq<char>) -> Seq<char>
    decreases s.len(),
{
    if s.len() > 0 && s.last() == '\r' {
        without_returns(s.drop_last())
    } else {
        s
    }
}

/// What a line contributes: itself without carriage returns at its end, and
/// nothing if that leaves nothing.
pub open spec fn kept(line: Seq<char>) -> Seq<Seq<char>> {
    if without_returns(line).len() == 0 {
        Seq::empty()
    } else {
        seq![without_returns(line)]
    }
}

/// The lines that a text completes.
pub open spec fn lines_in(t: Seq<char>) -> Seq<Seq<char>>
    decreases t.len(),
{
    if t.len() == 0 {
        Seq::empty()
    } else if t.last() == '\n' {
        lines_in(t.drop_last()) + kept(tail_of(t.drop_last()))
    } else {
        lines_in(t.drop_last())
    }
}

/// What follows the last line break of a text.
pub open spec fn tail_of(t: Seq<char>) -> Seq<char>
    decreases t.len(),
{
    if t.len() == 0 || t.last() == '\n' {
        Seq::empty()
    } else {
        tail_of(t.drop_last()).push(t.last())
    }
}

/// What is kept waiting of a text whose lines were taken: what follows its last
/// line break, or nothing where that has grown past the limit, in encoded bytes.
pub open spec fn held(t: Seq<char>, max_len: nat) -> Seq<char> {
    if utf8::encode_utf8(tail_of(t)).len() > max_len {
        Seq::empty()
    } else {
        tail_of(t)
    }
}

/// Accumulates bytes into complete lines. What is still waiting for its line
/// break is dropped once it grows past a limit, so that input without line
/// breaks cannot grow it forever. A complete line is never dropped.
pub struct LineReader {
    pub buf: String,
    pub max_len: usize,
}

impl LineReader {
    pub fn new(max_len: usize) -> (r: Self)
        ensures
            r.buf@.len() == 0,
            r.max_len == max_len,
    {
        LineReader { buf: String::new(), max_len }
    }

    /// What is waiting once `bytes` have arrived, before any line is taken.
    pub open spec fn pending(self, bytes: Seq<u8>) -> Seq<char> {
        self.buf@ + lossy_text(bytes)
    }

    /// Feed newly read bytes, and return every line completed by them, in
    /// order.
    pub fn feed(&mut self, bytes: &[u8]) -> (lines: Vec<String>)
        ensures
            text::texts(lines@) == lines_in(old(self).pending(bytes@)),
            final(self).buf@ == held(old(self).pending(bytes@), old(self).max_len as nat),
            final(self).max_len == old(self).max_len,
            utf8::valid_utf8(bytes@) ==> old(self).pending(bytes@) == old(self).buf@ + utf8::decode_utf8(
                bytes@,
            ),
            utf8::encode_utf8(final(self).buf@).len() <= final(self).max_len,
    {
        let arrived = from_utf8_lossy(bytes);
        text::push_str(&mut self.buf, arrived.as_str());
        let chars = text::chars_of(self.buf.as_str());
        let (lines, rest) = take_lines(chars.as_slice());
        let waiting = text::string_of(rest.as_slice());
        self.buf = if waiting.as_str().as_bytes().len() > self.max_len {
            String::new()
        } else {
            waiting
        };
        lines
    }
}

/// Split a text into the lines it completes and the rest.
fn take_lines(t: &[char]) -> (r: (Vec<String>, Vec<char>))
    ensures
        text::texts(r.0@) == lines_in(t@),
        r.1@ == tail_of(t@),
{
    let mut lines: Vec<String> = Vec::new();
    let mut tail: Vec<char> = Vec::new();
    let mut i: usize = 0;
    assert(text::texts(lines@) =~= lines_in(t@.take(0)));
    while i < t.len()
        invariant
            i <= t@.len(),
            text::texts(lines@) == lines_in(t@.take(i as int)),
            tail@ == tail_of(t@.take(i as int)),
        decreases t@.len() - i,
    {
        let c: char = t[i];
        assert(t@.take(i + 1).drop_last() =~= t@.take(i as int));
        if c == '\n' {
            let line = trim_returns(tail.as_slice());
            if line.len() > 0 {
                let ghost before = text::texts(lines@);
                lines.push(text::string_of(line));
                assert(text::texts(lines@) =~= before + kept(tail@));
            }
            tail = Vec::new();
        } else {
            tail.push(c);
        }
        i = i + 1;
        assert(text::texts(lines@) =~= lines_in(t@.take(i as int)));
    }
    assert(t@.take(i as int) =~= t@);
    (lines, tail)
}

fn trim_returns(s: &[char]) -> (r: &[char])
    ensures
        r@ == without_returns(s@),
{
    let mut n: usize = s.len();
    assert(s@.take(n as int) =~= s@);
    while n > 0 && s[n - 1] == '\r'
        invariant
            n <= s@.len(),
            without_returns(s@.take(n as int)) == without_returns(s@),
        decreases n,
    {
        assert(s@.take(n as int).drop_last() =~= s@.take(n - 1));
        n = n - 1;
    }
    slice_subrange(s, 0, n)
}

/// Where a text is cut into chunks makes no difference: the lines of two chunks
/// in turn are the lines of both together, and so is what is left waiting.
pub proof fn law_chunks_do_not_matter(t: Seq<char>, u: Seq<char>)
    ensures
        lines_in(t + u) == lines_in(t) + lines_in(tail_of(t) + u),
        tail_of(t + u) == tail_of(tail_of(t) + u),
    decreases u.len(),
{
    if u.len() == 0 {
        assert(t + u =~= t);
        assert(tail_of(t) + u =~= tail_of(t));
        lemma_tail_has_no_break(t);
        lemma_no_break_no_lines(tail_of(t));
        assert(lines_in(t) + Seq::<Seq<char>>::empty() =~= lines_in(t));
    } else {
        law_chunks_do_not_matter(t, u.drop_last());
        assert((t + u).drop_last() =~= t + u.drop_last());
        assert((tail_of(t) + u).drop_last() =~= tail_of(t) + u.drop_last());
        assert(lines_in(t + u) =~= lines_in(t) + lines_in(tail_of(t) + u));
    }
}

/// A reader that is fed a text in two chunks gives the lines that it gives when
/// it is fed both at once, and holds the same, unless what waited between them
/// had grown past the limit.
pub proof fn law_reads_may_be_split(t: Seq<char>, u: Seq<char>, max_len: nat)
    requires
        utf8::encode_utf8(tail_of(t)).len() <= max_len,
    ensures
        lines_in(t + u) == lines_in(t) + lines_in(held(t, max_len) + u),
        held(t + u, max_len) == held(held(t, max_len) + u, max_len),
{
    law_chunks_do_not_matter(t, u);
}

proof fn lemma_tail_has_no_break(t: Seq<char>)
    ensures
        !tail_of(t).contains('\n'),
    decreases t.len(),
{
    if t.len() > 0 && t.last() != '\n' {
        lemma_tail_has_no_break(t.drop_last());
        let before = tail_of(t.drop_last());
        assert forall|i: int| 0 <= i < tail_of(t).len() implies tail_of(t)[i] != '\n' by {
            if i < before.len() {
                assert(before.contains(before[i]));
            }
        }
    }
}

proof fn lemma_no_break_no_lines(t: Seq<char>)
    requires
        !t.contains('\n'),
    ensures
        lines_in(t) == Seq::<Seq<char>>::empty(),
        tail_of(t) == t,
    decreases t.len(),
{
    if t.len() > 0 {
        assert(t.contains(t.last()));
        assert forall|i: int| 0 <= i < t.len() - 1 implies t.drop_last()[i] != '\n' by {
            assert(t.contains(t[i]));
        }
        lemma_no_break_no_lines(t.drop_last());
        assert(t.drop_last().push(t.last()) =~= t);
    }
}

/// What is left waiting never exceeds the limit, and a text that ends in a line
/// break leaves nothing waiting.
pub proof fn law_waiting_is_bounded(t: Seq<char>, max_len: nat)
    ensures
        utf8::encode_utf8(held(t, max_len)).len() <= max_len,
        t.len() > 0 && t.last() == '\n' ==> held(t, max_len).len() == 0,
{
}

/// A line is what stands before a line break, without the carriage returns at
/// its end: whatever follows it, it comes out first and as it was. One that
/// leaves nothing does not come out.
#[verifier::rlimit(40)]
pub proof fn law_lines_come_out(line: Seq<char>, ends: Seq<char>, rest: Seq<char>)
    requires
        !line.contains('\n'),
        line.len() > 0 ==> line.last() != '\r',
        forall|i: int| 0 <= i < ends.len() ==> #[trigger] ends[i] == '\r',
    ensures
        lines_in(line + ends + seq!['\n'] + rest) == (if line.len() == 0 {
            lines_in(rest)
        } else {
            seq![line] + lines_in(rest)
        }),
        tail_of(line + ends + seq!['\n'] + rest) == tail_of(rest),
        tail_of(line) == line,
        lines_in(line).len() == 0,
{
    let body = line + ends;
    let first = body + seq!['\n'];
    assert forall|i: int| 0 <= i < body.len() implies body[i] != '\n' by {
        if i < line.len() {
            assert(line.contains(line[i]));
        } else {
            assert(body[i] == ends[i - line.len()]);
        }
    }
    lemma_no_break_no_lines(body);
    lemma_no_break_no_lines(line);
    assert(first.drop_last() =~= body);
    lemma_without_returns(line, ends);
    assert(lines_in(first) =~= kept(body));
    law_chunks_do_not_matter(first, rest);
    assert(tail_of(first) + rest =~= rest);
    assert(lines_in(first + rest) =~= (if line.len() == 0 {
        lines_in(rest)
    } else {
        seq![line] + lines_in(rest)
    }));
}

proof fn lemma_without_returns(line: Seq<char>, ends: Seq<char>)
    requires
        line.len() > 0 ==> line.last() != '\r',
        forall|i: int| 0 <= i < ends.len() ==> #[trigger] ends[i] == '\r',
    ensures
        without_returns(line + ends) == line,
    decreases ends.len(),
{
    if ends.len() == 0 {
        assert(line + ends =~= line);
    } else {
        assert(ends[ends.len() - 1] == '\r');
        assert((line + ends).drop_last() =~= line + ends.drop_last());
        assert(forall|i: int|
            0 <= i < ends.len() - 1 ==> #[trigger] ends.drop_last()[i] == ends[i]);
        lemma_without_returns(line, ends.drop_last());
    }
}

/// What is too long, in encoded bytes, is dropped whole, and what is not is kept
/// whole.
pub proof fn law_waiting_is_kept_or_dropped(t: Seq<char>, max_len: nat)
    ensures
        utf8::encode_utf8(tail_of(t)).len() <= max_len ==> held(t, max_len) == tail_of(t),
        utf8::encode_utf8(tail_of(t)).len() > max_len ==> held(t, max_len).len() == 0,
{
}

} // verus!
