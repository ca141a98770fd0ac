//! What the tap prints for each message.

use crate::link::peer::PeerId;
use crate::tap::stats;
use crate::text;
use vstd::prelude::*;

verus! {

/// A time of day: seconds, filled up on the left, and milliseconds.
pub open spec fn time_text(secs: nat, millis: nat) -> Seq<char> {
    "["@ + stats::padded_left(text::dec(secs), 10) + "."@ + text::dec_padded(millis, 3) + "]"@
}

pub fn timestamp(secs: u64, millis: u32) -> (s: String)
    ensures
        s@ == time_text(secs as nat, millis as nat),
{
    let mut s = text::owned("[");
    let d = text::dec_chars(secs);
    stats::push_spaces(&mut s, d.len(), 10);
    text::push_chars(&mut s, d.as_slice());
    assert(s@ =~= "["@ + stats::padded_left(text::dec(secs as nat), 10));
    text::push_str(&mut s, ".");
    text::push_dec_padded(&mut s, millis as u64, 3);
    text::push_str(&mut s, "]");
    s
}

/// The line for one message: when, from whom, under which number, what.
pub open spec fn shown(
    time: Seq<char>,
    peer: PeerId,
    seq: u16,
    name: Seq<char>,
    rendered: Seq<char>,
) -> Seq<char> {
    time + " "@ + peer.label()@ + " seq="@ + stats::padded_right(text::dec(seq as nat), 6) + " "@
        + name + " "@ + rendered
}

pub fn echo_line(time: &str, peer: PeerId, seq: u16, name: &str, rendered: &str) -> (s: String)
    ensures
        s@ == shown(time@, peer, seq, name@, rendered@),
{
    let mut s = text::owned(time);
    text::push_str(&mut s, " ");
    text::push_str(&mut s, peer.as_str());
    text::push_str(&mut s, " seq=");
    let ghost mid = s@;
    let d = text::dec_chars(seq as u64);
    text::push_chars(&mut s, d.as_slice());
    stats::push_spaces(&mut s, d.len(), 6);
    assert(s@ =~= mid + stats::padded_right(text::dec(seq as nat), 6));
    text::push_str(&mut s, " ");
    text::push_str(&mut s, name);
    text::push_str(&mut s, " ");
    text::push_str(&mut s, rendered);
    s
}

/// Whether a message passes a filter, if there is one.
pub open spec fn passes(filter: Option<Seq<char>>, name: Seq<char>) -> bool {
    match filter {
        None => true,
        Some(f) => f == name,
    }
}

/// Whether a message is to be shown: no filter, or one that names its type.
pub fn wanted(filter: Option<&str>, name: &str) -> (r: bool)
    ensures
        r == passes(
            match filter {
                None => None,
                Some(f) => Some(f@),
            },
            name@,
        ),
{
    match filter {
        None => true,
        Some(f) => text::same_text(f, name),
    }
}

/// Without a filter everything is shown, and with one only what it names.
pub proof fn law_filters(f: Seq<char>, name: Seq<char>)
    ensures
        passes(None, name),
        passes(Some(name), name),
        f != name ==> !passes(Some(f), name),
{
}

/// A time stands in brackets, the seconds at the right of ten characters and
/// three digits of milliseconds behind a point.
#[verifier::rlimit(40)]
pub proof fn law_times(secs: nat, millis: nat)
    requires
        text::dec(secs).len() <= 10,
        millis < 1000,
    ensures
        ({
            let t = time_text(secs, millis);
            let n = text::dec(secs).len();
            &&& t.len() == 16
            &&& t[0] == '[' && t[11] == '.' && t[15] == ']'
            &&& t.subrange(11 - n, 11) == text::dec(secs)
            &&& forall|i: int| 1 <= i < 11 - n ==> #[trigger] t[i] == ' '
            &&& text::plain_number(t.subrange(12, 15)) == Some(millis)
        }),
{
    reveal_strlit("[");
    reveal_strlit(".");
    reveal_strlit("]");
    text::lemma_dec_width(millis);
    text::law_padded_reads_back(millis, 3);
    let t = time_text(secs, millis);
    let n = text::dec(secs).len();
    assert(t.subrange(11 - n, 11) =~= text::dec(secs));
    assert(t.subrange(12, 15) =~= text::dec_padded(millis, 3));
}

/// A line tells when, from whom, under which number and what, in this order.
#[verifier::rlimit(40)]
pub proof fn law_lines(
    time: Seq<char>,
    peer: PeerId,
    seq: u16,
    name: Seq<char>,
    rendered: Seq<char>,
)
    requires
        text::dec(seq as nat).len() <= 6,
    ensures
        ({
            let line = shown(time, peer, seq, name, rendered);
            let (t, p, d, n) = (
                time.len() as int,
                peer.label()@.len() as int,
                text::dec(seq as nat).len() as int,
                name.len() as int,
            );
            let w = t + p + 13;
            &&& line.len() == w + n + 1 + rendered.len()
            &&& line.subrange(0, t) == time
            &&& line[t] == ' '
            &&& line.subrange(t + 1, t + 1 + p) == peer.label()@
            &&& line.subrange(t + p + 6, t + p + 6 + d) == text::dec(seq as nat)
            &&& line.subrange(w, w + n) == name
            &&& line[w + n] == ' '
            &&& line.subrange(w + n + 1, line.len() as int) == rendered
        }),
{
    reveal_strlit(" ");
    reveal_strlit(" seq=");
    let line = shown(time, peer, seq, name, rendered);
    let (t, p, d, n) = (
                time.len() as int,
                peer.label()@.len() as int,
                text::dec(seq as nat).len() as int,
                name.len() as int,
            );
    let w = t + p + 13;
    assert(" seq="@.len() == 5 && " "@.len() == 1);
    assert(line.subrange(0, t) =~= time);
    assert(line.subrange(t + 1, t + 1 + p) =~= peer.label()@);
    assert(line.subrange(t + p + 6, t + p + 6 + d) =~= text::dec(seq as nat));
    assert(line.subrange(w, w + n) =~= name);
    assert(line.subrange(w + n + 1, line.len() as int) =~= rendered);
}

} // verus!
