//! Rates and losses by type.
//!
//! A sender numbers the frames of each type one by one, so a gap between two
//! frames of a type means that something in between never arrived.

use crate::control::speed;
use crate::text;
use std::collections::HashMap;
use vstd::prelude::*;

verus! {

/// A gap of this size or more is a restarted sender, not a loss.
pub const RESTART_THRESHOLD: u16 = 1000;

/// What was counted of one type in a window.
#[derive(Clone, Copy, Debug, PartialEq, Eq)]
pub struct Counters {
    pub type_id: u16,
    pub name: &'static str,
    pub frames: u32,
    pub lost: u32,
}

/// How many frames are missing between two numbers of one type.
pub open spec fn missing(prev: u16, seq: u16) -> int {
    let forward = (seq - prev) % 0x1_0000;
    if 1 < forward < RESTART_THRESHOLD {
        forward - 1
    } else {
        0
    }
}

/// A sum that stops at the largest number there is.
pub open spec fn up_to(n: int) -> u32 {
    if n > u32::MAX {
        u32::MAX
    } else {
        n as u32
    }
}

/// Tracks every type seen since the last report.
pub struct RateTracker {
    /// One entry for each type seen in this window, in the order of their first
    /// frames.
    pub counters: Vec<Counters>,
    /// The last number of each type, kept over the windows.
    pub last_seq: HashMap<u16, u16>,
    pub window_start_us: u64,
}

/// Where a type is counted.
pub open spec fn place(counters: Seq<Counters>, type_id: u16) -> Option<int>
    decreases counters.len(),
{
    if counters.len() == 0 {
        None
    } else if counters.last().type_id == type_id {
        Some(counters.len() - 1)
    } else {
        place(counters.drop_last(), type_id)
    }
}

impl RateTracker {
    /// Each type is counted in one place only, and only if a frame was seen.
    pub open spec fn wf(self) -> bool {
        &&& forall|i: int, j: int|
            0 <= i < j < self.counters@.len() ==> (#[trigger] self.counters@[i]).type_id != (
            #[trigger] self.counters@[j]).type_id
        &&& forall|i: int| 0 <= i < self.counters@.len() ==> (#[trigger] self.counters@[i]).frames > 0
    }

    pub fn new(now_us: u64) -> (t: Self)
        ensures
            t.wf(),
            t.counters@.len() == 0,
            t.last_seq@ == Map::<u16, u16>::empty(),
            t.window_start_us == now_us,
    {
        RateTracker { counters: Vec::new(), last_seq: HashMap::new(), window_start_us: now_us }
    }

    /// How many frames the one numbered `seq` shows to be missing.
    pub open spec fn gap(self, type_id: u16, seq: u16) -> int {
        if self.last_seq@.contains_key(type_id) {
            missing(self.last_seq@[type_id], seq)
        } else {
            0
        }
    }

    /// The counters once a frame has been counted.
    pub open spec fn counted(self, type_id: u16, name: &'static str, seq: u16) -> Seq<Counters> {
        let gap = self.gap(type_id, seq);
        match place(self.counters@, type_id) {
            None => self.counters@.push(Counters { type_id, name, frames: 1, lost: gap as u32 }),
            Some(i) => self.counters@.update(
                i,
                Counters {
                    frames: up_to(self.counters@[i].frames + 1),
                    lost: up_to(self.counters@[i].lost + gap),
                    ..self.counters@[i]
                },
            ),
        }
    }

    /// The last numbers once a frame has been counted.
    pub open spec fn remembered(self, type_id: u16, seq: u16) -> Map<u16, u16> {
        self.last_seq@.insert(type_id, seq)
    }

    /// Record one received frame.
    pub fn record(&mut self, type_id: u16, name: &'static str, seq: u16)
        requires
            old(self).wf(),
        ensures
            final(self).wf(),
            final(self).counters@ == old(self).counted(type_id, name, seq),
            final(self).last_seq@ == old(self).remembered(type_id, seq),
            final(self).window_start_us == old(self).window_start_us,
    {
        broadcast use vstd::std_specs::hash::group_hash_axioms;

        let gap: u32 = match self.last_seq.get(&type_id) {
            Some(prev) => {
                let forward: u16 = seq.wrapping_sub(*prev);
                if forward > 1 && forward < RESTART_THRESHOLD {
                    (forward - 1) as u32
                } else {
                    0
                }
            },
            None => 0,
        };
        self.last_seq.insert(type_id, seq);
        match self.find(type_id) {
            None => {
                proof {
                    lemma_not_there(self.counters@, type_id);
                }
                self.counters.push(Counters { type_id, name, frames: 1, lost: gap });
            },
            Some(i) => {
                let c = self.counters[i];
                self.counters.set(
                    i,
                    Counters {
                        type_id: c.type_id,
                        name: c.name,
                        frames: c.frames.saturating_add(1),
                        lost: c.lost.saturating_add(gap),
                    },
                );
            },
        }
    }

    fn find(&self, type_id: u16) -> (r: Option<usize>)
        ensures
            place(self.counters@, type_id) == (match r {
                Some(i) => Some(i as int),
                None => None,
            }),
            r matches Some(i) ==> i < self.counters@.len() && self.counters@[i as int].type_id
                == type_id,
    {
        let mut n: usize = self.counters.len();
        assert(self.counters@.take(n as int) =~= self.counters@);
        while n > 0
            invariant
                n <= self.counters@.len(),
                place(self.counters@.take(n as int), type_id) == place(self.counters@, type_id),
            decreases n,
        {
            if self.counters[n - 1].type_id == type_id {
                return Some(n - 1);
            }
            assert(self.counters@.take(n as int).drop_last() =~= self.counters@.take(n - 1));
            n = n - 1;
        }
        None
    }

    /// Microseconds since the current window was opened.
    pub fn elapsed(&self, now_us: u64) -> (r: u64)
        ensures
            r == speed::elapsed(self.window_start_us, now_us),
    {
        now_us.saturating_sub(self.window_start_us)
    }

    /// What was counted of each type, by name, and open a new window. A type
    /// that fell silent does not show up again.
    pub fn report(&mut self, now_us: u64) -> (lines: Vec<Counters>)
        requires
            old(self).wf(),
        ensures
            final(self).wf(),
            final(self).counters@.len() == 0,
            final(self).last_seq@ == old(self).last_seq@,
            final(self).window_start_us == now_us,
            lines@.to_multiset() == old(self).counters@.to_multiset(),
            by_name(lines@),
    {
        let mut left: Vec<Counters> = Vec::new();
        std::mem::swap(&mut left, &mut self.counters);
        self.window_start_us = now_us;
        let mut lines: Vec<Counters> = Vec::new();
        let mut i: usize = 0;
        assert(left@.take(0) =~= Seq::empty());
        assert(lines@ =~= left@.take(0));
        while i < left.len()
            invariant
                i <= left@.len(),
                lines@.to_multiset() == left@.take(i as int).to_multiset(),
                by_name(lines@),
            decreases left@.len() - i,
        {
            let ghost before = lines@;
            insert_by_name(&mut lines, left[i]);
            proof {
                assert(left@.take(i + 1) =~= left@.take(i as int).push(left@[i as int]));
                left@.take(i as int).to_multiset_ensures();
                assert(left@.take(i + 1).to_multiset() =~= left@.take(i as int).to_multiset().insert(
                    left@[i as int],
                ));
            }
            i = i + 1;
        }
        assert(left@.take(i as int) =~= left@);
        lines
    }
}

proof fn lemma_not_there(counters: Seq<Counters>, type_id: u16)
    requires
        place(counters, type_id) is None,
    ensures
        forall|i: int| 0 <= i < counters.len() ==> (#[trigger] counters[i]).type_id != type_id,
    decreases counters.len(),
{
    if counters.len() > 0 {
        lemma_not_there(counters.drop_last(), type_id);
        assert forall|i: int| 0 <= i < counters.len() implies (#[trigger] counters[i]).type_id
            != type_id by {
            if i < counters.len() - 1 {
                assert(counters.drop_last()[i] == counters[i]);
            }
        }
    }
}

/// The order of texts: character by character, and a text before its
/// continuations.
pub open spec fn no_later(a: Seq<char>, b: Seq<char>) -> bool
    decreases a.len(),
{
    if a.len() == 0 {
        true
    } else if b.len() == 0 {
        false
    } else if a[0] == b[0] {
        no_later(a.skip(1), b.skip(1))
    } else {
        a[0] < b[0]
    }
}

/// In the order of their names.
pub open spec fn by_name(c: Seq<Counters>) -> bool {
    forall|i: int, j: int|
        0 <= i < j < c.len() ==> no_later((#[trigger] c[i]).name@, (#[trigger] c[j]).name@)
}

proof fn lemma_no_later_total(a: Seq<char>, b: Seq<char>)
    ensures
        no_later(a, b) || no_later(b, a),
    decreases a.len(),
{
    if a.len() > 0 && b.len() > 0 && a[0] == b[0] {
        lemma_no_later_total(a.skip(1), b.skip(1));
    }
}

proof fn lemma_no_later_chain(a: Seq<char>, b: Seq<char>, c: Seq<char>)
    requires
        no_later(a, b),
        no_later(b, c),
    ensures
        no_later(a, c),
    decreases a.len(),
{
    if a.len() > 0 && b.len() > 0 && c.len() > 0 && a[0] == b[0] && b[0] == c[0] {
        lemma_no_later_chain(a.skip(1), b.skip(1), c.skip(1));
    }
}

fn is_no_later(a: &str, b: &str) -> (r: bool)
    ensures
        r == no_later(a@, b@),
{
    let x = text::chars_of(a);
    let y = text::chars_of(b);
    let mut i: usize = 0;
    assert(x@.skip(0) =~= x@);
    assert(y@.skip(0) =~= y@);
    while i < x.len() && i < y.len()
        invariant
            x@ == a@,
            y@ == b@,
            i <= x@.len(),
            i <= y@.len(),
            no_later(x@.skip(i as int), y@.skip(i as int)) == no_later(x@, y@),
        decreases x@.len() - i,
    {
        let p: char = x[i];
        let q: char = y[i];
        if p != q {
            return p < q;
        }
        assert(x@.skip(i as int).skip(1) =~= x@.skip(i + 1));
        assert(y@.skip(i as int).skip(1) =~= y@.skip(i + 1));
        i = i + 1;
    }
    i == x.len()
}

/// Insert into a list that is in order, behind everything that is no later.
fn insert_by_name(v: &mut Vec<Counters>, c: Counters)
    requires
        by_name(old(v)@),
    ensures
        by_name(final(v)@),
        final(v)@.to_multiset() == old(v)@.to_multiset().insert(c),
{
    let mut i: usize = v.len();
    while i > 0 && !is_no_later(v[i - 1].name, c.name)
        invariant
            i <= v@.len(),
            v@ == old(v)@,
            by_name(v@),
            forall|k: int| i <= k < v@.len() ==> no_later(c.name@, (#[trigger] v@[k]).name@),
        decreases i,
    {
        proof {
            lemma_no_later_total(v@[i - 1].name@, c.name@);
        }
        i = i - 1;
    }
    let ghost before = v@;
    proof {
        assert forall|k: int| 0 <= k < i implies no_later((#[trigger] before[k]).name@, c.name@) by {
            if k < i - 1 {
                lemma_no_later_chain(before[k].name@, before[i - 1].name@, c.name@);
            }
        }
        before.to_multiset_ensures();
        vstd::seq_lib::to_multiset_insert(before, i as int, c);
    }
    v.insert(i, c);
}

impl Counters {
    /// A line of the report: the name, the rate as text, and the losses, in
    /// columns.
    pub open spec fn shown(self, hz: Seq<char>) -> Seq<char> {
        padded_right(self.name@, 16) + " "@ + padded_left(hz, 7) + " Hz   lost "@ + padded_left(
            text::dec(self.lost as nat),
            4,
        )
    }

    pub fn line(&self, hz: &str) -> (s: String)
        ensures
            s@ == self.shown(hz@),
    {
        let mut s = String::new();
        let name = text::chars_of(self.name);
        text::push_chars(&mut s, name.as_slice());
        push_spaces(&mut s, name.len(), 16);
        assert(s@ =~= padded_right(self.name@, 16));
        text::push_str(&mut s, " ");
        let rate = text::chars_of(hz);
        push_spaces(&mut s, rate.len(), 7);
        text::push_chars(&mut s, rate.as_slice());
        assert(s@ =~= padded_right(self.name@, 16) + " "@ + padded_left(hz@, 7));
        text::push_str(&mut s, " Hz   lost ");
        let lost = text::dec_chars(self.lost as u64);
        push_spaces(&mut s, lost.len(), 4);
        text::push_chars(&mut s, lost.as_slice());
        assert(s@ =~= self.shown(hz@));
        s
    }
}

/// The spaces that fill a text of some length up to a width.
pub open spec fn filling(len: nat, width: nat) -> Seq<char> {
    if len < width {
        Seq::new((width - len) as nat, |i: int| ' ')
    } else {
        Seq::empty()
    }
}

/// A text filled up on the right.
pub open spec fn padded_right(s: Seq<char>, width: nat) -> Seq<char> {
    s + filling(s.len(), width)
}

/// A text filled up on the left.
pub open spec fn padded_left(s: Seq<char>, width: nat) -> Seq<char> {
    filling(s.len(), width) + s
}

pub fn push_spaces(s: &mut String, len: usize, width: usize)
    ensures
        final(s)@ == old(s)@ + filling(len as nat, width as nat),
{
    let mut i: usize = len;
    assert(s@ =~= old(s)@ + filling(len as nat, len as nat));
    while i < width
        invariant
            len <= i,
            i <= width || i == len,
            s@ == old(s)@ + filling(len as nat, i as nat),
        decreases width - i,
    {
        s.push(' ');
        i = i + 1;
        assert(s@ =~= old(s)@ + filling(len as nat, i as nat));
    }
    assert(filling(len as nat, i as nat) =~= filling(len as nat, width as nat));
}

/// Frames in sequence lose nothing, over the wraparound of the numbers too; a
/// small gap is counted in full, and a restart not at all.
pub proof fn law_losses(prev: u16, seq: u16)
    ensures
        seq == (prev + 1) % 0x1_0000 ==> missing(prev, seq) == 0,
        seq == prev ==> missing(prev, seq) == 0,
        forall|n: int|
            1 <= n < RESTART_THRESHOLD - 1 && seq == #[trigger] ((prev + 1 + n) % 0x1_0000)
                ==> missing(prev, seq) == n,
        missing(prev, seq) < RESTART_THRESHOLD,
{
}

/// One more frame is one more in the count of its type, with what is missing
/// before it; it is the first of its type, or is added to the others. No other
/// type changes, and the number is the one that the next is held against.
#[verifier::rlimit(40)]
pub proof fn law_frames_are_counted(
    t: RateTracker,
    type_id: u16,
    name: &'static str,
    seq: u16,
    i: int,
)
    requires
        t.wf(),
        0 <= i < t.counters@.len(),
    ensures
        ({
            let now = t.counted(type_id, name, seq);
            let (was, is) = (t.counters@[i], now[i]);
            let seen = t.last_seq@.contains_key(type_id);
            let ahead = (seq - t.last_seq@[type_id]) % 0x1_0000;
            &&& was.type_id != type_id ==> is == was
            &&& was.type_id == type_id ==> {
                &&& now.len() == t.counters@.len()
                &&& is.type_id == was.type_id && is.name == was.name
                &&& was.frames < u32::MAX ==> is.frames == was.frames + 1
                &&& !seen ==> is.lost == was.lost
                &&& seen && 1 <= ahead <= 999 && was.lost + ahead - 1 <= u32::MAX ==> is.lost
                    == was.lost + ahead - 1
                &&& seen && (ahead == 0 || ahead >= 1000) ==> is.lost == was.lost
            }
        }),
        t.remembered(type_id, seq).contains_pair(type_id, seq),
        forall|id: u16|
            id != type_id ==> (#[trigger] t.remembered(type_id, seq).contains_key(id)
                == t.last_seq@.contains_key(id)) && t.remembered(type_id, seq)[id]
                == t.last_seq@[id],
{
    lemma_place(t.counters@, type_id);
}

/// The first frame of a type in a window opens a count for it, behind the
/// others.
pub proof fn law_first_frames_are_counted(
    t: RateTracker,
    type_id: u16,
    name: &'static str,
    seq: u16,
)
    requires
        forall|i: int| 0 <= i < t.counters@.len() ==> (#[trigger] t.counters@[i]).type_id
            != type_id,
    ensures
        ({
            let now = t.counted(type_id, name, seq);
            let seen = t.last_seq@.contains_key(type_id);
            let ahead = (seq - t.last_seq@[type_id]) % 0x1_0000;
            &&& now.len() == t.counters@.len() + 1
            &&& now.drop_last() == t.counters@
            &&& now.last().type_id == type_id && now.last().name == name
            &&& now.last().frames == 1
            &&& !seen ==> now.last().lost == 0
            &&& seen && 1 <= ahead <= 999 ==> now.last().lost == ahead - 1
            &&& seen && (ahead == 0 || ahead >= 1000) ==> now.last().lost == 0
        }),
{
    lemma_place(t.counters@, type_id);
    assert(t.counted(type_id, name, seq).drop_last() =~= t.counters@);
}

proof fn lemma_place(counters: Seq<Counters>, type_id: u16)
    ensures
        place(counters, type_id) matches Some(i) ==> 0 <= i < counters.len() && counters[i].type_id
            == type_id,
        place(counters, type_id) is None ==> forall|i: int|
            0 <= i < counters.len() ==> (#[trigger] counters[i]).type_id != type_id,
    decreases counters.len(),
{
    if counters.len() > 0 {
        lemma_place(counters.drop_last(), type_id);
        if place(counters, type_id) is None {
            lemma_not_there(counters, type_id);
        }
    }
}

/// Names are in the order of a dictionary: the first letter in which two differ
/// decides, and a name stands before its continuations.
pub proof fn law_order_of_names(p: Seq<char>, x: char, y: char, u: Seq<char>, v: Seq<char>)
    requires
        x != y,
    ensures
        no_later(p + seq![x] + u, p + seq![y] + v) <==> x < y,
        no_later(p, p + v),
        !no_later(p + seq![x] + u, p),
    decreases p.len(),
{
    let (a, b, c) = (p + seq![x] + u, p + seq![y] + v, p + v);
    if p.len() > 0 {
        let q = p.skip(1);
        law_order_of_names(q, x, y, u, v);
        assert(a.skip(1) =~= q + seq![x] + u);
        assert(b.skip(1) =~= q + seq![y] + v);
        assert(c.skip(1) =~= q + v);
        assert(a[0] == p[0] && b[0] == p[0] && c[0] == p[0]);
    } else {
        assert(a[0] == x && b[0] == y);
    }
}

/// A line of the report stands in columns: the name at the left of the first
/// sixteen characters, the rate at the right of the next eight, and the losses
/// at the right end.
#[verifier::rlimit(40)]
pub proof fn law_report_lines(c: Counters, hz: Seq<char>)
    requires
        c.name@.len() <= 16,
        hz.len() <= 7,
        text::dec(c.lost as nat).len() <= 4,
    ensures
        ({
            let line = c.shown(hz);
            let lost = text::dec(c.lost as nat);
            &&& line.len() == 39
            &&& line.take(c.name@.len() as int) == c.name@
            &&& forall|i: int| c.name@.len() <= i < 24 - hz.len() ==> #[trigger] line[i] == ' '
            &&& line.subrange(24 - hz.len(), 24) == hz
            &&& line.subrange(24, 35) == " Hz   lost "@
            &&& forall|i: int| 35 <= i < 39 - lost.len() ==> #[trigger] line[i] == ' '
            &&& line.skip(39 - lost.len()) == lost
        }),
{
    reveal_strlit(" ");
    reveal_strlit(" Hz   lost ");
    let line = c.shown(hz);
    let lost = text::dec(c.lost as nat);
    assert(" Hz   lost "@.len() == 11);
    assert(line.take(c.name@.len() as int) =~= c.name@);
    assert(line.subrange(24 - hz.len(), 24) =~= hz);
    assert(line.subrange(24, 35) =~= " Hz   lost "@);
    assert(line.skip(39 - lost.len()) =~= lost);
}

} // verus!
