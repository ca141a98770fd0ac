//! Where a run is logged: `run_NNN_<stamp>` below a common root, numbered from
//! what is there already.

use crate::calendar;
use crate::text;
use vstd::prelude::*;
use vstd::slice::slice_subrange;

verus! {

/// The number of a run, from the name of its directory: the three digits
/// behind `run_`.
pub open spec fn run_number(name: Seq<char>) -> Option<nat> {
    if "run_"@.is_prefix_of(name) && name.len() >= 7 {
        text::plain_number(name.subrange(4, 7))
    } else {
        None
    }
}

/// The highest number among the names of directories.
pub open spec fn highest(names: Seq<Seq<char>>) -> Option<nat>
    decreases names.len(),
{
    if names.len() == 0 {
        None
    } else {
        match (highest(names.drop_last()), run_number(names.last())) {
            (None, n) => n,
            (n, None) => n,
            (Some(a), Some(b)) => Some(
                if a < b {
                    b
                } else {
                    a
                },
            ),
        }
    }
}

/// The number of the next run.
pub open spec fn next_number(names: Seq<Seq<char>>) -> nat {
    match highest(names) {
        None => 1,
        Some(n) => n + 1,
    }
}

fn read_run_number(name: &str) -> (r: Option<u32>)
    ensures
        match r {
            Some(n) => run_number(name@) == Some(n as nat) && n < 1000,
            None => run_number(name@) is None,
        },
{
    let chars = text::chars_of(name);
    let prefix = text::chars_of("run_");
    proof {
        reveal_strlit("run_");
    }
    if !text::starts_with(chars.as_slice(), prefix.as_slice()) || chars.len() < 7 {
        return None;
    }
    let digits = slice_subrange(chars.as_slice(), 4, 7);
    assert(digits@ =~= name@.subrange(4, 7));
    text::parse_plain(digits)
}

/// The number of the next run: one higher than the highest there is, and one
/// where there is none.
pub fn next_run_number(existing_dir_names: &Vec<String>) -> (r: u32)
    ensures
        r == next_number(text::texts(existing_dir_names@)),
        1 <= r <= 1000,
{
    let mut best: Option<u32> = None;
    let mut i: usize = 0;
    let ghost names = text::texts(existing_dir_names@);
    assert(names.take(0) =~= Seq::empty());
    while i < existing_dir_names.len()
        invariant
            i <= existing_dir_names@.len(),
            names == text::texts(existing_dir_names@),
            match best {
                Some(n) => highest(names.take(i as int)) == Some(n as nat) && n < 1000,
                None => highest(names.take(i as int)) is None,
            },
        decreases existing_dir_names@.len() - i,
    {
        assert(names.take(i + 1).drop_last() =~= names.take(i as int));
        let found = read_run_number(existing_dir_names[i].as_str());
        best = match (best, found) {
            (None, n) => n,
            (n, None) => n,
            (Some(a), Some(b)) => Some(
                if a < b {
                    b
                } else {
                    a
                },
            ),
        };
        i = i + 1;
    }
    assert(names.take(i as int) =~= names);
    match best {
        None => 1,
        Some(n) => n + 1,
    }
}

/// A date and a time of day as `YYYYMMDD_HHMMSS`.
pub open spec fn stamp_of(y: nat, m: nat, d: nat, hour: nat, minute: nat, second: nat) -> Seq<char> {
    text::dec_padded(y, 4) + text::dec_padded(m, 2) + text::dec_padded(d, 2) + seq!['_']
        + text::dec_padded(hour, 2) + text::dec_padded(minute, 2) + text::dec_padded(second, 2)
}

/// The stamp of an instant, in seconds since the epoch.
pub open spec fn stamp(unix_s: nat) -> Seq<char> {
    let (y, m, d) = calendar::date_of_day((unix_s / 86_400) as int);
    let s = unix_s % 86_400;
    stamp_of(y as nat, m as nat, d as nat, s / 3600, s % 3600 / 60, s % 60)
}

/// The last second of the year 9999: the last instant with a year of four
/// digits.
pub const LAST_FOUR_DIGIT_SECOND: u64 = 253_402_300_799;

/// Format an instant, in seconds since the epoch.
pub fn format_run_timestamp(unix_s: u64) -> (r: String)
    ensures
        r@ == stamp(unix_s as nat),
{
    let days: i64 = (unix_s / 86_400) as i64;
    let secs_of_day: u64 = unix_s % 86_400;
    let (y, m, d) = calendar::civil_from_days(days);
    let mut s = String::new();
    text::push_dec_padded(&mut s, y as u64, 4);
    text::push_dec_padded(&mut s, m as u64, 2);
    text::push_dec_padded(&mut s, d as u64, 2);
    s.push('_');
    text::push_dec_padded(&mut s, secs_of_day / 3600, 2);
    text::push_dec_padded(&mut s, secs_of_day % 3600 / 60, 2);
    text::push_dec_padded(&mut s, secs_of_day % 60, 2);
    assert(s@ =~= stamp(unix_s as nat));
    s
}

/// The name of a run's directory.
pub open spec fn dir_name(run_number: nat, unix_s: nat) -> Seq<char> {
    "run_"@ + text::dec_padded(run_number, 3) + seq!['_'] + stamp(unix_s)
}

pub fn run_dir_name(run_number: u32, unix_s: u64) -> (r: String)
    ensures
        r@ == dir_name(run_number as nat, unix_s as nat),
{
    let mut s = text::owned("run_");
    text::push_dec_padded(&mut s, run_number as u64, 3);
    s.push('_');
    let t = format_run_timestamp(unix_s);
    text::push_str(&mut s, t.as_str());
    assert(s@ =~= dir_name(run_number as nat, unix_s as nat));
    s
}

/// A name below a root directory.
pub open spec fn below(root: Seq<char>, name: Seq<char>) -> Seq<char> {
    if root.len() == 0 || root.last() == '/' {
        root + name
    } else {
        root + seq!['/'] + name
    }
}

/// Where a run is logged: where the environment says, or else in the next
/// directory below the root.
pub open spec fn run_path(
    env_override: Option<Seq<char>>,
    runs_root: Seq<char>,
    names: Seq<Seq<char>>,
    unix_s: nat,
) -> Seq<char> {
    match env_override {
        Some(p) => if p.len() > 0 {
            p
        } else {
            below(runs_root, dir_name(next_number(names), unix_s))
        },
        None => below(runs_root, dir_name(next_number(names), unix_s)),
    }
}

/// Decide where a run is logged.
pub fn resolve_run_dir_path(
    env_override: Option<&str>,
    runs_root: &str,
    existing_dir_names: &Vec<String>,
    unix_s: u64,
) -> (r: String)
    ensures
        r@ == run_path(
            match env_override {
                Some(p) => Some(p@),
                None => None,
            },
            runs_root@,
            text::texts(existing_dir_names@),
            unix_s as nat,
        ),
{
    if let Some(p) = env_override {
        let chars = text::chars_of(p);
        if chars.len() > 0 {
            return text::owned(p);
        }
    }
    let name = run_dir_name(next_run_number(existing_dir_names), unix_s);
    let root = text::chars_of(runs_root);
    let mut s = text::owned(runs_root);
    if root.len() > 0 && root[root.len() - 1] != '/' {
        s.push('/');
    }
    text::push_str(&mut s, name.as_str());
    assert(s@ =~= below(
        runs_root@,
        dir_name(next_number(text::texts(existing_dir_names@)), unix_s as nat),
    ));
    s
}

/// The directory of a run, which exists only from the first file on.
pub struct RunDir {
    pub path: String,
    pub created: bool,
}

impl RunDir {
    /// Decide where this run is logged, without creating anything.
    pub fn resolve(
        env_override: Option<&str>,
        runs_root: &str,
        existing_dir_names: &Vec<String>,
        unix_s: u64,
    ) -> (r: Self)
        ensures
            !r.created,
            r.path@ == run_path(
                match env_override {
                    Some(p) => Some(p@),
                    None => None,
                },
                runs_root@,
                text::texts(existing_dir_names@),
                unix_s as nat,
            ),
    {
        RunDir {
            path: resolve_run_dir_path(env_override, runs_root, existing_dir_names, unix_s),
            created: false,
        }
    }

    pub fn path(&self) -> (p: &str)
        ensures
            p@ == self.path@,
    {
        self.path.as_str()
    }

    /// Where a file of this run lies.
    pub fn file(&self, filename: &str) -> (p: String)
        ensures
            p@ == below(self.path@, filename@),
    {
        let chars = text::chars_of(self.path.as_str());
        let mut s = text::owned(self.path.as_str());
        if chars.len() > 0 && chars[chars.len() - 1] != '/' {
            s.push('/');
        }
        text::push_str(&mut s, filename);
        assert(s@ =~= below(self.path@, filename@));
        s
    }

    /// Whether the directory has yet to be created.
    pub fn wants_dir(&self) -> (r: bool)
        ensures
            r == !self.created,
    {
        !self.created
    }

    /// The directory has been created.
    pub fn on_dir_created(&mut self)
        ensures
            final(self).created,
            final(self).path@ == old(self).path@,
    {
        self.created = true;
    }
}

proof fn lemma_highest_covers(names: Seq<Seq<char>>, i: int)
    requires
        0 <= i < names.len(),
    ensures
        run_number(names[i]) matches Some(n) ==> (highest(names) matches Some(h) && n <= h),
    decreases names.len(),
{
    if i < names.len() - 1 {
        lemma_highest_covers(names.drop_last(), i);
        assert(names.drop_last()[i] == names[i]);
    }
}

/// A new run never takes the number of one that is there.
pub proof fn law_numbers_are_fresh(names: Seq<Seq<char>>, i: int)
    requires
        0 <= i < names.len(),
    ensures
        run_number(names[i]) matches Some(n) ==> n < next_number(names),
{
    lemma_highest_covers(names, i);
}

/// The name of a run tells its number, for every number that has three digits.
pub proof fn law_names_tell_their_number(n: nat, unix_s: nat)
    requires
        n < 1000,
    ensures
        run_number(dir_name(n, unix_s)) == Some(n),
{
    reveal_strlit("run_");
    text::lemma_dec_width(n);
    text::law_padded_reads_back(n, 3);
    let name = dir_name(n, unix_s);
    assert(name.subrange(0, 4) =~= "run_"@);
    assert(name.subrange(4, 7) =~= text::dec_padded(n, 3));
}

/// A field and what follows it sort by the field, and by what follows where the
/// fields are alike.
proof fn lemma_field_sorts(a: nat, b: nat, width: nat, u: Seq<char>, v: Seq<char>)
    requires
        text::dec(a).len() <= width,
        text::dec(b).len() <= width,
        a < b || (a == b && text::before(u, v)),
    ensures
        text::before(text::dec_padded(a, width) + u, text::dec_padded(b, width) + v),
{
    if a < b {
        text::law_padded_reads_back(a, width);
        text::law_padded_reads_back(b, width);
        text::law_padded_sorts(a, b, width);
        text::lemma_before_by_prefix(text::dec_padded(a, width), text::dec_padded(b, width), u, v);
    } else {
        text::lemma_before_by_rest(text::dec_padded(a, width), u, v);
    }
}

/// The part of a stamp behind the date.
spec fn clock_part(f: Seq<nat>) -> Seq<char> {
    text::dec_padded(f[3], 2) + (text::dec_padded(f[4], 2) + (text::dec_padded(f[5], 2)
        + Seq::empty()))
}

/// The stamp of six fields, from the left.
spec fn stamp_parts(f: Seq<nat>) -> Seq<char> {
    text::dec_padded(f[0], 4) + (text::dec_padded(f[1], 2) + (text::dec_padded(f[2], 2) + (seq!['_']
        + clock_part(f))))
}

proof fn lemma_stamp_parts(f: Seq<nat>)
    ensures
        stamp_parts(f) == stamp_of(f[0], f[1], f[2], f[3], f[4], f[5]),
{
    assert(stamp_parts(f) =~= stamp_of(f[0], f[1], f[2], f[3], f[4], f[5]));
}

/// Stamps of one width sort as their fields do: the first that differs, from `k`
/// on, decides.
spec fn fields_in_order(f: Seq<nat>, g: Seq<nat>, k: int) -> bool
    decreases 6 - k,
{
    k < 6 && (f[k] < g[k] || (f[k] == g[k] && fields_in_order(f, g, k + 1)))
}

spec fn narrow(f: Seq<nat>) -> bool {
    &&& f.len() == 6
    &&& f[0] < 10_000
    &&& forall|i: int| 1 <= i < 6 ==> #[trigger] f[i] < 100
}

proof fn lemma_widths(f: Seq<nat>)
    requires
        narrow(f),
    ensures
        text::dec(f[0]).len() <= 4,
        forall|i: int| 1 <= i < 6 ==> text::dec(#[trigger] f[i]).len() <= 2,
{
    text::lemma_dec_width(f[0]);
    assert forall|i: int| 1 <= i < 6 implies text::dec(#[trigger] f[i]).len() <= 2 by {
        text::lemma_dec_width(f[i]);
    }
}

proof fn lemma_clocks_sort(f: Seq<nat>, g: Seq<nat>)
    requires
        narrow(f),
        narrow(g),
        fields_in_order(f, g, 3),
    ensures
        text::before(clock_part(f), clock_part(g)),
{
    reveal_with_fuel(fields_in_order, 4);
    lemma_widths(f);
    lemma_widths(g);
    let none = Seq::<char>::empty();
    let u = text::dec_padded(f[5], 2) + none;
    let v = text::dec_padded(g[5], 2) + none;
    if fields_in_order(f, g, 5) {
        lemma_field_sorts(f[5], g[5], 2, none, none);
    }
    let p = text::dec_padded(f[4], 2) + u;
    let q = text::dec_padded(g[4], 2) + v;
    if fields_in_order(f, g, 4) {
        lemma_field_sorts(f[4], g[4], 2, u, v);
    }
    lemma_field_sorts(f[3], g[3], 2, p, q);
}

proof fn lemma_stamps_sort(f: Seq<nat>, g: Seq<nat>)
    requires
        narrow(f),
        narrow(g),
        fields_in_order(f, g, 0),
    ensures
        text::before(stamp_parts(f), stamp_parts(g)),
{
    reveal_with_fuel(fields_in_order, 4);
    lemma_widths(f);
    lemma_widths(g);
    let c = seq!['_'] + clock_part(f);
    let e = seq!['_'] + clock_part(g);
    if fields_in_order(f, g, 3) {
        lemma_clocks_sort(f, g);
        text::lemma_before_by_rest(seq!['_'], clock_part(f), clock_part(g));
    }
    let u = text::dec_padded(f[2], 2) + c;
    let v = text::dec_padded(g[2], 2) + e;
    if fields_in_order(f, g, 2) {
        lemma_field_sorts(f[2], g[2], 2, c, e);
    }
    let p = text::dec_padded(f[1], 2) + u;
    let q = text::dec_padded(g[1], 2) + v;
    if fields_in_order(f, g, 1) {
        lemma_field_sorts(f[1], g[1], 2, u, v);
    }
    lemma_field_sorts(f[0], g[0], 4, p, q);
}

/// The fields of the stamp of an instant.
spec fn stamp_fields(unix_s: nat) -> Seq<nat> {
    let (y, m, d) = calendar::date_of_day((unix_s / 86_400) as int);
    let s = unix_s % 86_400;
    seq![y as nat, m as nat, d as nat, s / 3600, s % 3600 / 60, s % 60]
}

proof fn lemma_stamp_fields(unix_s: nat)
    requires
        unix_s <= LAST_FOUR_DIGIT_SECOND,
    ensures
        ({
            let f = stamp_fields(unix_s);
            let (y, m, d) = calendar::date_of_day((unix_s / 86_400) as int);
            &&& stamp(unix_s) == stamp_of(f[0], f[1], f[2], f[3], f[4], f[5])
            &&& 1970 <= y < 10_000
            &&& calendar::is_date(y, m, d)
            &&& f[3] < 24 && f[4] < 60 && f[5] < 60
        }),
{
    let z = (unix_s / 86_400) as int;
    calendar::law_every_day_has_a_date(z);
    let (y, m, d) = calendar::date_of_day(z);
    calendar::law_days_are_consecutive(9999, 12);
    if y < 1970 {
        calendar::law_dates_in_order(y, m, d, 1970, 1, 1);
    }
    if y >= 10_000 {
        if (y, m, d) != (10_000int, 1int, 1int) {
            calendar::law_dates_in_order(10_000, 1, 1, y, m, d);
        }
        assert(calendar::day_number(10_000, 1, 1) == 2_932_897);
    }
}

/// A stamp has one width, fifteen characters, and its fields read back, for
/// every date with a year of four digits.
pub proof fn law_stamp_reads_back(y: nat, m: nat, d: nat, hour: nat, minute: nat, second: nat)
    requires
        y < 10_000,
        calendar::is_date(y as int, m as int, d as int),
        hour < 24,
        minute < 60,
        second < 60,
    ensures
        ({
            let t = stamp_of(y, m, d, hour, minute, second);
            &&& t.len() == 15
            &&& text::plain_number(t.subrange(0, 4)) == Some(y)
            &&& text::plain_number(t.subrange(4, 6)) == Some(m)
            &&& text::plain_number(t.subrange(6, 8)) == Some(d)
            &&& t[8] == '_'
            &&& text::plain_number(t.subrange(9, 11)) == Some(hour)
            &&& text::plain_number(t.subrange(11, 13)) == Some(minute)
            &&& text::plain_number(t.subrange(13, 15)) == Some(second)
        }),
{
    let t = stamp_of(y, m, d, hour, minute, second);
    text::lemma_dec_width(y);
    text::lemma_dec_width(m);
    text::lemma_dec_width(d);
    text::lemma_dec_width(hour);
    text::lemma_dec_width(minute);
    text::lemma_dec_width(second);
    text::law_padded_reads_back(y, 4);
    text::law_padded_reads_back(m, 2);
    text::law_padded_reads_back(d, 2);
    text::law_padded_reads_back(hour, 2);
    text::law_padded_reads_back(minute, 2);
    text::law_padded_reads_back(second, 2);
    assert(t.subrange(0, 4) =~= text::dec_padded(y, 4));
    assert(t.subrange(4, 6) =~= text::dec_padded(m, 2));
    assert(t.subrange(6, 8) =~= text::dec_padded(d, 2));
    assert(t.subrange(9, 11) =~= text::dec_padded(hour, 2));
    assert(t.subrange(11, 13) =~= text::dec_padded(minute, 2));
    assert(t.subrange(13, 15) =~= text::dec_padded(second, 2));
}

/// A later second of a day has a later time of day.
proof fn lemma_clock_order(s: nat, t: nat)
    requires
        s < t < 86_400,
    ensures
        s / 3600 < t / 3600 || (s / 3600 == t / 3600 && (s % 3600 / 60 < t % 3600 / 60 || (s % 3600
            / 60 == t % 3600 / 60 && s % 60 < t % 60))),
{
    assert(s / 3600 <= t / 3600);
    if s / 3600 == t / 3600 {
        assert(s % 3600 < t % 3600);
        assert(s % 60 == s % 3600 % 60);
        assert(t % 60 == t % 3600 % 60);
    }
}

proof fn lemma_fields_follow_time(a: nat, b: nat)
    requires
        a < b <= LAST_FOUR_DIGIT_SECOND,
    ensures
        fields_in_order(stamp_fields(a), stamp_fields(b), 0),
{
    lemma_stamp_fields(a);
    lemma_stamp_fields(b);
    let f = stamp_fields(a);
    let g = stamp_fields(b);
    reveal_with_fuel(fields_in_order, 7);
    if a / 86_400 < b / 86_400 {
        calendar::law_days_in_order((a / 86_400) as int, (b / 86_400) as int);
    } else {
        assert(a / 86_400 == b / 86_400);
        lemma_clock_order(a % 86_400, b % 86_400);
    }
}

/// Stamps sort by time: of two instants up to the end of the year 9999, the
/// earlier one's stamp comes first, character by character, and every stamp is
/// fifteen characters wide.
pub proof fn law_stamps_sort_by_time(a: nat, b: nat)
    requires
        a < b <= LAST_FOUR_DIGIT_SECOND,
    ensures
        stamp(a).len() == 15,
        stamp(b).len() == 15,
        text::before(stamp(a), stamp(b)),
{
    lemma_stamp_fields(a);
    lemma_stamp_fields(b);
    let f = stamp_fields(a);
    let g = stamp_fields(b);
    law_stamp_reads_back(f[0], f[1], f[2], f[3], f[4], f[5]);
    law_stamp_reads_back(g[0], g[1], g[2], g[3], g[4], g[5]);
    lemma_fields_follow_time(a, b);
    lemma_stamp_parts(f);
    lemma_stamp_parts(g);
    lemma_stamps_sort(f, g);
}

/// The day and the time of day of an instant, in whole seconds.
proof fn lemma_seconds(z: int, hour: nat, minute: nat, second: nat)
    requires
        z >= 0,
        hour < 24,
        minute < 60,
        second < 60,
    ensures
        ({
            let ms = z * 86_400_000 + (hour * 60 + minute) * 60_000 + second * 1000;
            let t = ms / 1000;
            &&& t / 86_400 == z
            &&& t % 86_400 / 3600 == hour
            &&& t % 86_400 % 3600 / 60 == minute
            &&& t % 86_400 % 60 == second
        }),
{
    let ms = z * 86_400_000 + (hour * 60 + minute) * 60_000 + second * 1000;
    let in_day = hour * 3600 + minute * 60 + second;
    assert(ms == (z * 86_400 + in_day) * 1000);
    assert(ms / 1000 == z * 86_400 + in_day);
    assert((z * 86_400 + in_day) % 86_400 == in_day);
}

/// A stamp gives back the date and the time of day that an instant was made
/// from: what the calendar turns into an instant is formatted as itself, for
/// every date whose instant fits.
pub proof fn law_stamp_gives_back_the_date(
    y: nat,
    m: nat,
    d: nat,
    hour: nat,
    minute: nat,
    second: nat,
    reading: crate::reals::Real64,
)
    requires
        y >= 1970,
        calendar::is_date(y as int, m as int, d as int),
        hour < 24,
        minute < 60,
        second < 60,
        crate::reals::Real64(0).at_most(reading),
        reading.below(crate::reals::Real64(calendar::SIXTY)),
        calendar::day_number(y as int, m as int, d as int) * calendar::DAY_MS + (hour * 3600 + minute
            * 60 + second) * 1000 <= u64::MAX,
    ensures
        calendar::instant(
            y as int,
            m as int,
            d as int,
            hour as int,
            minute as int,
            reading,
            (second * 1000) as int,
        ) matches Some(ms) && stamp((ms / 1000) as nat) == stamp_of(y, m, d, hour, minute, second),
{
    let z = calendar::day_number(y as int, m as int, d as int);
    calendar::law_date_comes_back(y as int, m as int, d as int);
    calendar::law_days_are_consecutive(1970, 1);
    if (y, m, d) != (1970nat, 1nat, 1nat) {
        calendar::law_dates_in_order(1970, 1, 1, y as int, m as int, d as int);
    }
    lemma_seconds(z, hour, minute, second);
}

/// The next number is one above a number that is there, the highest; where no
/// name has one it is one.
pub proof fn law_numbers_count_on(names: Seq<Seq<char>>)
    ensures
        highest(names) is None <==> forall|i: int|
            0 <= i < names.len() ==> run_number(#[trigger] names[i]) is None,
        highest(names) is None ==> next_number(names) == 1,
        highest(names) matches Some(h) ==> next_number(names) == h + 1 && exists|i: int|
            0 <= i < names.len() && run_number(#[trigger] names[i]) == Some(h),
    decreases names.len(),
{
    if names.len() > 0 {
        let front = names.drop_last();
        law_numbers_count_on(front);
        assert(forall|i: int| 0 <= i < front.len() ==> #[trigger] front[i] == names[i]);
        assert(forall|i: int| 0 <= i < names.len() - 1 ==> #[trigger] names[i] == front[i]);
        assert(names[names.len() - 1] == names.last());
        if let Some(h) = highest(front) {
            let i = choose|i: int|
                0 <= i < front.len() && run_number(#[trigger] front[i]) == Some(h);
            assert(run_number(names[i]) == Some(h));
        }
    }
}

/// A name has a number only behind `run_`, of three digits.
#[verifier::rlimit(40)]
pub proof fn law_only_runs_are_numbered(name: Seq<char>)
    ensures
        run_number(name) matches Some(n) ==> {
            &&& name.len() >= 7
            &&& name[0] == 'r' && name[1] == 'u' && name[2] == 'n' && name[3] == '_'
            &&& text::is_digit(name[4]) && text::is_digit(name[5]) && text::is_digit(name[6])
            &&& n == (name[4] as int - 48) * 100 + (name[5] as int - 48) * 10 + (name[6] as int
                - 48)
        },
{
    reveal_strlit("run_");
    if run_number(name) is Some {
        let d = name.subrange(4, 7);
        assert(name.subrange(0, 4) =~= "run_"@);
        assert("run_"@[0] == name[0] && "run_"@[1] == name[1] && "run_"@[2] == name[2]
            && "run_"@[3] == name[3]);
        assert(d[0] == name[4] && d[1] == name[5] && d[2] == name[6]);
        reveal_with_fuel(text::digits_value, 4);
        assert(d.drop_last().drop_last().drop_last() =~= Seq::<char>::empty());
        assert(d.drop_last().drop_last()[0] == d[0] && d.drop_last()[1] == d[1]);
    }
}

/// A path is the root and the name with one separator between them, which the
/// root may have already; an empty root is none.
#[verifier::rlimit(40)]
pub proof fn law_paths(root: Seq<char>, name: Seq<char>)
    ensures
        root.is_prefix_of(below(root, name)),
        name.is_suffix_of(below(root, name)),
        root.len() == 0 ==> below(root, name) == name,
        root.len() > 0 ==> below(root, name)[below(root, name).len() - name.len() - 1] == '/',
        below(root, name).len() <= root.len() + 1 + name.len(),
        root.len() > 0 && root.last() == '/' ==> below(root, name).len() == root.len() + name.len(),
{
    let p = below(root, name);
    assert(p.subrange(0, root.len() as int) =~= root);
    assert(p.subrange(p.len() - name.len(), p.len() as int) =~= name);
}

/// The environment decides where a run is logged, if it says anything; else it
/// is a directory below the root with the next number and the time.
#[verifier::rlimit(40)]
pub proof fn law_run_paths(
    env_override: Option<Seq<char>>,
    root: Seq<char>,
    names: Seq<Seq<char>>,
    unix_s: nat,
)
    ensures
        env_override matches Some(p) ==> (p.len() > 0 ==> run_path(
            env_override,
            root,
            names,
            unix_s,
        ) == p),
        env_override is None || env_override->0.len() == 0 ==> {
            let path = run_path(env_override, root, names, unix_s);
            &&& root.is_prefix_of(path)
            &&& (text::dec_padded(next_number(names), 3) + seq!['_'] + stamp(unix_s)).is_suffix_of(
                path,
            )
        },
{
    let tail = text::dec_padded(next_number(names), 3) + seq!['_'] + stamp(unix_s);
    let name = dir_name(next_number(names), unix_s);
    law_paths(root, name);
    let path = below(root, name);
    assert(name =~= "run_"@ + tail);
    assert(path.subrange(path.len() - name.len(), path.len() as int) =~= name);
    assert(path.subrange(path.len() - tail.len(), path.len() as int) =~= tail);
}

} // verus!
