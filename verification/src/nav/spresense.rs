//! The JSON lines of the backup receiver.
//!
//! Each line is one flat object, so a value is found by its quoted key: no
//! general JSON is read here. Fractions are read as numbers outside, as in
//! [`crate::nav::nmea`].

use crate::calendar;
use crate::reals::{Real32, Real64};
use crate::text;
use vstd::prelude::*;
use vstd::slice::slice_subrange;

verus! {

/// What follows a character in a text.
pub open spec fn behind(s: Seq<char>, i: int) -> Seq<char> {
    s.skip(i + 1)
}

/// The value that begins a text: what lies between quotes, or else everything
/// up to a comma or a closing brace, without the space around it.
pub open spec fn value_at(val: Seq<char>) -> Option<Seq<char>> {
    if val.len() > 0 && val[0] == '"' {
        match text::first_of(val.skip(1), '"', '"') {
            None => None,
            Some(end) => Some(val.skip(1).take(end)),
        }
    } else {
        match text::first_of(val, ',', '}') {
            None => Some(text::trimmed(val)),
            Some(end) => Some(text::trimmed(val.take(end))),
        }
    }
}

/// The value of a key: what follows the first colon behind the first
/// occurrence of the key in quotes.
pub open spec fn field(json: Seq<char>, key: Seq<char>) -> Option<Seq<char>> {
    let pat = seq!['"'] + key + seq!['"'];
    match text::first_at(json, pat) {
        None => None,
        Some(at) => {
            let after = json.skip(at + pat.len());
            match text::first_of(after, ':', ':') {
                None => None,
                Some(colon) => value_at(text::trimmed_start(behind(after, colon))),
            }
        },
    }
}

fn read_value(val: &[char]) -> (r: Option<&[char]>)
    ensures
        match r {
            Some(v) => value_at(val@) == Some(v@),
            None => value_at(val@) is None,
        },
{
    if val.len() > 0 && val[0] == '"' {
        let rest = slice_subrange(val, 1, val.len());
        assert(rest@ =~= val@.skip(1));
        match text::find_of(rest, '"', '"') {
            None => None,
            Some(end) => {
                let v = slice_subrange(rest, 0, end);
                assert(v@ =~= rest@.take(end as int));
                Some(v)
            },
        }
    } else {
        match text::find_of(val, ',', '}') {
            None => Some(text::trim(val)),
            Some(end) => {
                let v = slice_subrange(val, 0, end);
                assert(v@ =~= val@.take(end as int));
                Some(text::trim(v))
            },
        }
    }
}

fn find_field<'a>(json: &'a [char], key: &str) -> (r: Option<&'a [char]>)
    ensures
        match r {
            Some(v) => field(json@, key@) == Some(v@),
            None => field(json@, key@) is None,
        },
{
    let k = text::chars_of(key);
    let mut pat: Vec<char> = Vec::new();
    pat.push('"');
    let mut i: usize = 0;
    while i < k.len()
        invariant
            i <= k@.len(),
            pat@ == seq!['"'] + k@.take(i as int),
        decreases k@.len() - i,
    {
        pat.push(k[i]);
        i = i + 1;
        assert(k@.take(i as int) =~= k@.take(i - 1).push(k@[i - 1]));
    }
    pat.push('"');
    assert(k@.take(i as int) =~= k@);
    assert(pat@ =~= seq!['"'] + key@ + seq!['"']);
    match text::find(json, pat.as_slice()) {
        None => None,
        Some(at) => {
            let n: usize = json.len();
            let after = slice_subrange(json, at + pat.len(), n);
            assert(after@ =~= json@.skip(at + pat@.len()));
            match text::find_of(after, ':', ':') {
                None => None,
                Some(colon) => {
                    let tail = slice_subrange(after, colon + 1, after.len());
                    assert(tail@ =~= behind(after@, colon as int));
                    read_value(text::trim_start(tail))
                },
            }
        },
    }
}

/// The value of a key in a line, to read a number from.
pub fn field_text(line: &str, key: &str) -> (r: Option<String>)
    ensures
        match r {
            Some(v) => field(line@, key@) == Some(v@),
            None => field(line@, key@) is None,
        },
{
    let chars = text::chars_of(line);
    match find_field(chars.as_slice(), key) {
        None => None,
        Some(v) => Some(text::string_of(v)),
    }
}

/// A required field was missing, or did not read as what it should be.
#[derive(Clone, Copy, Debug, PartialEq, Eq)]
pub enum SpresenseParseError {
    MissingField(&'static str),
    BadValue(&'static str),
}

/// What the fractions of a line read; each is `None` where the field's text is
/// no number.
#[derive(Clone, Copy, Debug, PartialEq, Eq, Structural)]
pub struct SpresenseNumbers {
    pub lat_deg: Option<Real64>,
    pub lon_deg: Option<Real64>,
    pub alt_m: Option<Real32>,
    /// The seconds of the time stamp.
    pub second: Option<Real64>,
    /// The same in whole milliseconds.
    pub second_ms: u64,
}

/// One reading of the backup receiver.
pub struct SpresenseFix {
    pub fix: bool,
    pub num_satellites: u8,
    pub lat_deg: Real64,
    pub lon_deg: Real64,
    pub alt_m: Real32,
    /// The time stamp as it came: a garbled one does not fail the reading.
    pub time_str: String,
}

/// What a reading says.
pub struct SpresenseView {
    pub fix: bool,
    pub num_satellites: u8,
    pub lat_deg: Real64,
    pub lon_deg: Real64,
    pub alt_m: Real32,
    pub time: Seq<char>,
}

impl View for SpresenseFix {
    type V = SpresenseView;

    open spec fn view(&self) -> SpresenseView {
        SpresenseView {
            fix: self.fix,
            num_satellites: self.num_satellites,
            lat_deg: self.lat_deg,
            lon_deg: self.lon_deg,
            alt_m: self.alt_m,
            time: self.time_str@,
        }
    }
}

/// A coordinate of a line: required, and a number.
pub open spec fn required(
    line: Seq<char>,
    key: &'static str,
    reading: Option<Real64>,
) -> Result<Real64, SpresenseParseError> {
    match field(line, key@) {
        None => Err(SpresenseParseError::MissingField(key)),
        Some(_) => match reading {
            None => Err(SpresenseParseError::BadValue(key)),
            Some(v) => Ok(v),
        },
    }
}

/// Whether the line has a fix: required, and `true` or `false`.
pub open spec fn fix_flag(line: Seq<char>) -> Result<bool, SpresenseParseError> {
    match field(line, "fix"@) {
        None => Err(SpresenseParseError::MissingField("fix")),
        Some(v) => if v == "true"@ {
            Ok(true)
        } else if v == "false"@ {
            Ok(false)
        } else {
            Err(SpresenseParseError::BadValue("fix"))
        },
    }
}

/// What a line gives. Position and fix are required; the rest falls back to
/// zero and the empty text.
pub open spec fn read_line(line: Seq<char>, n: SpresenseNumbers) -> Result<
    SpresenseView,
    SpresenseParseError,
> {
    match (
        fix_flag(line),
        required(line, "latitude", n.lat_deg),
        required(line, "longitude", n.lon_deg),
    ) {
        (Err(e), _, _) => Err(e),
        (_, Err(e), _) => Err(e),
        (_, _, Err(e)) => Err(e),
        (Ok(fix), Ok(lat_deg), Ok(lon_deg)) => Ok(
            SpresenseView {
                fix,
                num_satellites: match field(line, "numSatellites"@) {
                    None => 0,
                    Some(v) => match text::unsigned_to(v, 255) {
                        None => 0,
                        Some(k) => k as u8,
                    },
                },
                lat_deg,
                lon_deg,
                alt_m: match (field(line, "altitude"@), n.alt_m) {
                    (Some(_), Some(v)) => v,
                    _ => Real32(0),
                },
                time: match field(line, "time"@) {
                    None => Seq::empty(),
                    Some(v) => v,
                },
            },
        ),
    }
}

/// Parse one line.
pub fn parse_line(line: &str, n: &SpresenseNumbers) -> (r: Result<
    SpresenseFix,
    SpresenseParseError,
>)
    ensures
        match r {
            Ok(f) => read_line(line@, *n) == Ok::<_, SpresenseParseError>(f@),
            Err(e) => read_line(line@, *n) == Err::<SpresenseView, _>(e),
        },
{
    let chars = text::chars_of(line);
    let json = chars.as_slice();
    let fix: bool = match find_field(json, "fix") {
        None => {
            return Err(SpresenseParseError::MissingField("fix"));
        },
        Some(v) => if text::is_word(v, "true") {
            true
        } else if text::is_word(v, "false") {
            false
        } else {
            return Err(SpresenseParseError::BadValue("fix"));
        },
    };
    let lat_deg = match read_required(json, "latitude", n.lat_deg) {
        Ok(v) => v,
        Err(e) => {
            return Err(e);
        },
    };
    let lon_deg = match read_required(json, "longitude", n.lon_deg) {
        Ok(v) => v,
        Err(e) => {
            return Err(e);
        },
    };
    let num_satellites: u8 = match find_field(json, "numSatellites") {
        None => 0,
        Some(v) => match text::parse_unsigned(v, 255) {
            None => 0,
            Some(k) => k as u8,
        },
    };
    let alt_m = match (find_field(json, "altitude"), n.alt_m) {
        (Some(_), Some(v)) => v,
        _ => Real32(0),
    };
    let time_str = match find_field(json, "time") {
        None => String::new(),
        Some(v) => text::string_of(v),
    };
    let f = SpresenseFix { fix, num_satellites, lat_deg, lon_deg, alt_m, time_str };
    assert(field(line@, "time"@) is None ==> f@.time =~= Seq::empty());
    Ok(f)
}

fn read_required(json: &[char], key: &'static str, reading: Option<Real64>) -> (r: Result<
    Real64,
    SpresenseParseError,
>)
    ensures
        r == required(json@, key, reading),
{
    match find_field(json, key) {
        None => Err(SpresenseParseError::MissingField(key)),
        Some(_) => match reading {
            None => Err(SpresenseParseError::BadValue(key)),
            Some(v) => Ok(v),
        },
    }
}

/// Two digits, and maybe a point and more digits.
pub open spec fn is_seconds(t: Seq<char>) -> bool {
    &&& t.len() >= 2
    &&& text::is_digit(t[0])
    &&& text::is_digit(t[1])
    &&& t.len() > 2 ==> t[2] == '.'
    &&& forall|i: int| 3 <= i < t.len() ==> text::is_digit(#[trigger] t[i])
}

/// A time stamp `YYYY-MM-DD HH:MM:SS`; the seconds may have a fraction.
pub open spec fn is_stamp(s: Seq<char>) -> bool {
    &&& s.len() >= 19
    &&& text::is_number(s.subrange(0, 4))
    &&& s[4] == '-'
    &&& text::is_number(s.subrange(5, 7))
    &&& s[7] == '-'
    &&& text::is_number(s.subrange(8, 10))
    &&& s[10] == ' '
    &&& text::is_number(s.subrange(11, 13))
    &&& s[13] == ':'
    &&& text::is_number(s.subrange(14, 16))
    &&& s[16] == ':'
    &&& is_seconds(s.skip(17))
}

/// The text of the seconds of a time stamp.
pub open spec fn seconds_field(s: Seq<char>) -> Option<Seq<char>> {
    if is_stamp(s) {
        Some(s.skip(17))
    } else {
        None
    }
}

/// The instant of a time stamp, from the reading of its seconds; nothing for
/// anything that is no time stamp.
pub open spec fn stamp(s: Seq<char>, second: Option<Real64>, second_ms: int) -> Option<u64> {
    match second {
        Some(sec) => if is_stamp(s) {
            calendar::instant(
                text::digits_value(s.subrange(0, 4)) as int,
                text::digits_value(s.subrange(5, 7)) as int,
                text::digits_value(s.subrange(8, 10)) as int,
                text::digits_value(s.subrange(11, 13)) as int,
                text::digits_value(s.subrange(14, 16)) as int,
                sec,
                second_ms,
            )
        } else {
            None
        },
        None => None,
    }
}

fn has_seconds(t: &[char]) -> (r: bool)
    ensures
        r == is_seconds(t@),
{
    if t.len() < 2 || !text::digit(t[0]) || !text::digit(t[1]) {
        return false;
    }
    if t.len() > 2 && t[2] != '.' {
        return false;
    }
    let mut i: usize = 3;
    while i < t.len()
        invariant
            3 <= i,
            forall|k: int| 3 <= k < i && k < t@.len() ==> text::is_digit(#[trigger] t@[k]),
        decreases t@.len() - i,
    {
        if !text::digit(t[i]) {
            return false;
        }
        i = i + 1;
    }
    true
}

/// A date, hours and minutes.
struct Stamp {
    year: u32,
    month: u32,
    day: u32,
    hour: u32,
    minute: u32,
}

fn read_stamp(c: &[char]) -> (r: Option<Stamp>)
    ensures
        match r {
            Some(t) => is_stamp(c@) && t.year < 10_000 && t.year == text::digits_value(
                c@.subrange(0, 4),
            ) && t.month == text::digits_value(c@.subrange(5, 7)) && t.day == text::digits_value(
                c@.subrange(8, 10),
            ) && t.hour == text::digits_value(c@.subrange(11, 13)) && t.minute
                == text::digits_value(c@.subrange(14, 16)),
            None => !is_stamp(c@),
        },
{
    if c.len() < 19 {
        return None;
    }
    let marks: bool = c[4] == '-' && c[7] == '-' && c[10] == ' ' && c[13] == ':' && c[16] == ':';
    let seconds = slice_subrange(c, 17, c.len());
    assert(seconds@ =~= c@.skip(17));
    if !marks || !has_seconds(seconds) {
        return None;
    }
    let year = text::parse_plain(slice_subrange(c, 0, 4));
    let month = text::parse_plain(slice_subrange(c, 5, 7));
    let day = text::parse_plain(slice_subrange(c, 8, 10));
    let hour = text::parse_plain(slice_subrange(c, 11, 13));
    let minute = text::parse_plain(slice_subrange(c, 14, 16));
    match (year, month, day, hour, minute) {
        (Some(year), Some(month), Some(day), Some(hour), Some(minute)) => Some(
            Stamp { year, month, day, hour, minute },
        ),
        _ => None,
    }
}

/// The text of the seconds of a time stamp, to read a number from.
pub fn seconds_text(s: &str) -> (r: Option<String>)
    ensures
        match r {
            Some(v) => seconds_field(s@) == Some(v@),
            None => seconds_field(s@) is None,
        },
{
    let chars = text::chars_of(s);
    let c = chars.as_slice();
    match read_stamp(c) {
        None => None,
        Some(_) => {
            let seconds = slice_subrange(c, 17, c.len());
            assert(seconds@ =~= c@.skip(17));
            Some(text::string_of(seconds))
        },
    }
}

/// The instant of a time stamp; nothing for anything that is none.
pub fn parse_spresense_datetime(s: &str, second: Option<Real64>, second_ms: u64) -> (r: Option<u64>)
    requires
        second_ms <= 60_000,
    ensures
        r == stamp(s@, second, second_ms as int),
{
    let chars = text::chars_of(s);
    match (read_stamp(chars.as_slice()), second) {
        (Some(t), Some(sec)) => calendar::civil_to_unix_ms(
            t.year as i32,
            t.month,
            t.day,
            t.hour,
            t.minute,
            sec,
            second_ms,
        ),
        _ => None,
    }
}

/// A bare value is found by its key, wherever in the line it stands: up to the
/// comma or the brace behind it.
#[verifier::rlimit(40)]
pub proof fn law_bare_values_are_found(
    front: Seq<char>,
    key: Seq<char>,
    value: Seq<char>,
    end: char,
    rest: Seq<char>,
)
    requires
        end == ',' || end == '}',
        forall|i: int| 0 <= i < value.len() ==> (#[trigger] value[i]) != ',' && value[i] != '}'
            && value[i] != '"',
        value.len() > 0 ==> !text::is_space(value[0]) && !text::is_space(value.last()),
        first_key(front, key, value + seq![end] + rest),
    ensures
        field(keyed(front, key, value + seq![end] + rest), key) == Some(value),
{
    let tail = value + seq![end] + rest;
    lemma_value_behind(front, key, tail);
    assert(tail[value.len() as int] == end);
    assert(forall|j: int| 0 <= j < value.len() ==> #[trigger] tail[j] == value[j]);
    assert(!text::is_space(',') && !text::is_space('}'));
    assert(!text::is_space(tail[0]) && tail[0] != '"');
    assert(text::trimmed_start(tail) == tail);
    lemma_first_is(tail, ',', '}', value.len() as int);
    assert(tail.take(value.len() as int) =~= value);
    text::law_trimmed_keeps(value);
}

/// A quoted value is found by its key, wherever in the line it stands: up to its
/// closing quote, whatever is in it.
#[verifier::rlimit(40)]
pub proof fn law_quoted_values_are_found(
    front: Seq<char>,
    key: Seq<char>,
    value: Seq<char>,
    rest: Seq<char>,
)
    requires
        forall|i: int| 0 <= i < value.len() ==> (#[trigger] value[i]) != '"',
        first_key(front, key, seq!['"'] + value + seq!['"'] + rest),
    ensures
        field(keyed(front, key, seq!['"'] + value + seq!['"'] + rest), key) == Some(value),
{
    let tail = seq!['"'] + value + seq!['"'] + rest;
    lemma_value_behind(front, key, tail);
    assert(tail[0] == '"');
    assert(!text::is_space('"'));
    assert(text::trimmed_start(tail) == tail);
    let inner = tail.skip(1);
    assert(inner =~= value + seq!['"'] + rest);
    assert(forall|j: int| 0 <= j < value.len() ==> #[trigger] inner[j] == value[j]);
    assert(inner[value.len() as int] == '"');
    lemma_first_is(inner, '"', '"', value.len() as int);
    assert(inner.take(value.len() as int) =~= value);
}

/// A line in which a key in quotes stands behind some text, and a colon and a
/// tail behind the key.
pub open spec fn keyed(front: Seq<char>, key: Seq<char>, tail: Seq<char>) -> Seq<char> {
    front + (seq!['"'] + key + seq!['"']) + seq![':'] + tail
}

/// Whether the key in quotes is found no earlier in such a line.
pub open spec fn first_key(front: Seq<char>, key: Seq<char>, tail: Seq<char>) -> bool {
    let pat = seq!['"'] + key + seq!['"'];
    forall|j: int|
        0 <= j < front.len() ==> !pat.is_prefix_of(#[trigger] keyed(front, key, tail).skip(j))
}

proof fn lemma_value_behind(front: Seq<char>, key: Seq<char>, tail: Seq<char>)
    requires
        first_key(front, key, tail),
    ensures
        field(keyed(front, key, tail), key) == value_at(text::trimmed_start(tail)),
{
    let pat = seq!['"'] + key + seq!['"'];
    let json = keyed(front, key, tail);
    let at = front.len() as int;
    assert(json.subrange(at, at + pat.len()) =~= pat);
    lemma_found_at(json, pat, at);
    let after = json.skip(at + pat.len());
    assert(after =~= seq![':'] + tail);
    lemma_first_is(after, ':', ':', 0);
    assert(behind(after, 0) =~= tail);
}

proof fn lemma_found_at(s: Seq<char>, pat: Seq<char>, at: int)
    requires
        0 <= at,
        at + pat.len() <= s.len(),
        s.subrange(at, at + pat.len()) == pat,
        forall|j: int| 0 <= j < at ==> !pat.is_prefix_of(#[trigger] s.skip(j)),
    ensures
        text::first_at(s, pat) == Some(at),
{
    text::law_search(s, pat);
    assert(pat.is_prefix_of(s.skip(at))) by {
        assert(s.skip(at).subrange(0, pat.len() as int) =~= s.subrange(at, at + pat.len()));
    }
    if let Some(i) = text::first_at(s, pat) {
        if i < at {
            assert(s.skip(i).subrange(0, pat.len() as int) =~= s.subrange(i, i + pat.len()));
            assert(pat.is_prefix_of(s.skip(i)));
        }
    }
}

proof fn lemma_first_is(s: Seq<char>, a: char, b: char, at: int)
    requires
        0 <= at < s.len(),
        s[at] == a || s[at] == b,
        forall|j: int| 0 <= j < at ==> (#[trigger] s[j]) != a && s[j] != b,
    ensures
        text::first_of(s, a, b) == Some(at),
{
    text::law_search_of(s, a, b);
}

/// A reading holds what its line says, each value under its own key: latitude
/// and longitude as they were read, the satellites and the altitude where they
/// can be, and the time as it stands.
pub proof fn law_readings(line: Seq<char>, n: SpresenseNumbers)
    ensures
        read_line(line, n) matches Ok(v) ==> {
            &&& field(line, "latitude"@) is Some && n.lat_deg == Some(v.lat_deg)
            &&& field(line, "longitude"@) is Some && n.lon_deg == Some(v.lon_deg)
            &&& v.fix ==> field(line, "fix"@) == Some("true"@)
            &&& !v.fix ==> field(line, "fix"@) == Some("false"@)
            &&& field(line, "altitude"@) is Some && n.alt_m is Some ==> n.alt_m == Some(v.alt_m)
            &&& field(line, "altitude"@) is None || n.alt_m is None ==> v.alt_m == Real32(0)
            &&& field(line, "time"@) matches Some(t) ==> v.time == t
            &&& field(line, "numSatellites"@) matches Some(t) ==> (text::unsigned(t) matches Some(k)
                ==> (k <= 255 ==> v.num_satellites == k))
            &&& field(line, "numSatellites"@) is None ==> v.num_satellites == 0
        },
        field(line, "latitude"@) is Some && n.lat_deg is Some && field(line, "longitude"@) is Some
            && n.lon_deg is Some && (field(line, "fix"@) == Some("true"@) || field(line, "fix"@)
            == Some("false"@)) ==> read_line(line, n) is Ok,
{
}

/// Which field a line is refused for: the first that is missing or no value of
/// its kind, the fix before the latitude before the longitude.
pub proof fn law_refusals(line: Seq<char>, n: SpresenseNumbers)
    ensures
        field(line, "fix"@) is None ==> read_line(line, n) == Err::<SpresenseView, _>(
            SpresenseParseError::MissingField("fix"),
        ),
        field(line, "fix"@) matches Some(v) ==> (v != "true"@ && v != "false"@ ==> read_line(line, n)
            == Err::<SpresenseView, _>(SpresenseParseError::BadValue("fix"))),
        fix_flag(line) is Ok && field(line, "latitude"@) is None ==> read_line(line, n) == Err::<
            SpresenseView,
            _,
        >(SpresenseParseError::MissingField("latitude")),
        fix_flag(line) is Ok && field(line, "latitude"@) is Some && n.lat_deg is None ==> read_line(
            line,
            n,
        ) == Err::<SpresenseView, _>(SpresenseParseError::BadValue("latitude")),
        fix_flag(line) is Ok && field(line, "latitude"@) is Some && n.lat_deg is Some && field(
            line,
            "longitude"@,
        ) is None ==> read_line(line, n) == Err::<SpresenseView, _>(
            SpresenseParseError::MissingField("longitude"),
        ),
{
}

/// A time stamp means its date and time of day: what is written with the year,
/// the month, the day, the hours and the minutes in their places is the instant
/// of these.
#[verifier::rlimit(40)]
pub proof fn law_stamps_mean_their_date(
    y: nat,
    m: nat,
    d: nat,
    hour: nat,
    minute: nat,
    seconds: Seq<char>,
    second: Real64,
    second_ms: int,
)
    requires
        y < 10_000,
        m < 100,
        d < 100,
        hour < 100,
        minute < 100,
        is_seconds(seconds),
    ensures
        ({
            let s = text::dec_padded(y, 4) + seq!['-'] + text::dec_padded(m, 2) + seq!['-']
                + text::dec_padded(d, 2) + seq![' '] + text::dec_padded(hour, 2) + seq![':']
                + text::dec_padded(minute, 2) + seq![':'] + seconds;
            &&& stamp(s, Some(second), second_ms) == calendar::instant(
                y as int,
                m as int,
                d as int,
                hour as int,
                minute as int,
                second,
                second_ms,
            )
            &&& stamp(s, None, second_ms) is None
            &&& seconds_field(s) == Some(seconds)
        }),
{
    let s = text::dec_padded(y, 4) + seq!['-'] + text::dec_padded(m, 2) + seq!['-']
        + text::dec_padded(d, 2) + seq![' '] + text::dec_padded(hour, 2) + seq![':']
        + text::dec_padded(minute, 2) + seq![':'] + seconds;
    text::lemma_dec_width(y);
    text::lemma_dec_width(m);
    text::lemma_dec_width(d);
    text::lemma_dec_width(hour);
    text::lemma_dec_width(minute);
    text::law_padded_reads_back(y, 4);
    text::law_padded_reads_back(m, 2);
    text::law_padded_reads_back(d, 2);
    text::law_padded_reads_back(hour, 2);
    text::law_padded_reads_back(minute, 2);
    assert(s.subrange(0, 4) =~= text::dec_padded(y, 4));
    assert(s.subrange(5, 7) =~= text::dec_padded(m, 2));
    assert(s.subrange(8, 10) =~= text::dec_padded(d, 2));
    assert(s.subrange(11, 13) =~= text::dec_padded(hour, 2));
    assert(s.subrange(14, 16) =~= text::dec_padded(minute, 2));
    assert(s.skip(17) =~= seconds);
}

/// What is no time stamp is no instant: too short, a wrong mark, or anything but
/// digits between the marks.
pub proof fn law_only_stamps_count(s: Seq<char>, second: Option<Real64>, second_ms: int)
    ensures
        stamp(s, second, second_ms) is Some ==> {
            &&& s.len() >= 19
            &&& s[4] == '-' && s[7] == '-' && s[10] == ' ' && s[13] == ':' && s[16] == ':'
            &&& text::is_digit(s[0]) && text::is_digit(s[3]) && text::is_digit(s[5])
                && text::is_digit(s[9]) && text::is_digit(s[11]) && text::is_digit(s[15])
                && text::is_digit(s[17]) && text::is_digit(s[18])
            &&& s.len() > 19 ==> s[19] == '.'
            &&& second is Some
        },
{
    if is_stamp(s) {
        assert(s.subrange(0, 4)[0] == s[0] && s.subrange(0, 4)[3] == s[3]);
        assert(s.subrange(5, 7)[0] == s[5] && s.subrange(8, 10)[1] == s[9]);
        assert(s.subrange(11, 13)[0] == s[11] && s.subrange(14, 16)[1] == s[15]);
        assert(s.skip(17)[0] == s[17] && s.skip(17)[1] == s[18]);
    }
}

/// Seconds are two digits, alone or with a point and any number of digits behind
/// it.
pub proof fn law_seconds(a: char, b: char, c: char, rest: Seq<char>)
    ensures
        is_seconds(seq![a, b]) <==> text::is_digit(a) && text::is_digit(b),
        is_seconds(seq![a, b, c] + rest) <==> text::is_digit(a) && text::is_digit(b) && c == '.'
            && forall|i: int| 0 <= i < rest.len() ==> text::is_digit(#[trigger] rest[i]),
        !is_seconds(seq![a]),
        !is_seconds(Seq::empty()),
{
    let t = seq![a, b, c] + rest;
    assert(t[0] == a && t[1] == b && t[2] == c);
    assert(forall|i: int| 0 <= i < rest.len() ==> #[trigger] rest[i] == t[i + 3]);
    assert(forall|i: int| 3 <= i < t.len() ==> #[trigger] t[i] == rest[i - 3]);
}

} // verus!
