//! NMEA 0183 sentences of the primary receiver.
//!
//! A sentence is text between a dollar sign and a star, in fields separated by
//! commas, and the star is followed by a checksum. Fields that hold fractions
//! are read as numbers outside this module: the parsers take the readings, one
//! for each such field, `None` where the field's text is no number.

use crate::msgs::kinds::FixQuality;
use crate::reals::{Real32, Real64};
use crate::text;
use vstd::prelude::*;
use vstd::slice::slice_subrange;
use vstd::utf8;

verus! {

/// The pattern of `0.514444`: metres per second in a knot.
pub const KNOTS_TO_MPS: u32 = 0x3f03_b29a;

/// The pattern of `99.99`: the largest accuracy estimate reported, metres.
pub const H_ACC_CAP_M: u32 = 0x42c7_fae1;

/// Fields that a useful sentence has at least.
pub const MIN_FIELDS: usize = 10;

/// A sentence failed to parse.
#[derive(Clone, Copy, Debug, PartialEq, Eq, Structural)]
pub enum NmeaError {
    /// The checksum did not match, or there was none.
    BadChecksum,
    /// Fewer fields than this type of sentence requires.
    TooFewFields { need: usize, got: usize },
    /// A field that must be numeric was not.
    BadNumber,
    /// Not the type of sentence that was asked for.
    WrongSentenceType,
}

/// The exclusive or of bytes.
pub open spec fn xored(b: Seq<u8>) -> u8
    decreases b.len(),
{
    if b.len() == 0 {
        0
    } else {
        xored(b.drop_last()) ^ b.last()
    }
}

/// The checksum of a sentence's text.
pub open spec fn checksum(data: Seq<char>) -> u8 {
    xored(utf8::encode_utf8(data))
}

/// The value of a hexadecimal digit of either case.
pub open spec fn hex_value(c: char) -> Option<u8> {
    if '0' <= c <= '9' {
        Some((c as int - '0' as int) as u8)
    } else if 'a' <= c <= 'f' {
        Some((c as int - 'a' as int + 10) as u8)
    } else if 'A' <= c <= 'F' {
        Some((c as int - 'A' as int + 10) as u8)
    } else {
        None
    }
}

/// What two hexadecimal digits stand for.
pub open spec fn hex_pair(a: char, b: char) -> Option<u8> {
    match (hex_value(a), hex_value(b)) {
        (Some(high), Some(low)) => Some((high * 16 + low) as u8),
        _ => None,
    }
}

/// Where a character last occurs.
pub open spec fn last_at(s: Seq<char>, c: char) -> Option<int>
    decreases s.len(),
{
    if s.len() == 0 {
        None
    } else if s.last() == c {
        Some(s.len() - 1)
    } else {
        last_at(s.drop_last(), c)
    }
}

/// A sentence without the dollar sign that it may begin with.
pub open spec fn undollared(s: Seq<char>) -> Seq<char> {
    if s.len() > 0 && s[0] == '$' {
        s.skip(1)
    } else {
        s
    }
}

/// The data of a sentence, if its checksum is right.
pub open spec fn stripped(s: Seq<char>) -> Option<Seq<char>> {
    let body = undollared(s);
    match last_at(body, '*') {
        None => None,
        Some(star) => if body.len() < star + 3 {
            None
        } else if hex_pair(body[star + 1], body[star + 2]) == Some(checksum(body.take(star))) {
            Some(body.take(star))
        } else {
            None
        },
    }
}

fn hex_digit_value(c: char) -> (r: Option<u8>)
    ensures
        r == hex_value(c),
{
    let u: u32 = c as u32;
    if 48 <= u && u <= 57 {
        Some((u - 48) as u8)
    } else if 97 <= u && u <= 102 {
        Some((u - 87) as u8)
    } else if 65 <= u && u <= 70 {
        Some((u - 55) as u8)
    } else {
        None
    }
}

fn read_hex_pair(a: char, b: char) -> (r: Option<u8>)
    ensures
        r == hex_pair(a, b),
{
    match (hex_digit_value(a), hex_digit_value(b)) {
        (Some(high), Some(low)) => Some(high * 16 + low),
        _ => None,
    }
}

fn find_last(s: &[char], c: char) -> (r: Option<usize>)
    ensures
        last_at(s@, c) == (match r {
            Some(i) => Some(i as int),
            None => None,
        }),
        r matches Some(i) ==> i < s@.len(),
{
    let mut n: usize = s.len();
    assert(s@.take(n as int) =~= s@);
    while n > 0
        invariant
            n <= s@.len(),
            last_at(s@.take(n as int), c) == last_at(s@, c),
        decreases n,
    {
        if s[n - 1] == c {
            return Some(n - 1);
        }
        assert(s@.take(n as int).drop_last() =~= s@.take(n - 1));
        n = n - 1;
    }
    None
}

/// The checksum of a text.
pub fn checksum_of(data: &[char]) -> (r: u8)
    ensures
        r == checksum(data@),
{
    let s = text::string_of(data);
    let bytes = s.as_str().as_bytes();
    let mut acc: u8 = 0;
    let mut i: usize = 0;
    assert(bytes@.take(0) =~= Seq::empty());
    while i < bytes.len()
        invariant
            i <= bytes@.len(),
            acc == xored(bytes@.take(i as int)),
        decreases bytes@.len() - i,
    {
        assert(bytes@.take(i + 1).drop_last() =~= bytes@.take(i as int));
        acc = acc ^ bytes[i];
        i = i + 1;
    }
    assert(bytes@.take(i as int) =~= bytes@);
    acc
}

/// Check the checksum of a sentence and return its data: what lies between the
/// dollar sign, if there is one, and the last star.
fn verify_and_strip(sentence: &[char]) -> (r: Option<&[char]>)
    ensures
        match r {
            Some(data) => stripped(sentence@) == Some(data@),
            None => stripped(sentence@) is None,
        },
{
    let body = if sentence.len() > 0 && sentence[0] == '$' {
        slice_subrange(sentence, 1, sentence.len())
    } else {
        sentence
    };
    assert(body@ =~= undollared(sentence@));
    match find_last(body, '*') {
        None => None,
        Some(star) => {
            if body.len() - star < 3 {
                return None;
            }
            let data = slice_subrange(body, 0, star);
            assert(data@ =~= body@.take(star as int));
            match read_hex_pair(body[star + 1], body[star + 2]) {
                None => None,
                Some(claimed) => if claimed == checksum_of(data) {
                    Some(data)
                } else {
                    None
                },
            }
        },
    }
}

/// The fields of a sentence with a right checksum.
pub open spec fn fields(sentence: Seq<char>) -> Option<Seq<Seq<char>>> {
    match stripped(sentence) {
        None => None,
        Some(data) => Some(text::split(data, ',')),
    }
}

/// The fields of a sentence with a right checksum, to read numbers from.
pub fn sentence_fields(sentence: &str) -> (r: Option<Vec<String>>)
    ensures
        match r {
            Some(v) => fields(sentence@) == Some(text::texts(v@)),
            None => fields(sentence@) is None,
        },
{
    let chars = text::chars_of(sentence);
    match verify_and_strip(chars.as_slice()) {
        None => None,
        Some(data) => {
            let tokens = text::split_at_each(data, ',');
            let mut v: Vec<String> = Vec::new();
            let mut i: usize = 0;
            while i < tokens.len()
                invariant
                    i <= tokens@.len(),
                    v@.len() == i,
                    forall|k: int| 0 <= k < i ==> #[trigger] v@[k]@ == tokens@[k]@,
                decreases tokens@.len() - i,
            {
                v.push(text::string_of(tokens[i].as_slice()));
                i = i + 1;
            }
            assert(text::texts(v@) =~= text::runs(tokens@));
            Some(v)
        },
    }
}

/// What a digit of the fix-quality field means. Estimated, manual and simulated
/// positions are no fix at all, and neither is anything unknown.
pub open spec fn quality(raw: int) -> FixQuality {
    if raw == 1 || raw == 3 {
        FixQuality::Autonomous
    } else if raw == 2 || raw == 9 {
        FixQuality::Dgps
    } else if raw == 4 {
        FixQuality::RtkFixed
    } else if raw == 5 {
        FixQuality::RtkFloat
    } else {
        FixQuality::NoFix
    }
}

/// Map a fix-quality number onto the ordered qualities.
pub fn map_fix_quality(raw: u8) -> (q: FixQuality)
    ensures
        q == quality(raw as int),
{
    match raw {
        1 => FixQuality::Autonomous,
        2 => FixQuality::Dgps,
        3 => FixQuality::Autonomous,
        4 => FixQuality::RtkFixed,
        5 => FixQuality::RtkFloat,
        9 => FixQuality::Dgps,
        _ => FixQuality::NoFix,
    }
}

/// A time of day: hours, minutes, seconds.
#[derive(Clone, Copy, Debug, PartialEq, Eq, Structural)]
pub struct Clock {
    pub hour: u32,
    pub minute: u32,
    pub second: Real64,
}

/// The time of day that a field gives: midnight where it is empty; else two
/// characters read as the hours, two as the minutes, and what follows as the
/// seconds.
pub open spec fn clock_of(field: Seq<char>, second: Option<Real64>) -> Option<Clock> {
    if field.len() == 0 {
        Some(Clock { hour: 0, minute: 0, second: Real64(0) })
    } else if field.len() < 6 {
        None
    } else {
        match (text::unsigned(field.take(2)), text::unsigned(field.subrange(2, 4)), second) {
            (Some(h), Some(m), Some(s)) => Some(
                Clock { hour: h as u32, minute: m as u32, second: s },
            ),
            _ => None,
        }
    }
}

/// The coordinate that a field and its hemisphere give, from the reading of the
/// field: none where either is empty, negative in the south and the west.
pub open spec fn coordinate(
    field: Seq<char>,
    hemisphere: Seq<char>,
    reading: Option<Real64>,
) -> Option<Option<Real64>> {
    if field.len() == 0 || hemisphere.len() == 0 {
        Some(None)
    } else {
        match reading {
            None => None,
            Some(v) => if hemisphere == "S"@ || hemisphere == "W"@ {
                Some(Some(v.negated()))
            } else if hemisphere == "N"@ || hemisphere == "E"@ {
                Some(Some(v))
            } else {
                None
            },
        }
    }
}

/// The reading of a field, and zero where the field is empty.
pub open spec fn reading_or_zero(field: Seq<char>, reading: Option<Real32>) -> Option<Real32> {
    if field.len() == 0 {
        Some(Real32(0))
    } else {
        reading
    }
}

/// A small number, and zero where the field is empty.
pub open spec fn small_or_zero(field: Seq<char>) -> Option<nat> {
    if field.len() == 0 {
        Some(0)
    } else {
        text::unsigned_to(field, 255)
    }
}

/// What the fractions of a `GGA` sentence read.
#[derive(Clone, Copy, Debug, PartialEq, Eq, Structural)]
pub struct GgaNumbers {
    /// The time field from its fifth character on.
    pub second: Option<Real64>,
    /// Latitude, in degrees without a sign.
    pub lat_deg: Option<Real64>,
    /// Longitude, in degrees without a sign.
    pub lon_deg: Option<Real64>,
    /// The dilution of precision times five.
    pub h_acc_m: Option<Real32>,
    pub alt_m: Option<Real32>,
}

/// A `GGA` sentence: position, fix quality, satellites, altitude.
#[derive(Clone, Copy, Debug, PartialEq, Eq, Structural)]
pub struct Gga {
    pub hour: u32,
    pub minute: u32,
    pub second: Real64,
    /// `None` while the receiver has not sent a position.
    pub lat_deg: Option<Real64>,
    pub lon_deg: Option<Real64>,
    pub fix: FixQuality,
    pub sats: u8,
    /// Horizontal accuracy estimate, metres, capped.
    pub h_acc_m: Real32,
    pub alt_m: Real32,
}

/// The fields of a sentence of the given type, or why there are none.
pub open spec fn typed_fields(sentence: Seq<char>, kind: Seq<char>) -> Result<
    Seq<Seq<char>>,
    NmeaError,
> {
    match fields(sentence) {
        None => Err(NmeaError::BadChecksum),
        Some(t) => if !kind.is_suffix_of(t[0]) {
            Err(NmeaError::WrongSentenceType)
        } else if t.len() < MIN_FIELDS {
            Err(NmeaError::TooFewFields { need: MIN_FIELDS, got: t.len() as usize })
        } else {
            Ok(t)
        },
    }
}

fn take_fields(sentence: &str, kind: &str) -> (r: Result<Vec<Vec<char>>, NmeaError>)
    ensures
        match r {
            Ok(v) => typed_fields(sentence@, kind@) == Ok::<_, NmeaError>(text::runs(v@))
                && v@.len() >= MIN_FIELDS,
            Err(e) => typed_fields(sentence@, kind@) == Err::<Seq<Seq<char>>, _>(e),
        },
{
    let chars = text::chars_of(sentence);
    match verify_and_strip(chars.as_slice()) {
        None => Err(NmeaError::BadChecksum),
        Some(data) => {
            let tokens = text::split_at_each(data, ',');
            assert(text::runs(tokens@)[0] == tokens@[0]@);
            if !text::ends_with(tokens[0].as_slice(), kind) {
                return Err(NmeaError::WrongSentenceType);
            }
            if tokens.len() < MIN_FIELDS {
                return Err(NmeaError::TooFewFields { need: MIN_FIELDS, got: tokens.len() });
            }
            Ok(tokens)
        },
    }
}

/// A `GGA` sentence, from its fields and their readings.
pub open spec fn gga_of(t: Seq<Seq<char>>, n: GgaNumbers) -> Option<Gga> {
    match (
        clock_of(t[1], n.second),
        coordinate(t[2], t[3], n.lat_deg),
        coordinate(t[4], t[5], n.lon_deg),
        small_or_zero(t[6]),
        small_or_zero(t[7]),
        reading_or_zero(t[8], n.h_acc_m),
        reading_or_zero(t[9], n.alt_m),
    ) {
        (
            Some(clock),
            Some(lat_deg),
            Some(lon_deg),
            Some(raw),
            Some(sats),
            Some(h_acc),
            Some(alt_m),
        ) => Some(
            Gga {
                hour: clock.hour,
                minute: clock.minute,
                second: clock.second,
                lat_deg,
                lon_deg,
                fix: quality(raw as int),
                sats: sats as u8,
                h_acc_m: h_acc.lesser(Real32(H_ACC_CAP_M)),
                alt_m,
            },
        ),
        _ => None,
    }
}

/// What a sentence gives when read as `GGA`.
pub open spec fn read_gga(sentence: Seq<char>, n: GgaNumbers) -> Result<Gga, NmeaError> {
    match typed_fields(sentence, "GGA"@) {
        Err(e) => Err(e),
        Ok(t) => match gga_of(t, n) {
            None => Err(NmeaError::BadNumber),
            Some(g) => Ok(g),
        },
    }
}

fn read_clock(field: &[char], second: Option<Real64>) -> (r: Option<Clock>)
    ensures
        r == clock_of(field@, second),
{
    if field.len() == 0 {
        return Some(Clock { hour: 0, minute: 0, second: Real64(0) });
    }
    if field.len() < 6 {
        return None;
    }
    let hh = two_digits(field, 0);
    let mm = two_digits(field, 2);
    assert(field@.subrange(0, 2) =~= field@.take(2));
    match (hh, mm, second) {
        (Some(h), Some(m), Some(s)) => Some(Clock { hour: h, minute: m, second: s }),
        _ => None,
    }
}

/// Two characters, read as a number.
fn two_digits(field: &[char], from: usize) -> (r: Option<u32>)
    requires
        from <= 2,
        from + 2 <= field@.len(),
    ensures
        r == (match text::unsigned(field@.subrange(from as int, from + 2)) {
            Some(n) => Some(n as u32),
            None => None,
        }),
        text::unsigned(field@.subrange(from as int, from + 2)) matches Some(n) ==> n < 100,
{
    let pair = slice_subrange(field, from, from + 2);
    proof {
        lemma_two_characters(pair@);
    }
    match text::parse_unsigned(pair, 99) {
        Some(n) => Some(n as u32),
        None => None,
    }
}

/// Two characters read as a number of two digits at most.
proof fn lemma_two_characters(s: Seq<char>)
    requires
        s.len() == 2,
    ensures
        text::unsigned(s) matches Some(n) ==> n < 100,
        text::signed(s) matches Some(n) ==> -100 < n < 100,
{
    if text::is_number(s) {
        text::lemma_digits_value_bound(s);
    }
    if text::is_number(s.skip(1)) {
        text::lemma_digits_value_bound(s.skip(1));
    }
}

fn read_coordinate(field: &[char], hemisphere: &[char], reading: Option<Real64>) -> (r: Option<
    Option<Real64>,
>)
    ensures
        r == coordinate(field@, hemisphere@, reading),
{
    if field.len() == 0 || hemisphere.len() == 0 {
        return Some(None);
    }
    match reading {
        None => None,
        Some(v) => if text::is_word(hemisphere, "S") || text::is_word(hemisphere, "W") {
            Some(Some(v.neg()))
        } else if text::is_word(hemisphere, "N") || text::is_word(hemisphere, "E") {
            Some(Some(v))
        } else {
            None
        },
    }
}

fn read_or_zero(field: &[char], reading: Option<Real32>) -> (r: Option<Real32>)
    ensures
        r == reading_or_zero(field@, reading),
{
    if field.len() == 0 {
        Some(Real32(0))
    } else {
        reading
    }
}

fn read_small(field: &[char]) -> (r: Option<u8>)
    ensures
        match r {
            Some(n) => small_or_zero(field@) == Some(n as nat),
            None => small_or_zero(field@) is None,
        },
{
    if field.len() == 0 {
        return Some(0);
    }
    match text::parse_unsigned(field, 255) {
        Some(n) => Some(n as u8),
        None => None,
    }
}

/// Parse a `GGA` sentence.
pub fn parse_gga(sentence: &str, n: &GgaNumbers) -> (r: Result<Gga, NmeaError>)
    ensures
        r == read_gga(sentence@, *n),
{
    let t = match take_fields(sentence, "GGA") {
        Ok(t) => t,
        Err(e) => {
            return Err(e);
        },
    };
    assert forall|i: int| 0 <= i < t@.len() implies text::runs(t@)[i] == (#[trigger] t@[i])@ by {}
    let clock = read_clock(t[1].as_slice(), n.second);
    let lat_deg = read_coordinate(t[2].as_slice(), t[3].as_slice(), n.lat_deg);
    let lon_deg = read_coordinate(t[4].as_slice(), t[5].as_slice(), n.lon_deg);
    let raw = read_small(t[6].as_slice());
    let sats = read_small(t[7].as_slice());
    let h_acc = read_or_zero(t[8].as_slice(), n.h_acc_m);
    let alt_m = read_or_zero(t[9].as_slice(), n.alt_m);
    match (clock, lat_deg, lon_deg, raw, sats, h_acc, alt_m) {
        (
            Some(clock),
            Some(lat_deg),
            Some(lon_deg),
            Some(raw),
            Some(sats),
            Some(h_acc),
            Some(alt_m),
        ) => Ok(
            Gga {
                hour: clock.hour,
                minute: clock.minute,
                second: clock.second,
                lat_deg,
                lon_deg,
                fix: map_fix_quality(raw),
                sats,
                h_acc_m: h_acc.min(Real32(H_ACC_CAP_M)),
                alt_m,
            },
        ),
        _ => Err(NmeaError::BadNumber),
    }
}

/// What the fractions of an `RMC` sentence read.
#[derive(Clone, Copy, Debug, PartialEq, Eq, Structural)]
pub struct RmcNumbers {
    /// The time field from its fifth character on.
    pub second: Option<Real64>,
    pub speed_knots: Option<Real32>,
    pub course_deg: Option<Real32>,
}

/// An `RMC` sentence: date, status, speed and course over ground. Speed and
/// course mean nothing unless the status is `A`.
#[derive(Clone, Copy, Debug, PartialEq, Eq, Structural)]
pub struct Rmc {
    pub hour: u32,
    pub minute: u32,
    pub second: Real64,
    pub status: char,
    pub speed_knots: Real32,
    pub course_deg: Real32,
    pub year: i32,
    pub month: u32,
    pub day: u32,
}

/// The status that a field gives: its first character, and the warning where
/// there is none.
pub open spec fn status_of(field: Seq<char>) -> char {
    if field.len() == 0 {
        'V'
    } else {
        field[0]
    }
}

/// The date that a field of day, month and year gives, two characters each.
/// The year is counted from 2000.
pub open spec fn date_of(field: Seq<char>) -> Option<(i32, u32, u32)> {
    if field.len() < 6 {
        None
    } else {
        match (
            text::unsigned(field.take(2)),
            text::unsigned(field.subrange(2, 4)),
            text::signed(field.subrange(4, 6)),
        ) {
            (Some(d), Some(m), Some(y)) => Some(((2000 + y) as i32, m as u32, d as u32)),
            _ => None,
        }
    }
}

/// An `RMC` sentence, from its fields and their readings.
pub open spec fn rmc_of(t: Seq<Seq<char>>, n: RmcNumbers) -> Option<Rmc> {
    match (
        clock_of(t[1], n.second),
        reading_or_zero(t[7], n.speed_knots),
        reading_or_zero(t[8], n.course_deg),
        date_of(t[9]),
    ) {
        (Some(clock), Some(speed_knots), Some(course_deg), Some((year, month, day))) => Some(
            Rmc {
                hour: clock.hour,
                minute: clock.minute,
                second: clock.second,
                status: status_of(t[2]),
                speed_knots,
                course_deg,
                year,
                month,
                day,
            },
        ),
        _ => None,
    }
}

/// What a sentence gives when read as `RMC`.
pub open spec fn read_rmc(sentence: Seq<char>, n: RmcNumbers) -> Result<Rmc, NmeaError> {
    match typed_fields(sentence, "RMC"@) {
        Err(e) => Err(e),
        Ok(t) => match rmc_of(t, n) {
            None => Err(NmeaError::BadNumber),
            Some(m) => Ok(m),
        },
    }
}

fn read_date(field: &[char]) -> (r: Option<(i32, u32, u32)>)
    ensures
        r == date_of(field@),
{
    if field.len() < 6 {
        return None;
    }
    let dd = two_digits(field, 0);
    let mm = two_digits(field, 2);
    assert(field@.subrange(0, 2) =~= field@.take(2));
    let pair = slice_subrange(field, 4, 6);
    proof {
        lemma_two_characters(pair@);
    }
    let yy = text::parse_i32(pair);
    match (dd, mm, yy) {
        (Some(d), Some(m), Some(y)) => Some((2000 + y, m, d)),
        _ => None,
    }
}

/// Parse an `RMC` sentence.
pub fn parse_rmc(sentence: &str, n: &RmcNumbers) -> (r: Result<Rmc, NmeaError>)
    ensures
        r == read_rmc(sentence@, *n),
{
    let t = match take_fields(sentence, "RMC") {
        Ok(t) => t,
        Err(e) => {
            return Err(e);
        },
    };
    assert forall|i: int| 0 <= i < t@.len() implies text::runs(t@)[i] == (#[trigger] t@[i])@ by {}
    let clock = read_clock(t[1].as_slice(), n.second);
    let status: char = if t[2].len() == 0 {
        'V'
    } else {
        t[2][0]
    };
    let speed = read_or_zero(t[7].as_slice(), n.speed_knots);
    let course = read_or_zero(t[8].as_slice(), n.course_deg);
    let date = read_date(t[9].as_slice());
    match (clock, speed, course, date) {
        (Some(clock), Some(speed_knots), Some(course_deg), Some((year, month, day))) => Ok(
            Rmc {
                hour: clock.hour,
                minute: clock.minute,
                second: clock.second,
                status,
                speed_knots,
                course_deg,
                year,
                month,
                day,
            },
        ),
        _ => Err(NmeaError::BadNumber),
    }
}

/// A sentence as a receiver sends it: dollar sign, data, star and checksum.
pub open spec fn sealed(data: Seq<char>) -> Seq<char> {
    seq!['$'] + data + seq![
        '*',
        text::hex_char(checksum(data) as int / 16),
        text::hex_char(checksum(data) as int % 16),
    ]
}

/// The data of every well-sealed sentence comes back.
pub proof fn law_sealed_sentences_are_accepted(data: Seq<char>)
    ensures
        stripped(sealed(data)) == Some(data),
{
    let body = undollared(sealed(data));
    let c = checksum(data);
    assert(body =~= data + seq![
        '*',
        text::hex_char(c as int / 16),
        text::hex_char(c as int % 16),
    ]);
    let n = data.len() as int;
    assert(body.drop_last().drop_last() =~= data.push('*'));
    reveal_with_fuel(last_at, 4);
    assert(last_at(body, '*') == Some(n));
    assert(body.take(n) =~= data);
}

/// A checksum catches every change of one byte.
pub proof fn law_one_garbled_byte_is_caught(b: Seq<u8>, i: int, x: u8)
    requires
        0 <= i < b.len(),
        x != b[i],
    ensures
        xored(b.update(i, x)) != xored(b),
    decreases b.len(),
{
    let c = b.update(i, x);
    if i == b.len() - 1 {
        assert(c.drop_last() =~= b.drop_last());
        let a = xored(b.drop_last());
        let y = b[i];
        assert(x != y ==> a ^ x != a ^ y) by (bit_vector);
    } else {
        law_one_garbled_byte_is_caught(b.drop_last(), i, x);
        assert(c.drop_last() =~= b.drop_last().update(i, x));
        let p = xored(b.drop_last());
        let q = xored(c.drop_last());
        let y = b.last();
        assert(p != q ==> p ^ y != q ^ y) by (bit_vector);
    }
}

/// Digits and letters from A to F stand for the hexadecimal digits, in either
/// case, and no other character does; two of them read as the number that they
/// print.
#[verifier::rlimit(40)]
pub proof fn law_hex_digits(d: int, e: int, n: u16, c: char)
    requires
        0 <= d < 16,
        0 <= e < 16,
    ensures
        hex_value(text::hex_char(d)) == Some(d as u8),
        hex_pair(text::hex_char(d), text::hex_char(e)) == Some((d * 16 + e) as u8),
        hex_value(c) is Some ==> '0' <= c <= '9' || 'a' <= c <= 'f' || 'A' <= c <= 'F',
        'a' <= c <= 'f' ==> hex_value(c) == Some((c as int - 87) as u8),
        text::hex4(n).len() == 4,
        hex_value(text::hex4(n)[0])->0 * 0x1000 + hex_value(text::hex4(n)[1])->0 * 0x100 + hex_value(
            text::hex4(n)[2],
        )->0 * 0x10 + hex_value(text::hex4(n)[3])->0 == n,
{
    lemma_hex_digit(d);
    lemma_hex_digit(e);
    let m = n as int;
    let (a, b, c4, d4) = (m / 4096, m / 256 % 16, m / 16 % 16, m % 16);
    assert(a * 4096 + b * 256 + c4 * 16 + d4 == m);
    lemma_hex_digit(a);
    lemma_hex_digit(b);
    lemma_hex_digit(c4);
    lemma_hex_digit(d4);
}

proof fn lemma_hex_digit(d: int)
    requires
        0 <= d < 16,
    ensures
        hex_value(text::hex_char(d)) == Some(d as u8),
{
}

/// The star that counts is the last one.
pub proof fn law_last_star(s: Seq<char>, c: char)
    ensures
        last_at(s, c) matches Some(i) ==> 0 <= i < s.len() && s[i] == c && forall|j: int|
            i < j < s.len() ==> #[trigger] s[j] != c,
        last_at(s, c) is None ==> !s.contains(c),
    decreases s.len(),
{
    if s.len() > 0 && s.last() != c {
        law_last_star(s.drop_last(), c);
        assert(forall|j: int| 0 <= j < s.len() - 1 ==> #[trigger] s[j] == s.drop_last()[j]);
        if last_at(s, c) is None {
            assert forall|j: int| 0 <= j < s.len() implies s[j] != c by {
                if j < s.len() - 1 {
                    assert(!s.drop_last().contains(s.drop_last()[j]) || s.drop_last()[j] != c);
                    assert(s.drop_last().contains(s.drop_last()[j]));
                }
            }
        }
    }
}

/// A clock and a date are read as they are written: two digits each.
#[verifier::rlimit(40)]
pub proof fn law_clocks_and_dates_read_back(
    hour: nat,
    minute: nat,
    seconds: Seq<char>,
    second: Real64,
    day: nat,
    month: nat,
    year: nat,
    more: Seq<char>,
)
    requires
        hour < 100,
        minute < 100,
        seconds.len() >= 2,
        day < 100,
        month < 100,
        year < 100,
    ensures
        clock_of(
            text::dec_padded(hour, 2) + text::dec_padded(minute, 2) + seconds,
            Some(second),
        ) == Some(Clock { hour: hour as u32, minute: minute as u32, second }),
        clock_of(
            text::dec_padded(hour, 2) + text::dec_padded(minute, 2) + seconds,
            None,
        ) is None,
        clock_of(Seq::empty(), Some(second)) == Some(
            Clock { hour: 0, minute: 0, second: Real64(0) },
        ),
        date_of(
            text::dec_padded(day, 2) + text::dec_padded(month, 2) + text::dec_padded(year, 2) + more,
        ) == Some(((2000 + year) as i32, month as u32, day as u32)),
{
    lemma_pair_reads_back(hour);
    lemma_pair_reads_back(minute);
    lemma_pair_reads_back(day);
    lemma_pair_reads_back(month);
    lemma_pair_reads_back(year);
    let clock = text::dec_padded(hour, 2) + text::dec_padded(minute, 2) + seconds;
    assert(clock.take(2) =~= text::dec_padded(hour, 2));
    assert(clock.subrange(2, 4) =~= text::dec_padded(minute, 2));
    let date = text::dec_padded(day, 2) + text::dec_padded(month, 2) + text::dec_padded(year, 2)
        + more;
    assert(date.take(2) =~= text::dec_padded(day, 2));
    assert(date.subrange(2, 4) =~= text::dec_padded(month, 2));
    assert(date.subrange(4, 6) =~= text::dec_padded(year, 2));
}

proof fn lemma_pair_reads_back(n: nat)
    requires
        n < 100,
    ensures
        text::dec_padded(n, 2).len() == 2,
        text::unsigned(text::dec_padded(n, 2)) == Some(n),
        text::signed(text::dec_padded(n, 2)) == Some(n as int),
{
    text::lemma_dec_width(n);
    text::law_padded_reads_back(n, 2);
    assert(text::is_digit(text::dec_padded(n, 2)[0]));
}

/// What a position sentence says, field by field. Latitude and longitude are
/// each the reading of their own field, positive to the north and the east,
/// negative to the south and the west, and absent where the field or its letter
/// is.
#[verifier::rlimit(40)]
pub proof fn law_position_sentences(t: Seq<Seq<char>>, n: GgaNumbers)
    requires
        t.len() >= 10,
    ensures
        gga_of(t, n) matches Some(g) ==> {
            &&& t[2].len() > 0 && t[3] == seq!['N'] ==> g.lat_deg == n.lat_deg && n.lat_deg is Some
            &&& t[2].len() > 0 && t[3] == seq!['S'] ==> (n.lat_deg matches Some(v) && g.lat_deg
                == Some(v.negated()))
            &&& t[4].len() > 0 && t[5] == seq!['E'] ==> g.lon_deg == n.lon_deg && n.lon_deg is Some
            &&& t[4].len() > 0 && t[5] == seq!['W'] ==> (n.lon_deg matches Some(v) && g.lon_deg
                == Some(v.negated()))
            &&& t[2].len() == 0 || t[3].len() == 0 <==> g.lat_deg is None
            &&& t[4].len() == 0 || t[5].len() == 0 <==> g.lon_deg is None
            &&& t[7].len() > 0 ==> text::unsigned(t[7]) == Some(g.sats as nat)
            &&& t[7].len() == 0 ==> g.sats == 0
            &&& t[9].len() > 0 ==> n.alt_m == Some(g.alt_m)
            &&& t[9].len() == 0 ==> g.alt_m == Real32(0)
            &&& t[8].len() > 0 ==> (n.h_acc_m matches Some(v) && {
                &&& v.at_most(Real32(0x42c7_fae1)) ==> g.h_acc_m == v
                &&& !v.at_most(Real32(0x42c7_fae1)) ==> g.h_acc_m == Real32(0x42c7_fae1)
            })
            &&& t[8].len() == 0 ==> g.h_acc_m == Real32(0)
            &&& t[1].len() > 0 ==> (text::unsigned(t[1].subrange(0, 2)) matches Some(h) && g.hour
                == h as u32 && n.second == Some(g.second))
            &&& t[1].len() > 0 ==> (text::unsigned(t[1].subrange(2, 4)) matches Some(m) && g.minute
                == m as u32)
            &&& t[1].len() == 0 ==> g.hour == 0 && g.minute == 0 && g.second == Real64(0)
        },
{
    reveal_strlit("N");
    reveal_strlit("S");
    reveal_strlit("E");
    reveal_strlit("W");
    assert("N"@ =~= seq!['N']);
    assert("S"@ =~= seq!['S']);
    assert("E"@ =~= seq!['E']);
    assert("W"@ =~= seq!['W']);
    assert(seq!['N'][0] != seq!['S'][0] && seq!['N'][0] != seq!['W'][0]);
    assert(seq!['E'][0] != seq!['S'][0] && seq!['E'][0] != seq!['W'][0]);
    assert(t[1].len() >= 2 ==> t[1].take(2) =~= t[1].subrange(0, 2));
}

/// The quality of a position sentence is the digit of its own field.
#[verifier::rlimit(40)]
pub proof fn law_position_quality(t: Seq<Seq<char>>, n: GgaNumbers)
    requires
        t.len() >= 10,
    ensures
        gga_of(t, n) matches Some(g) ==> {
            &&& t[6].len() == 0 ==> g.fix is NoFix
            &&& t[6].len() > 0 ==> (text::unsigned(t[6]) matches Some(k) && {
                &&& g.fix is RtkFixed <==> k == 4
                &&& g.fix is RtkFloat <==> k == 5
                &&& g.fix is Dgps <==> k == 2 || k == 9
                &&& g.fix is Autonomous <==> k == 1 || k == 3
            })
        },
{
}

/// A position sentence is read wherever each of its fields is: an empty one
/// always is, a time of at least six characters with two numbers, a coordinate
/// with a letter of the compass, and small numbers.
pub proof fn law_position_sentences_are_read(t: Seq<Seq<char>>, n: GgaNumbers)
    requires
        t.len() >= 10,
        t[1].len() == 0 || (t[1].len() >= 6 && text::unsigned(t[1].take(2)) is Some && text::unsigned(
            t[1].subrange(2, 4),
        ) is Some && n.second is Some),
        t[2].len() == 0 || t[3].len() == 0 || (n.lat_deg is Some && (t[3] == "N"@ || t[3] == "S"@)),
        t[4].len() == 0 || t[5].len() == 0 || (n.lon_deg is Some && (t[5] == "E"@ || t[5] == "W"@)),
        t[6].len() == 0 || (text::unsigned(t[6]) matches Some(k) && k <= 255),
        t[7].len() == 0 || (text::unsigned(t[7]) matches Some(k) && k <= 255),
        t[8].len() == 0 || n.h_acc_m is Some,
        t[9].len() == 0 || n.alt_m is Some,
    ensures
        gga_of(t, n) is Some,
{
}

/// What a motion sentence says, field by field.
#[verifier::rlimit(40)]
pub proof fn law_motion_sentences(t: Seq<Seq<char>>, n: RmcNumbers)
    requires
        t.len() >= 10,
    ensures
        rmc_of(t, n) matches Some(m) ==> {
            &&& t[2].len() > 0 ==> m.status == t[2][0]
            &&& t[2].len() == 0 ==> m.status == 'V'
            &&& t[7].len() > 0 ==> n.speed_knots == Some(m.speed_knots)
            &&& t[7].len() == 0 ==> m.speed_knots == Real32(0)
            &&& t[8].len() > 0 ==> n.course_deg == Some(m.course_deg)
            &&& t[8].len() == 0 ==> m.course_deg == Real32(0)
            &&& t[9].len() >= 6
            &&& text::unsigned(t[9].subrange(0, 2)) matches Some(d) && m.day == d as u32
            &&& text::unsigned(t[9].subrange(2, 4)) matches Some(k) && m.month == k as u32
            &&& text::signed(t[9].subrange(4, 6)) matches Some(y) && m.year == (2000 + y) as i32
            &&& t[1].len() > 0 ==> (text::unsigned(t[1].subrange(0, 2)) matches Some(h) && m.hour
                == h as u32 && n.second == Some(m.second))
            &&& t[1].len() > 0 ==> (text::unsigned(t[1].subrange(2, 4)) matches Some(k) && m.minute
                == k as u32)
        },
        t[9].len() < 6 ==> rmc_of(t, n) is None,
{
    assert(t[1].len() >= 2 ==> t[1].take(2) =~= t[1].subrange(0, 2));
    assert(t[9].len() >= 2 ==> t[9].take(2) =~= t[9].subrange(0, 2));
}

/// A sentence is taken only with a right checksum, by the type that it ends its
/// first field with, and with enough fields; each refusal names its reason, and
/// the checksum comes first.
pub proof fn law_sentences_are_checked(sentence: Seq<char>, kind: Seq<char>)
    ensures
        stripped(sentence) is None <==> typed_fields(sentence, kind) == Err::<Seq<Seq<char>>, _>(
            NmeaError::BadChecksum,
        ),
        typed_fields(sentence, kind) matches Ok(t) ==> {
            &&& stripped(sentence) matches Some(data)
            &&& text::joined(t, seq![',']) == data
            &&& t.len() >= 10
            &&& kind.is_suffix_of(t[0])
        },
        typed_fields(sentence, kind) matches Err(NmeaError::TooFewFields { need, got }) ==> need
            == 10 && got < 10,
        stripped(sentence) matches Some(data) ==> (text::split(data, ',').len() >= 10
            && kind.is_suffix_of(text::split(data, ',')[0]) ==> typed_fields(sentence, kind) is Ok),
{
    if let Some(data) = stripped(sentence) {
        text::law_split(data, ',');
    }
}

/// The dollar sign may be missing, and it is no part of the data: with it and
/// without it a sentence says the same.
pub proof fn law_dollar_is_optional(body: Seq<char>)
    requires
        body.len() > 0 ==> body[0] != '$',
    ensures
        undollared(body) == body,
        undollared(seq!['$'] + body) == body,
        stripped(seq!['$'] + body) == stripped(body),
{
    assert((seq!['$'] + body).skip(1) =~= body);
}

} // verus!
