//! What an operator types, as commands.

use crate::msgs::mission::{Command, MissionGoal};
use crate::reals::Real64;
use crate::text;
use vstd::prelude::*;

verus! {

/// Why a line is no command.
#[derive(Clone, Copy, Debug, PartialEq, Eq, Structural)]
pub enum ParseCommandError {
    Empty,
    UnknownCommand,
    BadArgCount { expected: usize, got: usize },
    BadNumber,
    SpeedOutOfRange,
}

impl ParseCommandError {
    pub open spec fn described(self) -> Seq<char> {
        match self {
            ParseCommandError::Empty => "empty input"@,
            ParseCommandError::UnknownCommand =>
                "unknown command (try: estop, clearestop, cancel, goal <lat> <lon>, speed <pct>, nop)"@,
            ParseCommandError::BadArgCount { expected, got } => "expected "@ + text::dec(
                expected as nat,
            ) + " argument(s), got "@ + text::dec(got as nat),
            ParseCommandError::BadNumber => "could not parse a number"@,
            ParseCommandError::SpeedOutOfRange => "speed limit must be 0..=100"@,
        }
    }

    pub fn message(&self) -> (s: String)
        ensures
            s@ == self.described(),
    {
        match self {
            ParseCommandError::Empty => text::owned("empty input"),
            ParseCommandError::UnknownCommand => text::owned(
                "unknown command (try: estop, clearestop, cancel, goal <lat> <lon>, speed <pct>, nop)",
            ),
            ParseCommandError::BadArgCount { expected, got } => {
                let mut s = text::owned("expected ");
                text::push_dec(&mut s, *expected as u64);
                text::push_str(&mut s, " argument(s), got ");
                text::push_dec(&mut s, *got as u64);
                s
            },
            ParseCommandError::BadNumber => text::owned("could not parse a number"),
            ParseCommandError::SpeedOutOfRange => text::owned("speed limit must be 0..=100"),
        }
    }
}

/// A letter in lower case.
pub open spec fn lower(c: char) -> char {
    if 'A' <= c <= 'Z' {
        (c as int + 32) as char
    } else {
        c
    }
}

/// A word in lower case.
pub open spec fn folded(w: Seq<char>) -> Seq<char> {
    Seq::new(w.len(), |i: int| lower(w[i]))
}

fn to_lower(w: &Vec<char>) -> (v: Vec<char>)
    ensures
        v@ == folded(w@),
{
    let mut v: Vec<char> = Vec::new();
    let mut i: usize = 0;
    while i < w.len()
        invariant
            i <= w@.len(),
            v@ == folded(w@).take(i as int),
        decreases w@.len() - i,
    {
        let c: char = w[i];
        let u: u32 = c as u32;
        let l: char = if 65 <= u && u <= 90 {
            (u as u8 + 32) as char
        } else {
            c
        };
        v.push(l);
        i = i + 1;
        assert(v@ =~= folded(w@).take(i as int));
    }
    assert(folded(w@).take(i as int) =~= folded(w@));
    v
}

/// What a word asks for.
#[derive(Clone, Copy, Debug, PartialEq, Eq, Structural)]
pub enum Verb {
    EStop,
    ClearEStop,
    Cancel,
    Nop,
    Goal,
    Speed,
}

/// The verb of a word, in either case and in full or in short.
pub open spec fn verb_of(word: Seq<char>) -> Option<Verb> {
    let w = folded(word);
    if w == "estop"@ || w == "e"@ {
        Some(Verb::EStop)
    } else if w == "clearestop"@ || w == "ce"@ {
        Some(Verb::ClearEStop)
    } else if w == "cancel"@ || w == "c"@ {
        Some(Verb::Cancel)
    } else if w == "nop"@ {
        Some(Verb::Nop)
    } else if w == "goal"@ || w == "g"@ {
        Some(Verb::Goal)
    } else if w == "speed"@ || w == "s"@ {
        Some(Verb::Speed)
    } else {
        None
    }
}

impl Verb {
    /// How many arguments a verb takes.
    pub open spec fn arity(self) -> nat {
        match self {
            Verb::Goal => 2,
            Verb::Speed => 1,
            _ => 0,
        }
    }
}

/// What words and the readings of their first two arguments ask for.
pub open spec fn command_of(
    words: Seq<Seq<char>>,
    coordinates: (Option<Real64>, Option<Real64>),
) -> Result<Command, ParseCommandError> {
    if words.len() == 0 {
        Err(ParseCommandError::Empty)
    } else {
        match verb_of(words[0]) {
            None => Err(ParseCommandError::UnknownCommand),
            Some(verb) => if words.len() != verb.arity() + 1 {
                Err(
                    ParseCommandError::BadArgCount {
                        expected: verb.arity() as usize,
                        got: (words.len() - 1) as usize,
                    },
                )
            } else {
                match verb {
                    Verb::EStop => Ok(Command::EStop),
                    Verb::ClearEStop => Ok(Command::ClearEStop),
                    Verb::Cancel => Ok(Command::CancelMission),
                    Verb::Nop => Ok(Command::Nop),
                    Verb::Goal => match coordinates {
                        (Some(lat_deg), Some(lon_deg)) => Ok(
                            Command::SetMissionGoal(MissionGoal { lat_deg, lon_deg }),
                        ),
                        _ => Err(ParseCommandError::BadNumber),
                    },
                    Verb::Speed => match text::unsigned_to(words[1], u32::MAX as int) {
                        None => Err(ParseCommandError::BadNumber),
                        Some(pct) => if pct > 100 {
                            Err(ParseCommandError::SpeedOutOfRange)
                        } else {
                            Ok(Command::SetSpeedLimit(pct as u8))
                        },
                    },
                }
            },
        }
    }
}

fn read_verb(word: &Vec<char>) -> (r: Option<Verb>)
    ensures
        r == verb_of(word@),
{
    let lowered = to_lower(word);
    let w = lowered.as_slice();
    if text::is_word(w, "estop") || text::is_word(w, "e") {
        Some(Verb::EStop)
    } else if text::is_word(w, "clearestop") || text::is_word(w, "ce") {
        Some(Verb::ClearEStop)
    } else if text::is_word(w, "cancel") || text::is_word(w, "c") {
        Some(Verb::Cancel)
    } else if text::is_word(w, "nop") {
        Some(Verb::Nop)
    } else if text::is_word(w, "goal") || text::is_word(w, "g") {
        Some(Verb::Goal)
    } else if text::is_word(w, "speed") || text::is_word(w, "s") {
        Some(Verb::Speed)
    } else {
        None
    }
}

/// Parse one line of input. `coordinates` holds what the first two arguments
/// read as numbers, `None` where there is no such argument or it is none.
pub fn parse_command(line: &str, coordinates: (Option<Real64>, Option<Real64>)) -> (r: Result<
    Command,
    ParseCommandError,
>)
    ensures
        r == command_of(text::words(line@), coordinates),
{
    let chars = text::chars_of(line);
    let words = text::split_words(chars.as_slice());
    if words.len() == 0 {
        return Err(ParseCommandError::Empty);
    }
    assert(text::runs(words@)[0] == words@[0]@);
    let verb = match read_verb(&words[0]) {
        None => {
            return Err(ParseCommandError::UnknownCommand);
        },
        Some(v) => v,
    };
    let expected: usize = match verb {
        Verb::Goal => 2,
        Verb::Speed => 1,
        _ => 0,
    };
    let got: usize = words.len() - 1;
    if got != expected {
        return Err(ParseCommandError::BadArgCount { expected, got });
    }
    match verb {
        Verb::EStop => Ok(Command::EStop),
        Verb::ClearEStop => Ok(Command::ClearEStop),
        Verb::Cancel => Ok(Command::CancelMission),
        Verb::Nop => Ok(Command::Nop),
        Verb::Goal => match coordinates {
            (Some(lat_deg), Some(lon_deg)) => Ok(
                Command::SetMissionGoal(MissionGoal { lat_deg, lon_deg }),
            ),
            _ => Err(ParseCommandError::BadNumber),
        },
        Verb::Speed => {
            assert(text::runs(words@)[1] == words@[1]@);
            match text::parse_unsigned(words[1].as_slice(), 0xffff_ffff) {
                None => Err(ParseCommandError::BadNumber),
                Some(pct) => if pct > 100 {
                    Err(ParseCommandError::SpeedOutOfRange)
                } else {
                    Ok(Command::SetSpeedLimit(pct as u8))
                },
            }
        },
    }
}

/// The words behind the first.
pub open spec fn arguments_in(words: Seq<Seq<char>>) -> Seq<Seq<char>> {
    if words.len() == 0 {
        Seq::empty()
    } else {
        words.skip(1)
    }
}

/// The arguments of a line, to read numbers from.
pub fn arguments(line: &str) -> (v: Vec<String>)
    ensures
        text::texts(v@) == arguments_in(text::words(line@)),
{
    let chars = text::chars_of(line);
    let words = text::split_words(chars.as_slice());
    let mut v: Vec<String> = Vec::new();
    if words.len() == 0 {
        assert(text::texts(v@) =~= Seq::empty());
        return v;
    }
    let mut i: usize = 1;
    while i < words.len()
        invariant
            1 <= i <= words@.len(),
            v@.len() == i - 1,
            forall|k: int| 0 <= k < v@.len() ==> (#[trigger] v@[k])@ == words@[k + 1]@,
        decreases words@.len() - i,
    {
        v.push(text::string_of(words[i].as_slice()));
        i = i + 1;
    }
    assert(text::texts(v@) =~= text::runs(words@).skip(1));
    v
}

/// Case makes no difference to what a word asks for.
pub proof fn law_case_does_not_matter(a: Seq<char>, b: Seq<char>)
    requires
        folded(a) == folded(b),
    ensures
        verb_of(a) == verb_of(b),
{
}

/// Cancelling a mission and releasing the emergency stop are never confused:
/// only the words for the one give the one.
pub proof fn law_release_is_explicit(
    words: Seq<Seq<char>>,
    coordinates: (Option<Real64>, Option<Real64>),
)
    ensures
        command_of(words, coordinates) == Ok::<Command, ParseCommandError>(Command::ClearEStop)
            ==> words.len() == 1 && (folded(words[0]) == "clearestop"@ || folded(words[0])
            == "ce"@),
{
}

/// No speed limit above a hundred percent ever leaves the base.
pub proof fn law_speed_limits_are_percentages(
    words: Seq<Seq<char>>,
    coordinates: (Option<Real64>, Option<Real64>),
)
    ensures
        command_of(words, coordinates) matches Ok(Command::SetSpeedLimit(pct)) ==> pct <= 100,
{
}

/// Capital letters are read as small ones, and nothing else changes.
pub proof fn law_folding(w: Seq<char>, i: int)
    requires
        0 <= i < w.len(),
    ensures
        folded(w).len() == w.len(),
        'A' <= w[i] <= 'Z' ==> 'a' <= folded(w)[i] <= 'z' && folded(w)[i] as int - 97 == w[i] as int
            - 65,
        !('A' <= w[i] <= 'Z') ==> folded(w)[i] == w[i],
{
}

/// The words for each verb, and no others.
#[verifier::rlimit(40)]
pub proof fn law_verbs(word: Seq<char>)
    ensures
        verb_of(word) == Some(Verb::EStop) <==> folded(word) == "estop"@ || folded(word) == "e"@,
        verb_of(word) == Some(Verb::ClearEStop) <==> folded(word) == "clearestop"@ || folded(word)
            == "ce"@,
        verb_of(word) == Some(Verb::Cancel) <==> folded(word) == "cancel"@ || folded(word) == "c"@,
        verb_of(word) == Some(Verb::Nop) <==> folded(word) == "nop"@,
        verb_of(word) == Some(Verb::Goal) <==> folded(word) == "goal"@ || folded(word) == "g"@,
        verb_of(word) == Some(Verb::Speed) <==> folded(word) == "speed"@ || folded(word) == "s"@,
{
    reveal_strlit("estop");
    reveal_strlit("e");
    reveal_strlit("clearestop");
    reveal_strlit("ce");
    reveal_strlit("cancel");
    reveal_strlit("c");
    reveal_strlit("nop");
    reveal_strlit("goal");
    reveal_strlit("g");
    reveal_strlit("speed");
    reveal_strlit("s");
    assert("estop"@.len() == 5 && "e"@.len() == 1 && "clearestop"@.len() == 10 && "ce"@.len() == 2 && "cancel"@.len() == 6 && "c"@.len() == 1 && "nop"@.len() == 3 && "goal"@.len() == 4 && "g"@.len() == 1 && "speed"@.len() == 5 && "s"@.len() == 1);
    assert("estop"@[0] == 'e' && "speed"@[0] == 's');
    assert("e"@[0] == 'e' && "c"@[0] == 'c' && "g"@[0] == 'g' && "s"@[0] == 's');
}

/// A goal is set where its two numbers say, latitude first, and a speed limit to
/// the number that was typed; the other commands take nothing with them.
pub proof fn law_commands_say_what_was_typed(
    words: Seq<Seq<char>>,
    coordinates: (Option<Real64>, Option<Real64>),
)
    ensures
        command_of(words, coordinates) matches Ok(cmd) ==> {
            &&& words.len() > 0
            &&& cmd is EStop <==> verb_of(words[0]) == Some(Verb::EStop)
            &&& cmd is ClearEStop <==> verb_of(words[0]) == Some(Verb::ClearEStop)
            &&& cmd is CancelMission <==> verb_of(words[0]) == Some(Verb::Cancel)
            &&& cmd is Nop <==> verb_of(words[0]) == Some(Verb::Nop)
            &&& cmd is SetMissionGoal <==> verb_of(words[0]) == Some(Verb::Goal)
            &&& cmd is SetSpeedLimit <==> verb_of(words[0]) == Some(Verb::Speed)
            &&& cmd matches Command::SetMissionGoal(goal) ==> words.len() == 3 && coordinates == (
                Some(goal.lat_deg),
                Some(goal.lon_deg),
            )
            &&& cmd matches Command::SetSpeedLimit(pct) ==> words.len() == 2 && text::unsigned(
                words[1],
            ) == Some(pct as nat)
            &&& !(cmd is SetMissionGoal) && !(cmd is SetSpeedLimit) ==> words.len() == 1
        },
{
}

/// A line is refused for the first thing that is wrong with it, and for nothing
/// that is not.
#[verifier::rlimit(40)]
pub proof fn law_refusals_say_why(
    words: Seq<Seq<char>>,
    coordinates: (Option<Real64>, Option<Real64>),
)
    requires
        words.len() <= usize::MAX,
    ensures
        ({
            let r = command_of(words, coordinates);
            let verb = verb_of(words[0]);
            let wanted = if verb == Some(Verb::Goal) {
                2int
            } else if verb == Some(Verb::Speed) {
                1int
            } else {
                0int
            };
            let pct = text::unsigned(words[1]);
            &&& r == Err::<Command, _>(ParseCommandError::Empty) <==> words.len() == 0
            &&& r == Err::<Command, _>(ParseCommandError::UnknownCommand) <==> words.len() > 0
                && verb is None
            &&& words.len() > 0 && verb is Some ==> {
                &&& words.len() - 1 != wanted ==> (r matches Err(
                    ParseCommandError::BadArgCount { expected, got },
                ) && expected == wanted && got == words.len() - 1)
                &&& words.len() - 1 == wanted ==> {
                    &&& verb == Some(Verb::Goal) ==> (r is Ok <==> coordinates.0 is Some
                        && coordinates.1 is Some)
                    &&& verb == Some(Verb::Speed) ==> (r is Ok <==> pct is Some && pct->0 <= 100)
                    &&& verb != Some(Verb::Goal) && verb != Some(Verb::Speed) ==> r is Ok
                    &&& r is Err ==> r == Err::<Command, _>(ParseCommandError::BadNumber) || r
                        == Err::<Command, _>(ParseCommandError::SpeedOutOfRange)
                    &&& r == Err::<Command, _>(ParseCommandError::SpeedOutOfRange) <==> verb == Some(
                        Verb::Speed,
                    ) && pct is Some && 100 < pct->0 <= 0xffff_ffff
                }
            }
        }),
{
}

/// The arguments are the words behind the first, in their order.
pub proof fn law_arguments(words: Seq<Seq<char>>, i: int)
    requires
        1 <= i < words.len(),
    ensures
        arguments_in(words).len() == words.len() - 1,
        arguments_in(words)[i - 1] == words[i],
{
}

/// What is said of each refusal: the counts are told as they are.
pub proof fn law_refusals_are_told(e: ParseCommandError)
    ensures
        e is Empty ==> e.described() == "empty input"@,
        e is BadNumber ==> e.described() == "could not parse a number"@,
        e is SpeedOutOfRange ==> e.described() == "speed limit must be 0..=100"@,
        e matches ParseCommandError::BadArgCount { expected, got } ==> {
            &&& e.described().subrange(9, 9 + text::dec(expected as nat).len() as int) == text::dec(
                expected as nat,
            )
            &&& text::dec(got as nat).is_suffix_of(e.described())
        },
{
    reveal_strlit("expected ");
    assert("expected "@.len() == 9);
    if let ParseCommandError::BadArgCount { expected, got } = e {
        let d = e.described();
        let (a, b) = (text::dec(expected as nat), text::dec(got as nat));
        assert(d.subrange(9, 9 + a.len() as int) =~= a);
        assert(d.subrange(d.len() - b.len(), d.len() as int) =~= b);
    }
}

} // verus!
