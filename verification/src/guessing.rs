//! A guessing game: a secret number between 1 and 100, and guesses that are
//! told too small, too big or right.

use crate::text::chars_of;
use rand::Rng;
use vstd::prelude::*;

verus! {

/// What a guess is told.
#[derive(Clone, Copy, Debug, PartialEq, Eq, Structural)]
pub enum Verdict {
    /// What was typed is no number between 0 and 255: it is passed over.
    NotANumber,
    /// The guess is below the secret number.
    TooSmall,
    /// The guess is above the secret number.
    TooBig,
    /// The guess is the secret number: the game is over.
    Win,
}

/// `gen_range` of rand on the thread's generator, with the range `1..=100`:
/// a number drawn from that range. The contract claims the range and
/// nothing of which number comes.
#[verifier::external_body]
fn draw_secret() -> (secret: u8)
    ensures
        1 <= secret <= 100,
{
    rand::thread_rng().gen_range(1..=100)
}

/// Whether `c` is white space.
pub open spec fn is_space(c: char) -> bool {
    let u = c as u32;
    ||| 0x09 <= u <= 0x0d
    ||| u == 0x20
    ||| u == 0x85
    ||| u == 0xa0
    ||| u == 0x1680
    ||| 0x2000 <= u <= 0x200a
    ||| u == 0x2028
    ||| u == 0x2029
    ||| u == 0x202f
    ||| u == 0x205f
    ||| u == 0x3000
}

/// `text` without the white space at its start.
pub open spec fn trim_start(text: Seq<char>) -> Seq<char>
    decreases text.len(),
{
    if text.len() > 0 && is_space(text[0]) {
        trim_start(text.drop_first())
    } else {
        text
    }
}

/// `text` without the white space at its end.
pub open spec fn trim_end(text: Seq<char>) -> Seq<char>
    decreases text.len(),
{
    if text.len() > 0 && is_space(text.last()) {
        trim_end(text.drop_last())
    } else {
        text
    }
}

/// `text` without the white space at its start and at its end.
pub open spec fn trimmed(text: Seq<char>) -> Seq<char> {
    trim_end(trim_start(text))
}

/// Whether `c` is a decimal digit.
pub open spec fn is_digit(c: char) -> bool {
    '0' <= c <= '9'
}

/// The number that the digits `digits` write in decimal.
pub open spec fn number_of(digits: Seq<char>) -> nat
    decreases digits.len(),
{
    if digits.len() == 0 {
        0
    } else {
        (10 * number_of(digits.drop_last()) + (digits.last() as u32 - '0' as u32)) as nat
    }
}

/// The digits of a number as typed: `text` without a plus sign at its
/// start.
pub open spec fn unsigned(text: Seq<char>) -> Seq<char> {
    if text.len() > 0 && text[0] == '+' {
        text.drop_first()
    } else {
        text
    }
}

/// The guess that `line` holds: a number between 0 and 255 written in
/// decimal digits, with or without a plus sign before it and white space
/// around it. Anything else is no guess.
pub open spec fn guess_of(line: Seq<char>) -> Option<u8> {
    let digits = unsigned(trimmed(line));
    if digits.len() > 0 && (forall|i: int| 0 <= i < digits.len() ==> is_digit(#[trigger] digits[i]))
        && number_of(digits) <= 255 {
        Some(number_of(digits) as u8)
    } else {
        None
    }
}

/// What a guess is told, given the secret number.
pub open spec fn verdict_of(guess: u8, secret: u8) -> Verdict {
    if guess < secret {
        Verdict::TooSmall
    } else if guess > secret {
        Verdict::TooBig
    } else {
        Verdict::Win
    }
}

/// Whether `c` is white space.
pub fn is_whitespace(c: char) -> (space: bool)
    ensures
        space == is_space(c),
{
    let u: u32 = c as u32;
    (0x09 <= u && u <= 0x0d) || u == 0x20 || u == 0x85 || u == 0xa0 || u == 0x1680 || (0x2000 <= u
        && u <= 0x200a) || u == 0x2028 || u == 0x2029 || u == 0x202f || u == 0x205f || u
        == 0x3000
}

/// White space is trimmed from the start up to the first character that is
/// none.
proof fn lemma_trim_start(text: Seq<char>, from: int)
    requires
        0 <= from <= text.len(),
        forall|i: int| 0 <= i < from ==> is_space(text[i]),
        from < text.len() ==> !is_space(text[from]),
    ensures
        trim_start(text) == text.subrange(from, text.len() as int),
    decreases from,
{
    if from > 0 {
        let rest = text.drop_first();
        assert forall|i: int| 0 <= i < from - 1 implies is_space(rest[i]) by {
            assert(rest[i] == text[i + 1]);
        }
        lemma_trim_start(rest, from - 1);
        assert(rest.subrange(from - 1, rest.len() as int) =~= text.subrange(
            from,
            text.len() as int,
        ));
    } else {
        assert(text.subrange(0, text.len() as int) =~= text);
    }
}

/// White space is trimmed from the end down to the last character that is
/// none.
proof fn lemma_trim_end(text: Seq<char>, to: int)
    requires
        0 <= to <= text.len(),
        forall|i: int| to <= i < text.len() ==> is_space(text[i]),
        to > 0 ==> !is_space(text[to - 1]),
    ensures
        trim_end(text) == text.subrange(0, to),
    decreases text.len() - to,
{
    if to < text.len() {
        let rest = text.drop_last();
        lemma_trim_end(rest, to);
        assert(rest.subrange(0, to) =~= text.subrange(0, to));
    } else {
        assert(text.subrange(0, to) =~= text);
    }
}

/// The guess that `line` holds, if it holds one.
pub fn parse_guess(line: &str) -> (guess: Option<u8>)
    ensures
        guess == guess_of(line@),
{
    let chars = chars_of(line);
    let mut from: usize = 0;
    while from < chars.len() && is_whitespace(chars[from])
        invariant
            from <= chars.len(),
            forall|i: int| 0 <= i < from ==> is_space(chars@[i]),
        decreases chars.len() - from,
    {
        from += 1;
    }
    let mut to: usize = chars.len();
    while to > from && is_whitespace(chars[to - 1])
        invariant
            from <= to <= chars.len(),
            forall|i: int| to <= i < chars.len() ==> is_space(chars@[i]),
        decreases to,
    {
        to -= 1;
    }
    let ghost start_trimmed = chars@.subrange(from as int, chars@.len() as int);
    let ghost core = chars@.subrange(from as int, to as int);
    proof {
        lemma_trim_start(chars@, from as int);
        assert forall|i: int| to - from <= i < start_trimmed.len() implies is_space(
            start_trimmed[i],
        ) by {
            assert(start_trimmed[i] == chars@[from + i]);
        }
        if to > from {
            assert(start_trimmed[to - from - 1] == chars@[to - 1]);
        }
        lemma_trim_end(start_trimmed, to - from);
        assert(start_trimmed.subrange(0, to - from) =~= core);
        assert(trimmed(line@) == core);
    }
    let first = if from < to && chars[from] == '+' {
        from + 1
    } else {
        from
    };
    let ghost digits = chars@.subrange(first as int, to as int);
    proof {
        if first > from {
            assert(core[0] == chars@[from as int]);
            assert(core.drop_first() =~= digits);
        } else if from < to {
            assert(core[0] == chars@[from as int]);
        }
        assert(unsigned(core) == digits);
    }
    if first == to {
        return None;
    }
    let mut value: u32 = 0;
    let mut i: usize = first;
    proof {
        assert(digits.take(0) =~= Seq::<char>::empty());
    }
    while i < to
        invariant
            first <= i <= to <= chars.len(),
            first < to,
            digits == chars@.subrange(first as int, to as int),
            digits == unsigned(trimmed(line@)),
            forall|j: int| 0 <= j < i - first ==> is_digit(#[trigger] digits[j]),
            value == number_of(digits.take(i - first)),
            value <= 255,
        decreases to - i,
    {
        let c = chars[i];
        assert(digits[i - first] == c);
        let ghost seen = digits.take(i - first);
        let ghost next = digits.take(i - first + 1);
        proof {
            assert(next.drop_last() =~= seen);
            assert(next.last() == c);
        }
        if !('0' <= c && c <= '9') {
            assert(!is_digit(digits[i - first]));
            return None;
        }
        let d: u32 = c as u32 - '0' as u32;
        value = 10 * value + d;
        assert(value == number_of(next));
        if value > 255 {
            proof {
                lemma_number_grows(digits, i - first + 1);
            }
            return None;
        }
        i += 1;
    }
    proof {
        assert(digits.take(to - first) =~= digits);
    }
    Some(value as u8)
}

/// The number that some digits write is at least the number that the first
/// of them write.
proof fn lemma_number_grows(digits: Seq<char>, upto: int)
    requires
        0 <= upto <= digits.len(),
        forall|j: int| 0 <= j < upto ==> is_digit(#[trigger] digits[j]),
    ensures
        number_of(digits.take(upto)) <= number_of(digits) || exists|j: int|
            0 <= j < digits.len() && !is_digit(digits[j]),
    decreases digits.len() - upto,
{
    if upto < digits.len() {
        if is_digit(digits[upto]) {
            let next = digits.take(upto + 1);
            assert(next.drop_last() =~= digits.take(upto));
            assert(next.last() == digits[upto]);
            lemma_number_grows(digits, upto + 1);
        }
    } else {
        assert(digits.take(upto) =~= digits);
    }
}

/// What a guess is told, given the secret number.
pub fn judge(guess: u8, secret: u8) -> (verdict: Verdict)
    ensures
        verdict == verdict_of(guess, secret),
{
    if guess < secret {
        Verdict::TooSmall
    } else if guess > secret {
        Verdict::TooBig
    } else {
        Verdict::Win
    }
}

/// What the line that a player typed is told, given the secret number.
pub fn answer(secret: u8, line: &str) -> (verdict: Verdict)
    ensures
        verdict == match guess_of(line@) {
            Some(guess) => verdict_of(guess, secret),
            None => Verdict::NotANumber,
        },
{
    match parse_guess(line) {
        Some(guess) => judge(guess, secret),
        None => Verdict::NotANumber,
    }
}

/// A game with a secret number.
pub struct Game {
    secret: u8,
}

impl Game {
    #[verifier::type_invariant]
    spec fn in_range(self) -> bool {
        1 <= self.secret <= 100
    }

    /// The secret number.
    pub closed spec fn secret(&self) -> u8 {
        self.secret
    }

    /// A game whose secret number is drawn at random between 1 and 100.
    pub fn start() -> (game: Game)
        ensures
            1 <= game.secret() <= 100,
    {
        Game { secret: draw_secret() }
    }

    /// A game with the given secret number, between 1 and 100.
    pub fn with_secret(secret: u8) -> (game: Option<Game>)
        ensures
            game is Some <==> 1 <= secret <= 100,
            game is Some ==> game->Some_0.secret() == secret,
    {
        if 1 <= secret && secret <= 100 {
            Some(Game { secret })
        } else {
            None
        }
    }

    /// Judges one line of input against the secret number.
    pub fn guess(&self, line: &str) -> (verdict: Verdict)
        ensures
            verdict == match guess_of(line@) {
                Some(guess) => verdict_of(guess, self.secret()),
                None => Verdict::NotANumber,
            },
            guess_of(line@) == Some(0u8) ==> verdict == Verdict::TooSmall,
            guess_of(line@) is Some && guess_of(line@)->Some_0 > 100 ==> verdict
                == Verdict::TooBig,
    {
        proof {
            use_type_invariant(self);
        }
        answer(self.secret, line)
    }
}

} // verus!
