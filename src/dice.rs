use vstd::prelude::*;

use crate::numeric::all_digits;
use crate::numeric::decimal;
use crate::numeric::digits_value;
use crate::numeric::is_digit;
use crate::numeric::lemma_decimal_digits;
use crate::numeric::parse_digits;
use crate::numeric::push_decimal;
use crate::text::chars_to_string;
use crate::text::slice_chars;
use crate::text::str_chars;
use crate::text::trim;
use crate::text::trim_chars;

verus! {

/// A die, known by its number of faces.
#[derive(Clone, Copy, Debug, PartialEq, Eq, Structural)]
pub enum Die {
    D4,
    D6,
    D8,
    D10,
    D12,
    D20,
    DCustom(u8),
}

/// Why a die or dice text could not be read.
#[derive(Clone, Copy, Debug, PartialEq, Eq, Structural)]
pub enum ParseDiceError {
    ExpectedU8ForSides,
    ExpectedU8ForCount,
    ExpectedDCharacter,
}

/// A number of rolls of one die.
#[derive(Clone, Copy, Debug, PartialEq, Eq, Structural)]
pub struct Dice {
    pub coefficient: u8,
    pub die: Die,
}

/// The number of faces of a die.
pub open spec fn faces(d: Die) -> nat {
    match d {
        Die::D4 => 4,
        Die::D6 => 6,
        Die::D8 => 8,
        Die::D10 => 10,
        Die::D12 => 12,
        Die::D20 => 20,
        Die::DCustom(n) => n as nat,
    }
}

/// The die with the given number of faces: a standard die where there is one.
pub open spec fn die_of(sides: u8) -> Die {
    if sides == 4 {
        Die::D4
    } else if sides == 6 {
        Die::D6
    } else if sides == 8 {
        Die::D8
    } else if sides == 10 {
        Die::D10
    } else if sides == 12 {
        Die::D12
    } else if sides == 20 {
        Die::D20
    } else {
        Die::DCustom(sides)
    }
}

/// The text of a die: `d` and its faces.
pub open spec fn die_text(d: Die) -> Seq<char> {
    seq!['d'] + decimal(faces(d))
}

/// The text of dice: the count, `d` and the faces.
pub open spec fn dice_text(d: Dice) -> Seq<char> {
    decimal(d.coefficient as nat) + die_text(d.die)
}

/// The expected total of the dice, rounded down: count times (faces + 1) / 2.
pub open spec fn dice_average(d: Dice) -> int {
    (d.coefficient * (faces(d.die) + 1)) as int / 2
}

/// The text of a die's faces, with an optional leading `d` or `D` removed.
pub open spec fn strip_d(s: Seq<char>) -> Seq<char> {
    if s.len() > 0 && (s[0] == 'd' || s[0] == 'D') {
        s.drop_first()
    } else {
        s
    }
}

/// Whether text is a count of faces or of dice: digits worth 255 at most.
pub open spec fn is_u8_text(s: Seq<char>) -> bool {
    s.len() > 0 && all_digits(s) && digits_value(s) <= 255
}

/// What reading a die from text gives.
pub open spec fn parse_die_spec(s: Seq<char>) -> Result<Die, ParseDiceError> {
    let body = strip_d(trim(s));
    if is_u8_text(body) {
        Ok(die_of(digits_value(body) as u8))
    } else {
        Err(ParseDiceError::ExpectedU8ForSides)
    }
}

/// Whether a character separates the count from the die.
pub open spec fn is_d(c: char) -> bool {
    c == 'd' || c == 'D'
}

/// The position of the first `d` or `D`, if any.
pub open spec fn first_d(s: Seq<char>) -> Option<int> {
    if exists|i: int| 0 <= i < s.len() && is_d(s[i]) {
        Some(choose|i: int| 0 <= i < s.len() && is_d(s[i]) && forall|k: int| 0 <= k < i ==> !is_d(s[k]))
    } else {
        None
    }
}

/// What reading dice from text gives: count (1 when absent), then a die.
pub open spec fn parse_dice_spec(s: Seq<char>) -> Result<Dice, ParseDiceError> {
    match first_d(s) {
        None => Err(ParseDiceError::ExpectedDCharacter),
        Some(i) => {
            let head = s.subrange(0, i);
            let tail = s.subrange(i + 1, s.len() as int);
            if head.len() != 0 && !is_u8_text(trim(head)) {
                Err(ParseDiceError::ExpectedU8ForCount)
            } else {
                match parse_die_spec(tail) {
                    Err(e) => Err(e),
                    Ok(die) => Ok(
                        Dice {
                            coefficient: if head.len() == 0 { 1 } else { digits_value(trim(head)) as u8 },
                            die,
                        },
                    ),
                }
            }
        },
    }
}

/// Reads an unsigned byte written in decimal digits.
fn parse_u8_chars(s: &Vec<char>) -> (r: Option<u8>)
    ensures
        match r {
            Some(v) => is_u8_text(s@) && v == digits_value(s@),
            None => !is_u8_text(s@),
        },
{
    let mut i: usize = 0;
    while i < s.len()
        invariant
            0 <= i <= s@.len(),
            forall|k: int| 0 <= k < i ==> is_digit(#[trigger] s@[k]),
        decreases s@.len() - i,
    {
        if !(s[i] >= '0' && s[i] <= '9') {
            return None;
        }
        i = i + 1;
    }
    match parse_digits(s, 255) {
        Some(v) => Some(v as u8),
        None => None,
    }
}

impl Die {
    /// The die with the given number of faces.
    pub fn new(sides: u8) -> (r: Die)
        ensures
            r == die_of(sides),
    {
        match sides {
            4 => Die::D4,
            6 => Die::D6,
            8 => Die::D8,
            10 => Die::D10,
            12 => Die::D12,
            20 => Die::D20,
            a => Die::DCustom(a),
        }
    }

    /// The number of faces.
    pub fn sides(&self) -> (r: u8)
        ensures
            r == faces(*self),
    {
        match self {
            Die::D4 => 4,
            Die::D6 => 6,
            Die::D8 => 8,
            Die::D10 => 10,
            Die::D12 => 12,
            Die::D20 => 20,
            Die::DCustom(a) => *a,
        }
    }

    /// Twice the expected value of one roll: faces + 1.
    pub fn doubled_average(&self) -> (r: u16)
        ensures
            r == faces(*self) + 1,
    {
        self.sides() as u16 + 1
    }

    /// Writes the text of the die after `out`.
    pub fn push_text(&self, out: &mut Vec<char>)
        ensures
            final(out)@ == old(out)@ + die_text(*self),
    {
        out.push('d');
        push_decimal(out, self.sides() as u64);
        assert(final(out)@ =~= old(out)@ + die_text(*self));
    }

    /// The text of the die, such as `d6`.
    pub fn to_string(&self) -> (r: String)
        ensures
            r@ == die_text(*self),
    {
        let mut out: Vec<char> = Vec::new();
        self.push_text(&mut out);
        assert(out@ =~= die_text(*self));
        chars_to_string(&out)
    }

    /// Reads a die from characters: faces, with an optional leading `d` or `D`.
    pub fn parse_chars(s: &Vec<char>) -> (r: Result<Die, ParseDiceError>)
        ensures
            r == parse_die_spec(s@),
    {
        let t = trim_chars(s);
        let body = if t.len() > 0 && (t[0] == 'd' || t[0] == 'D') {
            slice_chars(&t, 1, t.len())
        } else {
            slice_chars(&t, 0, t.len())
        };
        assert(body@ =~= strip_d(trim(s@)));
        match parse_u8_chars(&body) {
            Some(v) => Ok(Die::new(v)),
            None => Err(ParseDiceError::ExpectedU8ForSides),
        }
    }

    /// Reads a die from text, such as `d8` or `12`.
    pub fn parse(s: &str) -> (r: Result<Die, ParseDiceError>)
        ensures
            r == parse_die_spec(s@),
    {
        let v = str_chars(s);
        Die::parse_chars(&v)
    }
}

impl Dice {
    /// Dice of `coefficient` rolls of `die`.
    pub fn new(coefficient: u8, die: &Die) -> (r: Dice)
        ensures
            r.coefficient == coefficient,
            r.die == *die,
    {
        Dice { coefficient, die: *die }
    }

    /// One roll of a die.
    pub fn from_die(die: Die) -> (r: Dice)
        ensures
            r.coefficient == 1,
            r.die == die,
    {
        Dice { coefficient: 1, die }
    }

    /// The expected total, rounded down.
    pub fn average(&self) -> (r: u16)
        ensures
            r == dice_average(*self),
    {
        let d = self.die.doubled_average();
        assert(self.coefficient * d <= 255 * 256) by (nonlinear_arith)
            requires
                self.coefficient <= 255,
                d <= 256,
        {
        }
        ((self.coefficient as u32 * d as u32) / 2) as u16
    }

    /// Writes the text of the dice after `out`.
    pub fn push_text(&self, out: &mut Vec<char>)
        ensures
            final(out)@ == old(out)@ + dice_text(*self),
    {
        push_decimal(out, self.coefficient as u64);
        self.die.push_text(out);
        assert(final(out)@ =~= old(out)@ + dice_text(*self));
    }

    /// The text of the dice, such as `2d6`.
    pub fn to_string(&self) -> (r: String)
        ensures
            r@ == dice_text(*self),
    {
        let mut out: Vec<char> = Vec::new();
        self.push_text(&mut out);
        assert(out@ =~= dice_text(*self));
        chars_to_string(&out)
    }

    /// Reads dice from characters: an optional count, `d` or `D`, and the faces.
    pub fn parse_chars(s: &Vec<char>) -> (r: Result<Dice, ParseDiceError>)
        ensures
            r == parse_dice_spec(s@),
    {
        let mut i: usize = 0;
        while i < s.len() && !(s[i] == 'd' || s[i] == 'D')
            invariant
                0 <= i <= s@.len(),
                forall|k: int| 0 <= k < i ==> !is_d(#[trigger] s@[k]),
            decreases s@.len() - i,
        {
            i = i + 1;
        }
        if i == s.len() {
            assert(!exists|k: int| 0 <= k < s@.len() && is_d(s@[k]));
            return Err(ParseDiceError::ExpectedDCharacter);
        }
        proof {
            let w = i as int;
            assert(0 <= w < s@.len() && is_d(s@[w]));
            let c = first_d(s@)->Some_0;
            assert(c == w) by {
                if c < w {
                    assert(!is_d(s@[c]));
                } else if c > w {
                    assert(!is_d(s@[w]));
                }
            }
        }
        let head = slice_chars(s, 0, i);
        let tail = slice_chars(s, i + 1, s.len());
        let coefficient: u8 = if head.len() == 0 {
            1
        } else {
            let h = trim_chars(&head);
            match parse_u8_chars(&h) {
                Some(v) => v,
                None => {
                    return Err(ParseDiceError::ExpectedU8ForCount);
                },
            }
        };
        match Die::parse_chars(&tail) {
            Ok(die) => Ok(Dice { coefficient, die }),
            Err(e) => Err(e),
        }
    }

    /// Reads dice from text, such as `2d6` or `d8`.
    pub fn parse(s: &str) -> (r: Result<Dice, ParseDiceError>)
        ensures
            r == parse_dice_spec(s@),
    {
        let v = str_chars(s);
        Dice::parse_chars(&v)
    }
}

/// Reading the text of any dice gives the same dice back.
pub proof fn lemma_dice_text_round_trip(d: Dice)
    requires
        d.die == die_of(faces(d.die) as u8),
    ensures
        parse_dice_spec(dice_text(d)) == Ok::<Dice, ParseDiceError>(d),
{
    lemma_decimal_digits(d.coefficient as nat);
    lemma_decimal_digits(faces(d.die));
    let s = dice_text(d);
    let n = decimal(d.coefficient as nat);
    let w = n.len() as int;
    assert(is_d(s[w]));
    assert forall|k: int| 0 <= k < w implies !is_d(#[trigger] s[k]) by {
        assert(is_digit(n[k]));
    }
    let c = first_d(s)->Some_0;
    assert(c == w) by {
        if c < w {
            assert(!is_d(s[c]));
        } else if c > w {
            assert(!is_d(s[w]));
        }
    }
    assert(s.subrange(0, w) =~= n);
    assert(trim(n) == n) by {
        assert(!crate::text::is_space(n[0]));
        assert(!crate::text::is_space(n.last())) by {
            assert(is_digit(n[n.len() - 1]));
        }
    }
    let tail = s.subrange(w + 1, s.len() as int);
    let f = decimal(faces(d.die));
    assert(tail =~= f);
    assert(trim(f) == f) by {
        assert(!crate::text::is_space(f[0]));
        assert(!crate::text::is_space(f.last())) by {
            assert(is_digit(f[f.len() - 1]));
        }
    }
    assert(strip_d(f) == f) by {
        assert(is_digit(f[0]));
    }
    assert(faces(d.die) <= 255);
}

} // verus!
