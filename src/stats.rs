use vstd::prelude::*;

use crate::numeric::decimal;
use crate::numeric::floor_div;
use crate::numeric::push_decimal;
use crate::numeric::signed_decimal;
use crate::text::chars_to_string;

verus! {

/// An ability score.
#[derive(Clone, Copy, Debug, PartialEq, Eq, Structural)]
pub enum Ability {
    Strength,
    Dexterity,
    Constitution,
    Intelligence,
    Wisdom,
    Charisma,
}

/// Text that names no ability.
#[derive(Clone, Copy, Debug, PartialEq, Eq, Structural)]
pub struct ParseAbilityError;

/// A condition a creature can be immune to.
#[derive(Clone, Copy, Debug, PartialEq, Eq, Structural)]
pub enum Condition {
    Blinded,
    Charmed,
    Deafened,
    Exhaustion,
    Frightened,
    Grappled,
    Incapacitated,
    Invisible,
    Paralyzed,
    Petrified,
    Poisoned,
    Prone,
    Restrained,
    Stunned,
    Unconscious,
}

/// A damage type.
#[derive(Clone, Copy, Debug, PartialEq, Eq, Structural)]
pub enum Damage {
    Bludgeoning,
    Piercing,
    Slashing,
    Cold,
    Fire,
    Thunder,
    Radiant,
    Force,
    Lightning,
    Poison,
    Acid,
    Necrotic,
    Psychic,
}

/// Text that names no damage type.
#[derive(Clone, Copy, Debug, PartialEq, Eq, Structural)]
pub struct ParseDamageError;

/// Which attacks a resistance or immunity is limited to.
#[derive(Clone, Copy, Debug, PartialEq, Eq, Structural)]
pub enum DamageRestriction {
    Spell,
    NotAdamantine,
    NotMagicalNotSilver,
    NotMagicalNotAdamantine,
    NotMagical,
}

/// A language, telepathy with its range, or a custom language.
#[derive(Clone, Debug)]
pub enum Language {
    All,
    Common,
    Goblin,
    DeepSpeech,
    Draconic,
    Auran,
    Sphinx,
    Ignan,
    Abyssal,
    Infernal,
    Elvish,
    Sylvan,
    Undercommon,
    Giant,
    Gnomish,
    Terran,
    Aquan,
    Dwarvish,
    Orc,
    GiantEagle,
    GiantElk,
    BlinkDog,
    GiantOwl,
    Gnoll,
    Celestial,
    Primordial,
    Otyugh,
    Sahuagin,
    Druidic,
    WinterWolf,
    Worg,
    Telepathy(u8),
    Language(String),
}

/// A skill proficiency.
#[derive(Clone, Copy, Debug, PartialEq, Eq, Structural)]
pub enum Skill {
    Athletics,
    Acrobatics,
    SleightOfHand,
    Stealth,
    Arcana,
    History,
    Investigation,
    Nature,
    Religion,
    AnimalHandling,
    Insight,
    Medicine,
    Perception,
    Survival,
    Deception,
    Intimidation,
    Performance,
    Persuasion,
}

/// Text that names no language.
#[derive(Clone, Copy, Debug, PartialEq, Eq, Structural)]
pub struct ParseLanguageError;

/// Worn armor, natural armor with its bonus, or custom armor with its bonus and description.
#[derive(Clone, Debug)]
pub enum Armor {
    Padded,
    Leather,
    StuddedLeather,
    Hide,
    ChainShirt,
    ScaleMail,
    Breastplate,
    HalfPlate,
    RingMail,
    ChainMail,
    Splint,
    Plate,
    Natural(i8),
    Armor(u8, String),
}

/// A creature's size.
#[derive(Clone, Copy, Debug, PartialEq, Eq, Structural)]
pub enum CreatureSize {
    Tiny,
    Small,
    Medium,
    Large,
    Huge,
    Gargantuan,
}

/// A creature's type, or a custom one.
#[derive(Clone, Debug)]
pub enum CreatureType {
    Aberration,
    Beast,
    Celestial,
    Construct,
    Dragon,
    Elemental,
    Fey,
    Fiend,
    Giant,
    Humanoid,
    Monstrosity,
    Ooze,
    Plant,
    Undead,
    Custom(String),
}

/// A creature's alignment, or a custom one.
#[derive(Clone, Debug)]
pub enum Alignment {
    AnyAlignment,
    AnyNonGood,
    AnyNonEvil,
    AnyNonLawful,
    AnyNonChaotic,
    AnyGood,
    AnyEvil,
    AnyLawful,
    AnyChaotic,
    LawfulGood,
    NeutralGood,
    ChaoticGood,
    LawfulNeutral,
    Neutral,
    ChaoticNeutral,
    LawfulEvil,
    NeutralEvil,
    ChaoticEvil,
    Unaligned,
    Custom(String),
}

/// Why text is not a challenge rating.
#[derive(Clone, Copy, Debug, PartialEq, Eq, Structural)]
pub enum ParseChallengeRatingError {
    InvalidDenominator,
    InvalidNumerator,
    ChallengeRatingTooBig,
    CouldNotParseAsNumber,
}

/// A challenge rating: none (no experience), a fraction, or a whole rating up to 30.
#[derive(Clone, Copy, Debug, PartialEq, Eq, Structural)]
pub enum ChallengeRating {
    Unrated,
    Eighth,
    Quarter,
    Half,
    Whole(u8),
}

/// The modifier of an ability score: (score - 10) / 2, rounded down.
pub open spec fn score_mod(score: int) -> int {
    floor_div(score - 10, 2)
}

/// A number with an explicit sign: `+` when not negative.
pub open spec fn plus_signed(n: int) -> Seq<char> {
    if n >= 0 {
        seq!['+'] + decimal(n as nat)
    } else {
        signed_decimal(n)
    }
}

/// Whether a challenge rating is one that the rules know: whole ratings stop at 30.
pub open spec fn known_rating(cr: ChallengeRating) -> bool {
    match cr {
        ChallengeRating::Whole(n) => n <= 30,
        _ => true,
    }
}

/// The proficiency bonus of a challenge rating.
pub open spec fn proficiency_spec(cr: ChallengeRating) -> int {
    match cr {
        ChallengeRating::Whole(a) => if a <= 4 {
            2
        } else {
            (a as int - 1) / 4 + 2
        },
        _ => 2,
    }
}

/// The experience of each whole challenge rating, from 0 to 30.
pub open spec fn xp_table() -> Seq<u32> {
    seq![
        10, 200, 450, 700, 1100, 1800, 2300, 2900, 3900, 5000, 5900, 7200, 8400, 10000, 11500, 13000,
        15000, 18000, 20000, 22000, 25000, 33000, 41000, 50000, 62000, 75000, 90000, 105000, 120000,
        135000, 155000,
    ]
}

pub open spec fn xp_spec(cr: ChallengeRating) -> int {
    match cr {
        ChallengeRating::Unrated => 0,
        ChallengeRating::Eighth => 25,
        ChallengeRating::Quarter => 50,
        ChallengeRating::Half => 100,
        ChallengeRating::Whole(n) => xp_table()[n as int] as int,
    }
}

/// The text of a challenge rating: a fraction, or the whole number.
pub open spec fn rating_text(cr: ChallengeRating) -> Seq<char> {
    match cr {
        ChallengeRating::Unrated => seq!['0'],
        ChallengeRating::Eighth => seq!['1', '/', '8'],
        ChallengeRating::Quarter => seq!['1', '/', '4'],
        ChallengeRating::Half => seq!['1', '/', '2'],
        ChallengeRating::Whole(n) => decimal(n as nat),
    }
}

/// Three decimal digits, with leading zeros.
pub open spec fn three_digits(n: nat) -> Seq<char> {
    seq![
        crate::numeric::digit_char(n / 100),
        crate::numeric::digit_char((n / 10) % 10),
        crate::numeric::digit_char(n % 10),
    ]
}

/// A number in decimal with a comma between each group of three digits.
pub open spec fn with_thousands(n: nat) -> Seq<char>
    decreases n,
{
    if n < 1000 {
        decimal(n)
    } else {
        with_thousands(n / 1000) + seq![','] + three_digits(n % 1000)
    }
}

impl Ability {
    /// The modifier of an ability score.
    pub fn score_to_mod(score: u8) -> (r: i8)
        ensures
            r == score_mod(score as int),
    {
        let d = crate::numeric::div_floor(score as isize - 10, 2);
        assert(-5 <= floor_div(score - 10, 2) <= 122) by {
            assert(floor_div(score - 10, 2) == (score - 10) / 2);
        }
        d as i8
    }

    /// The three-letter abbreviation.
    pub fn to_short_str(&self) -> (r: &'static str)
        ensures
            r@ == match *self {
                Ability::Strength => "str"@,
                Ability::Dexterity => "dex"@,
                Ability::Constitution => "con"@,
                Ability::Intelligence => "int"@,
                Ability::Wisdom => "wis"@,
                Ability::Charisma => "cha"@,
            },
    {
        match self {
            Ability::Strength => "str",
            Ability::Dexterity => "dex",
            Ability::Constitution => "con",
            Ability::Intelligence => "int",
            Ability::Wisdom => "wis",
            Ability::Charisma => "cha",
        }
    }

    /// A score with its signed modifier, such as `14 (+2)`.
    pub fn to_stat_block(score: u8) -> (r: String)
        ensures
            r@ == decimal(score as nat) + seq![' ', '('] + plus_signed(score_mod(score as int)) + seq![')'],
    {
        let m = Ability::score_to_mod(score);
        let mut out: Vec<char> = Vec::new();
        push_decimal(&mut out, score as u64);
        out.push(' ');
        out.push('(');
        if m >= 0 {
            out.push('+');
            push_decimal(&mut out, m as u64);
        } else {
            crate::numeric::push_signed_decimal(&mut out, m as isize);
        }
        out.push(')');
        assert(out@ =~= decimal(score as nat) + seq![' ', '('] + plus_signed(score_mod(score as int)) + seq![')']);
        chars_to_string(&out)
    }
}

/// Writes a number with a comma between each group of three digits.
fn push_thousands(out: &mut Vec<char>, n: u32)
    ensures
        final(out)@ == old(out)@ + with_thousands(n as nat),
    decreases n,
{
    if n < 1000 {
        push_decimal(out, n as u64);
    } else {
        push_thousands(out, n / 1000);
        out.push(',');
        let k = n % 1000;
        out.push(((k / 100) as u8 + 48u8) as char);
        out.push((((k / 10) % 10) as u8 + 48u8) as char);
        out.push(((k % 10) as u8 + 48u8) as char);
        assert(final(out)@ =~= old(out)@ + with_thousands(n as nat));
    }
}

impl ChallengeRating {
    /// The proficiency bonus: 2 up to rating 4, then one more for each further four ratings.
    pub fn get_proficiency_bonus(&self) -> (r: u8)
        requires
            known_rating(*self),
        ensures
            r == proficiency_spec(*self),
    {
        match self {
            ChallengeRating::Whole(a) => if *a <= 4 {
                2
            } else {
                ((*a - 1) / 4 + 2) as u8
            },
            _ => 2,
        }
    }

    /// The experience a creature of this rating is worth.
    pub fn get_xp(&self) -> (r: u32)
        requires
            known_rating(*self),
        ensures
            r == xp_spec(*self),
    {
        match self {
            ChallengeRating::Unrated => 0,
            ChallengeRating::Eighth => 25,
            ChallengeRating::Quarter => 50,
            ChallengeRating::Half => 100,
            ChallengeRating::Whole(n) => {
                let table: Vec<u32> = vec![
                    10, 200, 450, 700, 1100, 1800, 2300, 2900, 3900, 5000, 5900, 7200, 8400, 10000, 11500,
                    13000, 15000, 18000, 20000, 22000, 25000, 33000, 41000, 50000, 62000, 75000, 90000,
                    105000, 120000, 135000, 155000,
                ];
                assert(table@ =~= xp_table());
                table[*n as usize]
            },
        }
    }

    /// Writes the text of the rating.
    pub fn push_text(&self, out: &mut Vec<char>)
        ensures
            final(out)@ == old(out)@ + rating_text(*self),
    {
        match self {
            ChallengeRating::Unrated => {
                out.push('0');
            },
            ChallengeRating::Eighth => {
                out.push('1');
                out.push('/');
                out.push('8');
            },
            ChallengeRating::Quarter => {
                out.push('1');
                out.push('/');
                out.push('4');
            },
            ChallengeRating::Half => {
                out.push('1');
                out.push('/');
                out.push('2');
            },
            ChallengeRating::Whole(n) => {
                push_decimal(out, *n as u64);
            },
        }
        assert(final(out)@ =~= old(out)@ + rating_text(*self));
    }

    /// The rating with its experience, such as `1/4 (50 XP)` or `10 (5,900 XP)`.
    pub fn display_with_xp(&self) -> (r: String)
        requires
            known_rating(*self),
        ensures
            r@ == rating_text(*self) + seq![' ', '('] + with_thousands(xp_spec(*self) as nat) + seq![
                ' ',
                'X',
                'P',
                ')',
            ],
    {
        let mut out: Vec<char> = Vec::new();
        self.push_text(&mut out);
        out.push(' ');
        out.push('(');
        push_thousands(&mut out, self.get_xp());
        out.push(' ');
        out.push('X');
        out.push('P');
        out.push(')');
        assert(out@ =~= rating_text(*self) + seq![' ', '('] + with_thousands(xp_spec(*self) as nat) + seq![
            ' ',
            'X',
            'P',
            ')',
        ]);
        chars_to_string(&out)
    }
}

/// A higher whole challenge rating is worth at least as much experience.
pub proof fn lemma_xp_grows(a: u8, b: u8)
    requires
        a <= b <= 30,
    ensures
        xp_spec(ChallengeRating::Whole(a)) <= xp_spec(ChallengeRating::Whole(b)),
    decreases b - a,
{
    if a < b {
        lemma_xp_grows(a, (b - 1) as u8);
        let t = xp_table();
        assert(t[b - 1] <= t[b as int]);
    }
}

/// The fractional ratings are worth more than rating 0 and less than rating 1, in order.
pub proof fn lemma_xp_fractions()
    ensures
        xp_spec(ChallengeRating::Unrated) < xp_spec(ChallengeRating::Whole(0)),
        xp_spec(ChallengeRating::Whole(0)) < xp_spec(ChallengeRating::Eighth),
        xp_spec(ChallengeRating::Eighth) < xp_spec(ChallengeRating::Quarter),
        xp_spec(ChallengeRating::Quarter) < xp_spec(ChallengeRating::Half),
        xp_spec(ChallengeRating::Half) < xp_spec(ChallengeRating::Whole(1)),
{
}

} // verus!
