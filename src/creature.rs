use vstd::prelude::*;

use crate::dice::Die;
use crate::dice::Dice;
use crate::dice_expression::DiceExpression;
use crate::stats::Ability;
use crate::stats::Alignment;
use crate::stats::Armor;
use crate::stats::ChallengeRating;
use crate::stats::Condition;
use crate::stats::CreatureSize;
use crate::stats::CreatureType;
use crate::stats::Damage;
use crate::stats::Language;
use crate::stats::Skill;
use crate::stats::score_mod;

verus! {

/// Movement speeds in feet; a speed of zero is no speed. Custom movements keep their order and
/// each name appears once.
pub struct CreatureSpeed {
    pub walk: Option<u8>,
    pub swim: Option<u8>,
    pub fly: Option<u8>,
    pub burrow: Option<u8>,
    pub climb: Option<u8>,
    pub hover: bool,
    pub notes: Option<String>,
    pub custom: Vec<(String, u8)>,
}

/// Skill proficiencies: `None` for none, `Some(false)` for proficiency, `Some(true)` for expertise.
pub struct CreatureProficiencies {
    pub athletics: Option<bool>,
    pub acrobatics: Option<bool>,
    pub sleight_of_hand: Option<bool>,
    pub stealth: Option<bool>,
    pub arcana: Option<bool>,
    pub history: Option<bool>,
    pub investigation: Option<bool>,
    pub nature: Option<bool>,
    pub religion: Option<bool>,
    pub animal_handling: Option<bool>,
    pub insight: Option<bool>,
    pub medicine: Option<bool>,
    pub perception: Option<bool>,
    pub survival: Option<bool>,
    pub deception: Option<bool>,
    pub intimidation: Option<bool>,
    pub performance: Option<bool>,
    pub persuasion: Option<bool>,
}

/// Special senses, in feet. Custom senses keep their order and each name appears once.
pub struct CreatureSenses {
    pub blindsight: Option<(u8, bool)>,
    pub darkvision: Option<u8>,
    pub tremorsense: Option<u8>,
    pub truesight: Option<u8>,
    pub custom: Vec<(String, u8)>,
}

/// Damage types a creature is vulnerable, resistant or immune to.
pub struct CreatureResistances {
    pub bludgeoning: bool,
    pub piercing: bool,
    pub slashing: bool,
    pub cold: bool,
    pub fire: bool,
    pub thunder: bool,
    pub radiant: bool,
    pub force: bool,
    pub lightning: bool,
    pub poison: bool,
    pub acid: bool,
    pub necrotic: bool,
    pub psychic: bool,
    pub all: bool,
    pub non_magical_attacks: bool,
    pub non_silvered_attacks: bool,
    pub non_adamantine_attacks: bool,
    pub custom: Option<String>,
}

/// Conditions a creature is immune to.
pub struct CreatureConditionImmunities {
    pub blinded: bool,
    pub charmed: bool,
    pub deafened: bool,
    pub exhaustion: bool,
    pub frightened: bool,
    pub grappled: bool,
    pub incapacitated: bool,
    pub invisible: bool,
    pub paralyzed: bool,
    pub petrified: bool,
    pub poisoned: bool,
    pub prone: bool,
    pub restrained: bool,
    pub stunned: bool,
    pub unconscious: bool,
}

/// Worn armor, shield and mage armor.
pub struct CreatureArmor {
    pub armor: Option<Armor>,
    pub shield: bool,
    pub mage_armor: bool,
}

/// A creature's statistics, filled in by its builder commands.
pub struct Creature {
    pub name: String,
    pub subject: Option<String>,
    pub subject_cap: Option<String>,
    pub possessive: Option<String>,
    pub possessive_cap: Option<String>,
    pub subject_pronoun: Option<String>,
    pub subject_pronoun_cap: Option<String>,
    pub possessive_pronoun: Option<String>,
    pub possessive_pronoun_cap: Option<String>,
    pub object_pronoun: Option<String>,
    pub reflexive_pronoun: Option<String>,
    pub size: CreatureSize,
    pub type_: CreatureType,
    pub subtype: Option<String>,
    pub group: Option<String>,
    pub alignment: Alignment,
    pub hit_die: Die,
    pub hit_dice_count: u8,
    pub override_hit_points: Option<u16>,
    pub armor: CreatureArmor,
    pub speed: CreatureSpeed,
    pub strength: u8,
    pub dexterity: u8,
    pub constitution: u8,
    pub intelligence: u8,
    pub wisdom: u8,
    pub charisma: u8,
    pub strength_save: bool,
    pub dexterity_save: bool,
    pub constitution_save: bool,
    pub intelligence_save: bool,
    pub wisdom_save: bool,
    pub charisma_save: bool,
    pub skills: CreatureProficiencies,
    pub vulnerabilities: CreatureResistances,
    pub resistances: CreatureResistances,
    pub immunities: CreatureResistances,
    pub condition_immunities: CreatureConditionImmunities,
    pub senses: CreatureSenses,
    pub languages: Vec<(Language, bool)>,
    pub challenge_rating: ChallengeRating,
    pub source: Option<String>,
}

/// The text of an optional string.
pub open spec fn opt_view(o: Option<String>) -> Option<Seq<char>> {
    match o {
        Some(s) => Some(s@),
        None => None,
    }
}

/// A speed of zero means no speed.
pub open spec fn speed_of(speed: u8) -> Option<u8> {
    if speed == 0 {
        None
    } else {
        Some(speed)
    }
}

/// The names and values of named distances, in order.
pub open spec fn named_view(v: Seq<(String, u8)>) -> Seq<(Seq<char>, u8)> {
    v.map_values(|e: (String, u8)| (e.0@, e.1))
}

/// Named distances after setting one: a zero removes the name, another value replaces the
/// name's value in place or goes last.
pub open spec fn set_named(v: Seq<(Seq<char>, u8)>, name: Seq<char>, value: u8) -> Seq<(Seq<char>, u8)> {
    if value == 0 {
        v.filter(|e: (Seq<char>, u8)| e.0 != name)
    } else if exists|i: int| 0 <= i < v.len() && v[i].0 == name {
        v.map_values(|e: (Seq<char>, u8)| if e.0 == name { (name, value) } else { e })
    } else {
        v.push((name, value))
    }
}

/// Sets or removes a named distance.
fn set_named_exec(v: &mut Vec<(String, u8)>, name: &str, value: u8)
    ensures
        named_view(final(v)@) == set_named(named_view(old(v)@), name@, value),
{
    let ghost old_view = named_view(v@);
    let key = crate::text::str_chars(name);
    let mut result: Vec<(String, u8)> = Vec::new();
    let mut found = false;
    let mut i: usize = 0;
    while i < v.len()
        invariant
            0 <= i <= v@.len(),
            v@ == old(v)@,
            old_view == named_view(v@),
            key@ == name@,
            found == exists|k: int| 0 <= k < i && old_view[k].0 == name@,
            value == 0 ==> named_view(result@) == old_view.take(i as int).filter(
                |e: (Seq<char>, u8)| e.0 != name@,
            ),
            value != 0 ==> named_view(result@) == old_view.take(i as int).map_values(
                |e: (Seq<char>, u8)| if e.0 == name@ { (name@, value) } else { e },
            ),
        decreases v@.len() - i,
    {
        let k2 = crate::text::str_chars(v[i].0.as_str());
        let same = crate::text::chars_equal(&k2, &key);
        let ghost e = old_view[i as int];
        assert(old_view.take(i as int + 1) =~= old_view.take(i as int).push(e));
        assert(e.0 == v@[i as int].0@);
        if same {
            found = true;
            if value != 0 {
                let ghost before = named_view(result@);
                result.push((name.to_owned(), value));
                assert(named_view(result@) =~= before.push((name@, value)));
            }
        } else {
            let ghost before = named_view(result@);
            result.push((v[i].0.clone(), v[i].1));
            assert(named_view(result@) =~= before.push(e));
        }
        proof {
            if value == 0 {
                reveal(Seq::filter);
                assert(old_view.take(i as int + 1).drop_last() =~= old_view.take(i as int));
            }
        }
        i = i + 1;
    }
    assert(old_view.take(v@.len() as int) =~= old_view);
    if !found && value != 0 {
        let ghost before = named_view(result@);
        result.push((name.to_owned(), value));
        assert(named_view(result@) =~= before.push((name@, value)));
    }
    *v = result;
}

impl Creature {
    /// Sets the source book.
    pub fn set_source(&mut self, name: &str)
        ensures
            opt_view(final(self).source) == Some(name@),
            *final(self) == (Creature { source: final(self).source, ..*old(self) }),
    {
        self.source = Some(name.to_owned());
    }

    /// Sets the name.
    pub fn set_name(&mut self, name: &str)
        ensures
            final(self).name@ == name@,
            *final(self) == (Creature { name: final(self).name, ..*old(self) }),
    {
        self.name = name.to_owned();
    }

    /// Sets how the creature is named as the subject of a sentence.
    pub fn set_subject(&mut self, name: &str)
        ensures
            opt_view(final(self).subject) == Some(name@),
            *final(self) == (Creature { subject: final(self).subject, ..*old(self) }),
    {
        self.subject = Some(name.to_owned());
    }

    /// Sets the subject at the start of a sentence.
    pub fn set_capitalized_subject(&mut self, name: &str)
        ensures
            opt_view(final(self).subject_cap) == Some(name@),
            *final(self) == (Creature { subject_cap: final(self).subject_cap, ..*old(self) }),
    {
        self.subject_cap = Some(name.to_owned());
    }

    /// Sets the possessive form of the name.
    pub fn set_possessive(&mut self, name: &str)
        ensures
            opt_view(final(self).possessive) == Some(name@),
            *final(self) == (Creature { possessive: final(self).possessive, ..*old(self) }),
    {
        self.possessive = Some(name.to_owned());
    }

    /// Sets the possessive at the start of a sentence.
    pub fn set_capitalized_possessive(&mut self, name: &str)
        ensures
            opt_view(final(self).possessive_cap) == Some(name@),
            *final(self) == (Creature { possessive_cap: final(self).possessive_cap, ..*old(self) }),
    {
        self.possessive_cap = Some(name.to_owned());
    }

    /// Sets the subject pronoun.
    pub fn set_subject_pronoun(&mut self, pronoun: &str)
        ensures
            opt_view(final(self).subject_pronoun) == Some(pronoun@),
            *final(self) == (Creature { subject_pronoun: final(self).subject_pronoun, ..*old(self) }),
    {
        self.subject_pronoun = Some(pronoun.to_owned());
    }

    /// Sets the subject pronoun at the start of a sentence.
    pub fn set_subject_pronoun_cap(&mut self, pronoun: &str)
        ensures
            opt_view(final(self).subject_pronoun_cap) == Some(pronoun@),
            *final(self) == (Creature { subject_pronoun_cap: final(self).subject_pronoun_cap, ..*old(self) }),
    {
        self.subject_pronoun_cap = Some(pronoun.to_owned());
    }

    /// Sets the possessive pronoun.
    pub fn set_possessive_pronoun(&mut self, pronoun: &str)
        ensures
            opt_view(final(self).possessive_pronoun) == Some(pronoun@),
            *final(self) == (Creature { possessive_pronoun: final(self).possessive_pronoun, ..*old(self) }),
    {
        self.possessive_pronoun = Some(pronoun.to_owned());
    }

    /// Sets the possessive pronoun at the start of a sentence.
    pub fn set_possessive_pronoun_cap(&mut self, pronoun: &str)
        ensures
            opt_view(final(self).possessive_pronoun_cap) == Some(pronoun@),
            *final(self) == (Creature { possessive_pronoun_cap: final(self).possessive_pronoun_cap, ..*old(self) }),
    {
        self.possessive_pronoun_cap = Some(pronoun.to_owned());
    }

    /// Sets the object pronoun.
    pub fn set_object_pronoun(&mut self, pronoun: &str)
        ensures
            opt_view(final(self).object_pronoun) == Some(pronoun@),
            *final(self) == (Creature { object_pronoun: final(self).object_pronoun, ..*old(self) }),
    {
        self.object_pronoun = Some(pronoun.to_owned());
    }

    /// Sets the reflexive pronoun.
    pub fn set_reflexive_pronoun(&mut self, pronoun: &str)
        ensures
            opt_view(final(self).reflexive_pronoun) == Some(pronoun@),
            *final(self) == (Creature { reflexive_pronoun: final(self).reflexive_pronoun, ..*old(self) }),
    {
        self.reflexive_pronoun = Some(pronoun.to_owned());
    }

    /// Sets the subtype.
    pub fn set_subtype(&mut self, name: &str)
        ensures
            opt_view(final(self).subtype) == Some(name@),
            *final(self) == (Creature { subtype: final(self).subtype, ..*old(self) }),
    {
        self.subtype = Some(name.to_owned());
    }

    /// Sets the group.
    pub fn set_group(&mut self, group: &str)
        ensures
            opt_view(final(self).group) == Some(group@),
            *final(self) == (Creature { group: final(self).group, ..*old(self) }),
    {
        self.group = Some(group.to_owned());
    }

    /// Makes the creature tiny.
    pub fn set_tiny(&mut self)
        ensures
            *final(self) == (Creature { size: CreatureSize::Tiny, ..*old(self) }),
    {
        self.size = CreatureSize::Tiny;
    }

    /// Makes the creature small.
    pub fn set_small(&mut self)
        ensures
            *final(self) == (Creature { size: CreatureSize::Small, ..*old(self) }),
    {
        self.size = CreatureSize::Small;
    }

    /// Makes the creature medium.
    pub fn set_medium(&mut self)
        ensures
            *final(self) == (Creature { size: CreatureSize::Medium, ..*old(self) }),
    {
        self.size = CreatureSize::Medium;
    }

    /// Makes the creature large.
    pub fn set_large(&mut self)
        ensures
            *final(self) == (Creature { size: CreatureSize::Large, ..*old(self) }),
    {
        self.size = CreatureSize::Large;
    }

    /// Makes the creature huge.
    pub fn set_huge(&mut self)
        ensures
            *final(self) == (Creature { size: CreatureSize::Huge, ..*old(self) }),
    {
        self.size = CreatureSize::Huge;
    }

    /// Makes the creature gargantuan.
    pub fn set_gargantuan(&mut self)
        ensures
            *final(self) == (Creature { size: CreatureSize::Gargantuan, ..*old(self) }),
    {
        self.size = CreatureSize::Gargantuan;
    }

    /// Sets the type to aberration.
    pub fn set_aberration(&mut self)
        ensures
            *final(self) == (Creature { type_: CreatureType::Aberration, ..*old(self) }),
    {
        self.type_ = CreatureType::Aberration;
    }

    /// Sets the type to beast.
    pub fn set_beast(&mut self)
        ensures
            *final(self) == (Creature { type_: CreatureType::Beast, ..*old(self) }),
    {
        self.type_ = CreatureType::Beast;
    }

    /// Sets the type to celestial.
    pub fn set_celestial(&mut self)
        ensures
            *final(self) == (Creature { type_: CreatureType::Celestial, ..*old(self) }),
    {
        self.type_ = CreatureType::Celestial;
    }

    /// Sets the type to construct.
    pub fn set_construct(&mut self)
        ensures
            *final(self) == (Creature { type_: CreatureType::Construct, ..*old(self) }),
    {
        self.type_ = CreatureType::Construct;
    }

    /// Sets the type to dragon.
    pub fn set_dragon(&mut self)
        ensures
            *final(self) == (Creature { type_: CreatureType::Dragon, ..*old(self) }),
    {
        self.type_ = CreatureType::Dragon;
    }

    /// Sets the type to elemental.
    pub fn set_elemental(&mut self)
        ensures
            *final(self) == (Creature { type_: CreatureType::Elemental, ..*old(self) }),
    {
        self.type_ = CreatureType::Elemental;
    }

    /// Sets the type to fey.
    pub fn set_fey(&mut self)
        ensures
            *final(self) == (Creature { type_: CreatureType::Fey, ..*old(self) }),
    {
        self.type_ = CreatureType::Fey;
    }

    /// Sets the type to fiend.
    pub fn set_fiend(&mut self)
        ensures
            *final(self) == (Creature { type_: CreatureType::Fiend, ..*old(self) }),
    {
        self.type_ = CreatureType::Fiend;
    }

    /// Sets the type to giant.
    pub fn set_giant(&mut self)
        ensures
            *final(self) == (Creature { type_: CreatureType::Giant, ..*old(self) }),
    {
        self.type_ = CreatureType::Giant;
    }

    /// Sets the type to humanoid.
    pub fn set_humanoid(&mut self)
        ensures
            *final(self) == (Creature { type_: CreatureType::Humanoid, ..*old(self) }),
    {
        self.type_ = CreatureType::Humanoid;
    }

    /// Sets the type to monstrosity.
    pub fn set_monstrosity(&mut self)
        ensures
            *final(self) == (Creature { type_: CreatureType::Monstrosity, ..*old(self) }),
    {
        self.type_ = CreatureType::Monstrosity;
    }

    /// Sets the type to ooze.
    pub fn set_ooze(&mut self)
        ensures
            *final(self) == (Creature { type_: CreatureType::Ooze, ..*old(self) }),
    {
        self.type_ = CreatureType::Ooze;
    }

    /// Sets the type to plant.
    pub fn set_plant(&mut self)
        ensures
            *final(self) == (Creature { type_: CreatureType::Plant, ..*old(self) }),
    {
        self.type_ = CreatureType::Plant;
    }

    /// Sets the type to undead.
    pub fn set_undead(&mut self)
        ensures
            *final(self) == (Creature { type_: CreatureType::Undead, ..*old(self) }),
    {
        self.type_ = CreatureType::Undead;
    }

    /// Sets a custom type.
    pub fn set_custom_type(&mut self, name: &str)
        ensures
            final(self).type_ matches CreatureType::Custom(t) && t@ == name@,
            *final(self) == (Creature { type_: final(self).type_, ..*old(self) }),
    {
        self.type_ = CreatureType::Custom(name.to_owned());
    }

    /// Sets the alignment.
    pub fn set_any_alignment(&mut self)
        ensures
            *final(self) == (Creature { alignment: Alignment::AnyAlignment, ..*old(self) }),
    {
        self.alignment = Alignment::AnyAlignment;
    }

    /// Sets the alignment.
    pub fn set_any_non_good(&mut self)
        ensures
            *final(self) == (Creature { alignment: Alignment::AnyNonGood, ..*old(self) }),
    {
        self.alignment = Alignment::AnyNonGood;
    }

    /// Sets the alignment.
    pub fn set_any_non_evil(&mut self)
        ensures
            *final(self) == (Creature { alignment: Alignment::AnyNonEvil, ..*old(self) }),
    {
        self.alignment = Alignment::AnyNonEvil;
    }

    /// Sets the alignment.
    pub fn set_any_non_lawful(&mut self)
        ensures
            *final(self) == (Creature { alignment: Alignment::AnyNonLawful, ..*old(self) }),
    {
        self.alignment = Alignment::AnyNonLawful;
    }

    /// Sets the alignment.
    pub fn set_any_non_chaotic(&mut self)
        ensures
            *final(self) == (Creature { alignment: Alignment::AnyNonChaotic, ..*old(self) }),
    {
        self.alignment = Alignment::AnyNonChaotic;
    }

    /// Sets the alignment.
    pub fn set_any_good(&mut self)
        ensures
            *final(self) == (Creature { alignment: Alignment::AnyGood, ..*old(self) }),
    {
        self.alignment = Alignment::AnyGood;
    }

    /// Sets the alignment.
    pub fn set_any_evil(&mut self)
        ensures
            *final(self) == (Creature { alignment: Alignment::AnyEvil, ..*old(self) }),
    {
        self.alignment = Alignment::AnyEvil;
    }

    /// Sets the alignment.
    pub fn set_any_lawful(&mut self)
        ensures
            *final(self) == (Creature { alignment: Alignment::AnyLawful, ..*old(self) }),
    {
        self.alignment = Alignment::AnyLawful;
    }

    /// Sets the alignment.
    pub fn set_any_chaotic(&mut self)
        ensures
            *final(self) == (Creature { alignment: Alignment::AnyChaotic, ..*old(self) }),
    {
        self.alignment = Alignment::AnyChaotic;
    }

    /// Sets the alignment.
    pub fn set_lawful_good(&mut self)
        ensures
            *final(self) == (Creature { alignment: Alignment::LawfulGood, ..*old(self) }),
    {
        self.alignment = Alignment::LawfulGood;
    }

    /// Sets the alignment.
    pub fn set_neutral_good(&mut self)
        ensures
            *final(self) == (Creature { alignment: Alignment::NeutralGood, ..*old(self) }),
    {
        self.alignment = Alignment::NeutralGood;
    }

    /// Sets the alignment.
    pub fn set_chaotic_good(&mut self)
        ensures
            *final(self) == (Creature { alignment: Alignment::ChaoticGood, ..*old(self) }),
    {
        self.alignment = Alignment::ChaoticGood;
    }

    /// Sets the alignment.
    pub fn set_lawful_neutral(&mut self)
        ensures
            *final(self) == (Creature { alignment: Alignment::LawfulNeutral, ..*old(self) }),
    {
        self.alignment = Alignment::LawfulNeutral;
    }

    /// Sets the alignment.
    pub fn set_neutral(&mut self)
        ensures
            *final(self) == (Creature { alignment: Alignment::Neutral, ..*old(self) }),
    {
        self.alignment = Alignment::Neutral;
    }

    /// Sets the alignment.
    pub fn set_chaotic_neutral(&mut self)
        ensures
            *final(self) == (Creature { alignment: Alignment::ChaoticNeutral, ..*old(self) }),
    {
        self.alignment = Alignment::ChaoticNeutral;
    }

    /// Sets the alignment.
    pub fn set_lawful_evil(&mut self)
        ensures
            *final(self) == (Creature { alignment: Alignment::LawfulEvil, ..*old(self) }),
    {
        self.alignment = Alignment::LawfulEvil;
    }

    /// Sets the alignment.
    pub fn set_neutral_evil(&mut self)
        ensures
            *final(self) == (Creature { alignment: Alignment::NeutralEvil, ..*old(self) }),
    {
        self.alignment = Alignment::NeutralEvil;
    }

    /// Sets the alignment.
    pub fn set_chaotic_evil(&mut self)
        ensures
            *final(self) == (Creature { alignment: Alignment::ChaoticEvil, ..*old(self) }),
    {
        self.alignment = Alignment::ChaoticEvil;
    }

    /// Sets the alignment.
    pub fn set_unaligned(&mut self)
        ensures
            *final(self) == (Creature { alignment: Alignment::Unaligned, ..*old(self) }),
    {
        self.alignment = Alignment::Unaligned;
    }

    /// Sets a custom alignment.
    pub fn set_custom_alignment(&mut self, name: &str)
        ensures
            final(self).alignment matches Alignment::Custom(t) && t@ == name@,
            *final(self) == (Creature { alignment: final(self).alignment, ..*old(self) }),
    {
        self.alignment = Alignment::Custom(name.to_owned());
    }

    /// Sets the hit die.
    pub fn set_hit_die(&mut self, die: &Die)
        ensures
            *final(self) == (Creature { hit_die: *die, ..*old(self) }),
    {
        self.hit_die = *die;
    }

    /// Sets the number of hit dice.
    pub fn set_hit_dice_count(&mut self, count: &u8)
        ensures
            *final(self) == (Creature { hit_dice_count: *count, ..*old(self) }),
    {
        self.hit_dice_count = *count;
    }

    /// Sets hit points that replace the average of the hit dice.
    pub fn set_hit_points_override(&mut self, points: &u16)
        ensures
            *final(self) == (Creature { override_hit_points: Some(*points), ..*old(self) }),
    {
        self.override_hit_points = Some(*points);
    }

    /// Sets the worn armor.
    pub fn set_armor(&mut self, armor: &Armor)
        ensures
            final(self).armor.armor is Some,
            *final(self) == (Creature { armor: CreatureArmor { armor: final(self).armor.armor, ..old(self).armor }, ..*old(self) }),
    {
        self.armor.armor = Some(armor.clone());
    }

    /// Adds a shield.
    pub fn enable_shield(&mut self)
        ensures
            *final(self) == (Creature { armor: CreatureArmor { shield: true, ..old(self).armor }, ..*old(self) }),
    {
        self.armor.shield = true;
    }

    /// Removes the shield.
    pub fn disable_shield(&mut self)
        ensures
            *final(self) == (Creature { armor: CreatureArmor { shield: false, ..old(self).armor }, ..*old(self) }),
    {
        self.armor.shield = false;
    }

    /// Sets the walking speed.
    pub fn walk(&mut self, speed: &u8)
        ensures
            *final(self) == (Creature { speed: CreatureSpeed { walk: Some(*speed), ..old(self).speed }, ..*old(self) }),
    {
        self.speed.walk = Some(*speed);
    }

    /// Sets the swimming speed; zero removes it.
    pub fn swim(&mut self, speed: &u8)
        ensures
            *final(self) == (Creature { speed: CreatureSpeed { swim: speed_of(*speed), ..old(self).speed }, ..*old(self) }),
    {
        self.speed.swim = if *speed == 0 {
            None
        } else {
            Some(*speed)
        };
    }

    /// Sets the burrowming speed; zero removes it.
    pub fn burrow(&mut self, speed: &u8)
        ensures
            *final(self) == (Creature { speed: CreatureSpeed { burrow: speed_of(*speed), ..old(self).speed }, ..*old(self) }),
    {
        self.speed.burrow = if *speed == 0 {
            None
        } else {
            Some(*speed)
        };
    }

    /// Sets the climbing speed; zero removes it.
    pub fn climb(&mut self, speed: &u8)
        ensures
            *final(self) == (Creature { speed: CreatureSpeed { climb: speed_of(*speed), ..old(self).speed }, ..*old(self) }),
    {
        self.speed.climb = if *speed == 0 {
            None
        } else {
            Some(*speed)
        };
    }

    /// Sets the flying speed; zero removes it, and hovering with it.
    pub fn fly(&mut self, speed: &u8)
        ensures
            *final(self) == (Creature { speed: CreatureSpeed { fly: speed_of(*speed), hover: if *speed == 0 { false } else { old(self).speed.hover }, ..old(self).speed }, ..*old(self) }),
    {
        if *speed == 0 {
            self.speed.hover = false;
            self.speed.fly = None;
        } else {
            self.speed.fly = Some(*speed);
        }
    }

    /// Lets the creature hover.
    pub fn enable_hover(&mut self)
        ensures
            *final(self) == (Creature { speed: CreatureSpeed { hover: true, ..old(self).speed }, ..*old(self) }),
    {
        self.speed.hover = true;
    }

    /// Sets notes on the speeds; empty notes remove them.
    pub fn speed_notes(&mut self, notes: &str)
        ensures
            opt_view(final(self).speed.notes) == (if notes@.len() == 0 { None } else { Some(notes@) }),
            *final(self) == (Creature { speed: CreatureSpeed { notes: final(self).speed.notes, ..old(self).speed }, ..*old(self) }),
    {
        self.speed.notes = if crate::text::str_chars(notes).len() == 0 {
            None
        } else {
            Some(notes.to_owned())
        };
    }

    /// Sets a custom movement speed; zero removes it.
    pub fn custom_speed(&mut self, movement: &str, speed: &u8)
        ensures
            named_view(final(self).speed.custom@) == set_named(named_view(old(self).speed.custom@), movement@, *speed),
            *final(self) == (Creature { speed: CreatureSpeed { custom: final(self).speed.custom, ..old(self).speed }, ..*old(self) }),
    {
        set_named_exec(&mut self.speed.custom, movement, *speed);
    }

    /// Sets the strength score.
    pub fn set_str(&mut self, score: &u8)
        ensures
            *final(self) == (Creature { strength: *score, ..*old(self) }),
    {
        self.strength = *score;
    }

    /// Sets the dexterity score.
    pub fn set_dex(&mut self, score: &u8)
        ensures
            *final(self) == (Creature { dexterity: *score, ..*old(self) }),
    {
        self.dexterity = *score;
    }

    /// Sets the constitution score.
    pub fn set_con(&mut self, score: &u8)
        ensures
            *final(self) == (Creature { constitution: *score, ..*old(self) }),
    {
        self.constitution = *score;
    }

    /// Sets the intelligence score.
    pub fn set_int(&mut self, score: &u8)
        ensures
            *final(self) == (Creature { intelligence: *score, ..*old(self) }),
    {
        self.intelligence = *score;
    }

    /// Sets the wisdom score.
    pub fn set_wis(&mut self, score: &u8)
        ensures
            *final(self) == (Creature { wisdom: *score, ..*old(self) }),
    {
        self.wisdom = *score;
    }

    /// Sets the charisma score.
    pub fn set_cha(&mut self, score: &u8)
        ensures
            *final(self) == (Creature { charisma: *score, ..*old(self) }),
    {
        self.charisma = *score;
    }

    /// Whether the creature is proficient in an ability's saving throw.
    pub open spec fn save_of(&self, a: Ability) -> bool {
        match a {
            Ability::Strength => self.strength_save,
            Ability::Dexterity => self.dexterity_save,
            Ability::Constitution => self.constitution_save,
            Ability::Intelligence => self.intelligence_save,
            Ability::Wisdom => self.wisdom_save,
            Ability::Charisma => self.charisma_save,
        }
    }

    fn set_save(&mut self, a: Ability, value: bool)
        ensures
            forall|x: Ability| #[trigger] final(self).save_of(x) == (if x == a { value } else { old(self).save_of(x) }),
            *final(self) == (Creature { strength_save: final(self).strength_save, dexterity_save: final(self).dexterity_save, constitution_save: final(self).constitution_save, intelligence_save: final(self).intelligence_save, wisdom_save: final(self).wisdom_save, charisma_save: final(self).charisma_save, ..*old(self) }),
    {
        match a {
            Ability::Strength => {
                self.strength_save = value;
            },
            Ability::Dexterity => {
                self.dexterity_save = value;
            },
            Ability::Constitution => {
                self.constitution_save = value;
            },
            Ability::Intelligence => {
                self.intelligence_save = value;
            },
            Ability::Wisdom => {
                self.wisdom_save = value;
            },
            Ability::Charisma => {
                self.charisma_save = value;
            },
        }
    }

    /// Adds saving throw proficiencies.
    pub fn add_saves(&mut self, abilities: &[Ability])
        ensures
            forall|x: Ability| #[trigger] final(self).save_of(x) == (if abilities@.contains(x) { true } else { old(self).save_of(x) }),
            *final(self) == (Creature { strength_save: final(self).strength_save, dexterity_save: final(self).dexterity_save, constitution_save: final(self).constitution_save, intelligence_save: final(self).intelligence_save, wisdom_save: final(self).wisdom_save, charisma_save: final(self).charisma_save, ..*old(self) }),
    {
        let mut i: usize = 0;
        while i < abilities.len()
            invariant
                0 <= i <= abilities@.len(),
                forall|x: Ability| #[trigger] self.save_of(x) == (if abilities@.take(i as int).contains(x) { true } else { old(self).save_of(x) }),
                *self == (Creature { strength_save: self.strength_save, dexterity_save: self.dexterity_save, constitution_save: self.constitution_save, intelligence_save: self.intelligence_save, wisdom_save: self.wisdom_save, charisma_save: self.charisma_save, ..*old(self) }),
            decreases abilities@.len() - i,
        {
            let a = abilities[i];
            assert(abilities@.take(i as int + 1) =~= abilities@.take(i as int).push(a));
            assert forall|x: Ability| abilities@.take(i as int + 1).contains(x) == (abilities@.take(i as int).contains(x) || x == a) by {
                if x == a {
                    assert(abilities@.take(i as int + 1)[i as int] == a);
                }
                if abilities@.take(i as int).contains(x) {
                    let k = choose|k: int| 0 <= k < i && abilities@.take(i as int)[k] == x;
                    assert(abilities@.take(i as int + 1)[k] == x);
                }
            }
            self.set_save(a, true);
            i = i + 1;
        }
        assert(abilities@.take(abilities@.len() as int) =~= abilities@);
    }

    /// Removes saving throw proficiencies.
    pub fn remove_saves(&mut self, abilities: &[Ability])
        ensures
            forall|x: Ability| #[trigger] final(self).save_of(x) == (if abilities@.contains(x) { false } else { old(self).save_of(x) }),
            *final(self) == (Creature { strength_save: final(self).strength_save, dexterity_save: final(self).dexterity_save, constitution_save: final(self).constitution_save, intelligence_save: final(self).intelligence_save, wisdom_save: final(self).wisdom_save, charisma_save: final(self).charisma_save, ..*old(self) }),
    {
        let mut i: usize = 0;
        while i < abilities.len()
            invariant
                0 <= i <= abilities@.len(),
                forall|x: Ability| #[trigger] self.save_of(x) == (if abilities@.take(i as int).contains(x) { false } else { old(self).save_of(x) }),
                *self == (Creature { strength_save: self.strength_save, dexterity_save: self.dexterity_save, constitution_save: self.constitution_save, intelligence_save: self.intelligence_save, wisdom_save: self.wisdom_save, charisma_save: self.charisma_save, ..*old(self) }),
            decreases abilities@.len() - i,
        {
            let a = abilities[i];
            assert(abilities@.take(i as int + 1) =~= abilities@.take(i as int).push(a));
            assert forall|x: Ability| abilities@.take(i as int + 1).contains(x) == (abilities@.take(i as int).contains(x) || x == a) by {
                if x == a {
                    assert(abilities@.take(i as int + 1)[i as int] == a);
                }
                if abilities@.take(i as int).contains(x) {
                    let k = choose|k: int| 0 <= k < i && abilities@.take(i as int)[k] == x;
                    assert(abilities@.take(i as int + 1)[k] == x);
                }
            }
            self.set_save(a, false);
            i = i + 1;
        }
        assert(abilities@.take(abilities@.len() as int) =~= abilities@);
    }

}

impl CreatureProficiencies {
    /// The proficiency in a skill.
    pub open spec fn get(&self, s: Skill) -> Option<bool> {
        match s {
            Skill::Athletics => self.athletics,
            Skill::Acrobatics => self.acrobatics,
            Skill::SleightOfHand => self.sleight_of_hand,
            Skill::Stealth => self.stealth,
            Skill::Arcana => self.arcana,
            Skill::History => self.history,
            Skill::Investigation => self.investigation,
            Skill::Nature => self.nature,
            Skill::Religion => self.religion,
            Skill::AnimalHandling => self.animal_handling,
            Skill::Insight => self.insight,
            Skill::Medicine => self.medicine,
            Skill::Perception => self.perception,
            Skill::Survival => self.survival,
            Skill::Deception => self.deception,
            Skill::Intimidation => self.intimidation,
            Skill::Performance => self.performance,
            Skill::Persuasion => self.persuasion,
        }
    }

    /// Sets the proficiency in a skill.
    pub fn set(&mut self, s: Skill, value: Option<bool>)
        ensures
            forall|x: Skill| #[trigger] final(self).get(x) == (if x == s { value } else { old(self).get(x) }),
    {
        match s {
            Skill::Athletics => {
                self.athletics = value;
            },
            Skill::Acrobatics => {
                self.acrobatics = value;
            },
            Skill::SleightOfHand => {
                self.sleight_of_hand = value;
            },
            Skill::Stealth => {
                self.stealth = value;
            },
            Skill::Arcana => {
                self.arcana = value;
            },
            Skill::History => {
                self.history = value;
            },
            Skill::Investigation => {
                self.investigation = value;
            },
            Skill::Nature => {
                self.nature = value;
            },
            Skill::Religion => {
                self.religion = value;
            },
            Skill::AnimalHandling => {
                self.animal_handling = value;
            },
            Skill::Insight => {
                self.insight = value;
            },
            Skill::Medicine => {
                self.medicine = value;
            },
            Skill::Perception => {
                self.perception = value;
            },
            Skill::Survival => {
                self.survival = value;
            },
            Skill::Deception => {
                self.deception = value;
            },
            Skill::Intimidation => {
                self.intimidation = value;
            },
            Skill::Performance => {
                self.performance = value;
            },
            Skill::Persuasion => {
                self.persuasion = value;
            },
        }
    }
}

impl CreatureResistances {
    /// Whether a damage type is listed.
    pub open spec fn get(&self, d: Damage) -> bool {
        match d {
            Damage::Bludgeoning => self.bludgeoning,
            Damage::Piercing => self.piercing,
            Damage::Slashing => self.slashing,
            Damage::Cold => self.cold,
            Damage::Fire => self.fire,
            Damage::Thunder => self.thunder,
            Damage::Radiant => self.radiant,
            Damage::Force => self.force,
            Damage::Lightning => self.lightning,
            Damage::Poison => self.poison,
            Damage::Acid => self.acid,
            Damage::Necrotic => self.necrotic,
            Damage::Psychic => self.psychic,
        }
    }

    /// Lists or unlists a damage type.
    #[verifier::rlimit(100)]
    pub fn set(&mut self, d: Damage, value: bool)
        ensures
            forall|x: Damage| #[trigger] final(self).get(x) == (if x == d { value } else { old(self).get(x) }),
            final(self).all == old(self).all,
            final(self).non_magical_attacks == old(self).non_magical_attacks,
            final(self).non_silvered_attacks == old(self).non_silvered_attacks,
            final(self).non_adamantine_attacks == old(self).non_adamantine_attacks,
            final(self).custom == old(self).custom,
    {
        match d {
            Damage::Bludgeoning => {
                self.bludgeoning = value;
            },
            Damage::Piercing => {
                self.piercing = value;
            },
            Damage::Slashing => {
                self.slashing = value;
            },
            Damage::Cold => {
                self.cold = value;
            },
            Damage::Fire => {
                self.fire = value;
            },
            Damage::Thunder => {
                self.thunder = value;
            },
            Damage::Radiant => {
                self.radiant = value;
            },
            Damage::Force => {
                self.force = value;
            },
            Damage::Lightning => {
                self.lightning = value;
            },
            Damage::Poison => {
                self.poison = value;
            },
            Damage::Acid => {
                self.acid = value;
            },
            Damage::Necrotic => {
                self.necrotic = value;
            },
            Damage::Psychic => {
                self.psychic = value;
            },
        }
    }

    /// Removes the special, custom and total entries, keeping the damage types.
    pub fn clear_special(&mut self)
        ensures
            forall|x: Damage| #[trigger] final(self).get(x) == old(self).get(x),
            !final(self).non_magical_attacks && !final(self).non_silvered_attacks,
            !final(self).non_adamantine_attacks && !final(self).all,
            final(self).custom is None,
    {
        self.non_magical_attacks = false;
        self.non_silvered_attacks = false;
        self.non_adamantine_attacks = false;
        self.custom = None;
        self.all = false;
    }
}

impl CreatureConditionImmunities {
    /// Whether the creature is immune to a condition.
    pub open spec fn get(&self, c: Condition) -> bool {
        match c {
            Condition::Blinded => self.blinded,
            Condition::Charmed => self.charmed,
            Condition::Deafened => self.deafened,
            Condition::Exhaustion => self.exhaustion,
            Condition::Frightened => self.frightened,
            Condition::Grappled => self.grappled,
            Condition::Incapacitated => self.incapacitated,
            Condition::Invisible => self.invisible,
            Condition::Paralyzed => self.paralyzed,
            Condition::Petrified => self.petrified,
            Condition::Poisoned => self.poisoned,
            Condition::Prone => self.prone,
            Condition::Restrained => self.restrained,
            Condition::Stunned => self.stunned,
            Condition::Unconscious => self.unconscious,
        }
    }

    /// Adds an immunity to a condition.
    #[verifier::rlimit(100)]
    pub fn add(&mut self, c: Condition)
        ensures
            forall|x: Condition| #[trigger] final(self).get(x) == (x == c || old(self).get(x)),
    {
        match c {
            Condition::Blinded => {
                self.blinded = true;
            },
            Condition::Charmed => {
                self.charmed = true;
            },
            Condition::Deafened => {
                self.deafened = true;
            },
            Condition::Exhaustion => {
                self.exhaustion = true;
            },
            Condition::Frightened => {
                self.frightened = true;
            },
            Condition::Grappled => {
                self.grappled = true;
            },
            Condition::Incapacitated => {
                self.incapacitated = true;
            },
            Condition::Invisible => {
                self.invisible = true;
            },
            Condition::Paralyzed => {
                self.paralyzed = true;
            },
            Condition::Petrified => {
                self.petrified = true;
            },
            Condition::Poisoned => {
                self.poisoned = true;
            },
            Condition::Prone => {
                self.prone = true;
            },
            Condition::Restrained => {
                self.restrained = true;
            },
            Condition::Stunned => {
                self.stunned = true;
            },
            Condition::Unconscious => {
                self.unconscious = true;
            },
        }
    }
}

impl Creature {
    /// Adds skill proficiencies.
    pub fn add_skills(&mut self, skills: &[Skill])
        ensures
            forall|x: Skill| #[trigger] final(self).skills.get(x) == (if skills@.contains(x) { Some(false) } else { old(self).skills.get(x) }),
            *final(self) == (Creature { skills: final(self).skills, ..*old(self) }),
    {
        let mut i: usize = 0;
        while i < skills.len()
            invariant
                0 <= i <= skills@.len(),
                forall|x: Skill| #[trigger] self.skills.get(x) == (if skills@.take(i as int).contains(x) { Some(false) } else { old(self).skills.get(x) }),
                *self == (Creature { skills: self.skills, ..*old(self) }),
            decreases skills@.len() - i,
        {
            let s = skills[i];
            assert(skills@.take(i as int + 1) =~= skills@.take(i as int).push(s));
            assert forall|x: Skill| skills@.take(i as int + 1).contains(x) == (skills@.take(i as int).contains(x) || x == s) by {
                if x == s {
                    assert(skills@.take(i as int + 1)[i as int] == s);
                }
                if skills@.take(i as int).contains(x) {
                    let k = choose|k: int| 0 <= k < i && skills@.take(i as int)[k] == x;
                    assert(skills@.take(i as int + 1)[k] == x);
                }
            }
            self.skills.set(s, Some(false));
            i = i + 1;
        }
        assert(skills@.take(skills@.len() as int) =~= skills@);
    }

    /// Adds skill expertise.
    pub fn add_expertise(&mut self, skills: &[Skill])
        ensures
            forall|x: Skill| #[trigger] final(self).skills.get(x) == (if skills@.contains(x) { Some(true) } else { old(self).skills.get(x) }),
            *final(self) == (Creature { skills: final(self).skills, ..*old(self) }),
    {
        let mut i: usize = 0;
        while i < skills.len()
            invariant
                0 <= i <= skills@.len(),
                forall|x: Skill| #[trigger] self.skills.get(x) == (if skills@.take(i as int).contains(x) { Some(true) } else { old(self).skills.get(x) }),
                *self == (Creature { skills: self.skills, ..*old(self) }),
            decreases skills@.len() - i,
        {
            let s = skills[i];
            assert(skills@.take(i as int + 1) =~= skills@.take(i as int).push(s));
            assert forall|x: Skill| skills@.take(i as int + 1).contains(x) == (skills@.take(i as int).contains(x) || x == s) by {
                if x == s {
                    assert(skills@.take(i as int + 1)[i as int] == s);
                }
                if skills@.take(i as int).contains(x) {
                    let k = choose|k: int| 0 <= k < i && skills@.take(i as int)[k] == x;
                    assert(skills@.take(i as int + 1)[k] == x);
                }
            }
            self.skills.set(s, Some(true));
            i = i + 1;
        }
        assert(skills@.take(skills@.len() as int) =~= skills@);
    }

    /// Removes skill proficiencies and expertise.
    pub fn remove_skills(&mut self, skills: &[Skill])
        ensures
            forall|x: Skill| #[trigger] final(self).skills.get(x) == (if skills@.contains(x) { None } else { old(self).skills.get(x) }),
            *final(self) == (Creature { skills: final(self).skills, ..*old(self) }),
    {
        let mut i: usize = 0;
        while i < skills.len()
            invariant
                0 <= i <= skills@.len(),
                forall|x: Skill| #[trigger] self.skills.get(x) == (if skills@.take(i as int).contains(x) { None } else { old(self).skills.get(x) }),
                *self == (Creature { skills: self.skills, ..*old(self) }),
            decreases skills@.len() - i,
        {
            let s = skills[i];
            assert(skills@.take(i as int + 1) =~= skills@.take(i as int).push(s));
            assert forall|x: Skill| skills@.take(i as int + 1).contains(x) == (skills@.take(i as int).contains(x) || x == s) by {
                if x == s {
                    assert(skills@.take(i as int + 1)[i as int] == s);
                }
                if skills@.take(i as int).contains(x) {
                    let k = choose|k: int| 0 <= k < i && skills@.take(i as int)[k] == x;
                    assert(skills@.take(i as int + 1)[k] == x);
                }
            }
            self.skills.set(s, None);
            i = i + 1;
        }
        assert(skills@.take(skills@.len() as int) =~= skills@);
    }

    /// Adds a condition immunity.
    pub fn add_condition_immunity(&mut self, condition: &Condition)
        ensures
            forall|x: Condition| #[trigger] final(self).condition_immunities.get(x) == (x == *condition || old(self).condition_immunities.get(x)),
            *final(self) == (Creature { condition_immunities: final(self).condition_immunities, ..*old(self) }),
    {
        self.condition_immunities.add(*condition);
    }

    /// Adds a damage vulnerability.
    pub fn add_vulnerability(&mut self, damage: &Damage)
        ensures
            forall|x: Damage| #[trigger] final(self).vulnerabilities.get(x) == (if x == *damage { true } else { old(self).vulnerabilities.get(x) }),
            final(self).vulnerabilities.all == old(self).vulnerabilities.all,
            final(self).vulnerabilities.non_magical_attacks == old(self).vulnerabilities.non_magical_attacks,
            final(self).vulnerabilities.non_silvered_attacks == old(self).vulnerabilities.non_silvered_attacks,
            final(self).vulnerabilities.non_adamantine_attacks == old(self).vulnerabilities.non_adamantine_attacks,
            final(self).vulnerabilities.custom == old(self).vulnerabilities.custom,
            *final(self) == (Creature { vulnerabilities: final(self).vulnerabilities, ..*old(self) }),
    {
        self.vulnerabilities.set(*damage, true);
    }

    /// Makes the creature vulnerable to all damage.
    pub fn add_all_vulnerability(&mut self)
        ensures
            *final(self) == (Creature { vulnerabilities: CreatureResistances { all: true, ..old(self).vulnerabilities }, ..*old(self) }),
    {
        self.vulnerabilities.all = true;
    }

    /// Sets a custom vulnerability text.
    pub fn add_custom_vulnerability(&mut self, name: &str)
        ensures
            opt_view(final(self).vulnerabilities.custom) == Some(name@),
            *final(self) == (Creature { vulnerabilities: CreatureResistances { custom: final(self).vulnerabilities.custom, ..old(self).vulnerabilities }, ..*old(self) }),
    {
        self.vulnerabilities.custom = Some(name.to_owned());
    }

    /// Removes a damage vulnerability, and vulnerability to all damage.
    pub fn remove_vulnerability(&mut self, damage: &Damage)
        ensures
            forall|x: Damage| #[trigger] final(self).vulnerabilities.get(x) == (if x == *damage { false } else { old(self).vulnerabilities.get(x) }),
            final(self).vulnerabilities.all == false,
            final(self).vulnerabilities.non_magical_attacks == old(self).vulnerabilities.non_magical_attacks,
            final(self).vulnerabilities.non_silvered_attacks == old(self).vulnerabilities.non_silvered_attacks,
            final(self).vulnerabilities.non_adamantine_attacks == old(self).vulnerabilities.non_adamantine_attacks,
            final(self).vulnerabilities.custom == old(self).vulnerabilities.custom,
            *final(self) == (Creature { vulnerabilities: final(self).vulnerabilities, ..*old(self) }),
    {
        self.vulnerabilities.all = false;
        self.vulnerabilities.set(*damage, false);
    }

    /// Adds a damage resistance.
    pub fn add_resistance(&mut self, damage: &Damage)
        ensures
            forall|x: Damage| #[trigger] final(self).resistances.get(x) == (if x == *damage { true } else { old(self).resistances.get(x) }),
            final(self).resistances.all == old(self).resistances.all,
            final(self).resistances.non_magical_attacks == old(self).resistances.non_magical_attacks,
            final(self).resistances.non_silvered_attacks == old(self).resistances.non_silvered_attacks,
            final(self).resistances.non_adamantine_attacks == old(self).resistances.non_adamantine_attacks,
            final(self).resistances.custom == old(self).resistances.custom,
            *final(self) == (Creature { resistances: final(self).resistances, ..*old(self) }),
    {
        self.resistances.set(*damage, true);
    }

    /// Makes the creature resistant to all damage.
    pub fn add_all_resistance(&mut self)
        ensures
            *final(self) == (Creature { resistances: CreatureResistances { all: true, ..old(self).resistances }, ..*old(self) }),
    {
        self.resistances.all = true;
    }

    /// Sets a custom resistance text.
    pub fn add_custom_resistance(&mut self, name: &str)
        ensures
            opt_view(final(self).resistances.custom) == Some(name@),
            *final(self) == (Creature { resistances: CreatureResistances { custom: final(self).resistances.custom, ..old(self).resistances }, ..*old(self) }),
    {
        self.resistances.custom = Some(name.to_owned());
    }

    /// Adds resistance to nonmagical weapon damage.
    pub fn add_nonmagical_resistance(&mut self)
        ensures
            *final(self) == (Creature { resistances: CreatureResistances { non_magical_attacks: true, ..old(self).resistances }, ..*old(self) }),
    {
        self.resistances.non_magical_attacks = true;
    }

    /// Adds resistance to nonmagical weapon damage that is not silvered.
    pub fn add_nonsilvered_resistance(&mut self)
        ensures
            *final(self) == (Creature { resistances: CreatureResistances { non_silvered_attacks: true, ..old(self).resistances }, ..*old(self) }),
    {
        self.resistances.non_silvered_attacks = true;
    }

    /// Adds resistance to nonmagical weapon damage that is not adamantine.
    pub fn add_nonadamantine_resistance(&mut self)
        ensures
            *final(self) == (Creature { resistances: CreatureResistances { non_adamantine_attacks: true, ..old(self).resistances }, ..*old(self) }),
    {
        self.resistances.non_adamantine_attacks = true;
    }

    /// Removes a damage resistance, and resistance to all damage.
    pub fn remove_resistance(&mut self, damage: &Damage)
        ensures
            forall|x: Damage| #[trigger] final(self).resistances.get(x) == (if x == *damage { false } else { old(self).resistances.get(x) }),
            final(self).resistances.all == false,
            final(self).resistances.non_magical_attacks == old(self).resistances.non_magical_attacks,
            final(self).resistances.non_silvered_attacks == old(self).resistances.non_silvered_attacks,
            final(self).resistances.non_adamantine_attacks == old(self).resistances.non_adamantine_attacks,
            final(self).resistances.custom == old(self).resistances.custom,
            *final(self) == (Creature { resistances: final(self).resistances, ..*old(self) }),
    {
        self.resistances.all = false;
        self.resistances.set(*damage, false);
    }

    /// Removes special, custom and total resistances.
    pub fn remove_special_resistance(&mut self)
        ensures
            forall|x: Damage| #[trigger] final(self).resistances.get(x) == old(self).resistances.get(x),
            !final(self).resistances.non_magical_attacks && !final(self).resistances.non_silvered_attacks,
            !final(self).resistances.non_adamantine_attacks && !final(self).resistances.all,
            final(self).resistances.custom is None,
            *final(self) == (Creature { resistances: final(self).resistances, ..*old(self) }),
    {
        self.resistances.clear_special();
    }

    /// Adds a damage immunity.
    pub fn add_immunity(&mut self, damage: &Damage)
        ensures
            forall|x: Damage| #[trigger] final(self).immunities.get(x) == (if x == *damage { true } else { old(self).immunities.get(x) }),
            final(self).immunities.all == old(self).immunities.all,
            final(self).immunities.non_magical_attacks == old(self).immunities.non_magical_attacks,
            final(self).immunities.non_silvered_attacks == old(self).immunities.non_silvered_attacks,
            final(self).immunities.non_adamantine_attacks == old(self).immunities.non_adamantine_attacks,
            final(self).immunities.custom == old(self).immunities.custom,
            *final(self) == (Creature { immunities: final(self).immunities, ..*old(self) }),
    {
        self.immunities.set(*damage, true);
    }

    /// Makes the creature immune to all damage.
    pub fn add_all_immunities(&mut self)
        ensures
            *final(self) == (Creature { immunities: CreatureResistances { all: true, ..old(self).immunities }, ..*old(self) }),
    {
        self.immunities.all = true;
    }

    /// Sets a custom immunity text.
    pub fn add_custom_immunity(&mut self, name: &str)
        ensures
            opt_view(final(self).immunities.custom) == Some(name@),
            *final(self) == (Creature { immunities: CreatureResistances { custom: final(self).immunities.custom, ..old(self).immunities }, ..*old(self) }),
    {
        self.immunities.custom = Some(name.to_owned());
    }

    /// Adds immunity to nonmagical weapon damage.
    pub fn add_nonmagical_immunity(&mut self)
        ensures
            *final(self) == (Creature { immunities: CreatureResistances { non_magical_attacks: true, ..old(self).immunities }, ..*old(self) }),
    {
        self.immunities.non_magical_attacks = true;
    }

    /// Adds immunity to nonmagical weapon damage that is not silvered.
    pub fn add_nonsilvered_immunity(&mut self)
        ensures
            *final(self) == (Creature { immunities: CreatureResistances { non_silvered_attacks: true, ..old(self).immunities }, ..*old(self) }),
    {
        self.immunities.non_silvered_attacks = true;
    }

    /// Adds immunity to nonmagical weapon damage that is not adamantine.
    pub fn add_nonadamantine_immunity(&mut self)
        ensures
            *final(self) == (Creature { immunities: CreatureResistances { non_adamantine_attacks: true, ..old(self).immunities }, ..*old(self) }),
    {
        self.immunities.non_adamantine_attacks = true;
    }

    /// Removes a damage immunity, and immunity to all damage.
    pub fn remove_immunity(&mut self, damage: &Damage)
        ensures
            forall|x: Damage| #[trigger] final(self).immunities.get(x) == (if x == *damage { false } else { old(self).immunities.get(x) }),
            final(self).immunities.all == false,
            final(self).immunities.non_magical_attacks == old(self).immunities.non_magical_attacks,
            final(self).immunities.non_silvered_attacks == old(self).immunities.non_silvered_attacks,
            final(self).immunities.non_adamantine_attacks == old(self).immunities.non_adamantine_attacks,
            final(self).immunities.custom == old(self).immunities.custom,
            *final(self) == (Creature { immunities: final(self).immunities, ..*old(self) }),
    {
        self.immunities.all = false;
        self.immunities.set(*damage, false);
    }

    /// Removes special, custom and total immunities.
    pub fn remove_special_immunity(&mut self)
        ensures
            forall|x: Damage| #[trigger] final(self).immunities.get(x) == old(self).immunities.get(x),
            !final(self).immunities.non_magical_attacks && !final(self).immunities.non_silvered_attacks,
            !final(self).immunities.non_adamantine_attacks && !final(self).immunities.all,
            final(self).immunities.custom is None,
            *final(self) == (Creature { immunities: final(self).immunities, ..*old(self) }),
    {
        self.immunities.clear_special();
    }

    /// Replaces the languages with these, all spoken.
    pub fn set_languages(&mut self, languages: &[Language])
        ensures
            final(self).languages@.len() == languages@.len(),
            forall|k: int| 0 <= k < languages@.len() ==> (#[trigger] final(self).languages@[k]).1,
            *final(self) == (Creature { languages: final(self).languages, ..*old(self) }),
    {
        self.languages.clear();
        let mut i: usize = 0;
        while i < languages.len()
            invariant
                0 <= i <= languages@.len(),
                self.languages@.len() == i,
                forall|k: int| 0 <= k < i ==> (#[trigger] self.languages@[k]).1,
                *self == (Creature { languages: self.languages, ..*old(self) }),
            decreases languages@.len() - i,
        {
            self.languages.push((languages[i].clone(), true));
            i = i + 1;
        }
    }

    /// Adds languages that the creature understands but does not speak.
    pub fn add_unspoken_languages(&mut self, languages: &[Language])
        ensures
            final(self).languages@.len() == old(self).languages@.len() + languages@.len(),
            final(self).languages@.take(old(self).languages@.len() as int) == old(self).languages@,
            forall|k: int|
                old(self).languages@.len() <= k < final(self).languages@.len() ==> !(
                #[trigger] final(self).languages@[k]).1,
            *final(self) == (Creature { languages: final(self).languages, ..*old(self) }),
    {
        let mut i: usize = 0;
        while i < languages.len()
            invariant
                0 <= i <= languages@.len(),
                self.languages@.len() == old(self).languages@.len() + i,
                self.languages@.take(old(self).languages@.len() as int) == old(self).languages@,
                forall|k: int| old(self).languages@.len() <= k < self.languages@.len() ==> !(
                    #[trigger] self.languages@[k]).1,
                *self == (Creature { languages: self.languages, ..*old(self) }),
            decreases languages@.len() - i,
        {
            let ghost before = self.languages@;
            self.languages.push((languages[i].clone(), false));
            assert(self.languages@.take(old(self).languages@.len() as int) =~= before.take(old(self).languages@.len() as int));
            i = i + 1;
        }
    }

    /// Sets the darkvision range; zero removes it.
    pub fn add_darkvision(&mut self, distance: &u8)
        ensures
            *final(self) == (Creature { senses: CreatureSenses { darkvision: speed_of(*distance), ..old(self).senses }, ..*old(self) }),
    {
        self.senses.darkvision = if *distance == 0 {
            None
        } else {
            Some(*distance)
        };
    }

    /// Sets the truesight range; zero removes it.
    pub fn add_truesight(&mut self, distance: &u8)
        ensures
            *final(self) == (Creature { senses: CreatureSenses { truesight: speed_of(*distance), ..old(self).senses }, ..*old(self) }),
    {
        self.senses.truesight = if *distance == 0 {
            None
        } else {
            Some(*distance)
        };
    }

    /// Sets the tremorsense range; zero removes it.
    pub fn add_tremorsense(&mut self, distance: &u8)
        ensures
            *final(self) == (Creature { senses: CreatureSenses { tremorsense: speed_of(*distance), ..old(self).senses }, ..*old(self) }),
    {
        self.senses.tremorsense = if *distance == 0 {
            None
        } else {
            Some(*distance)
        };
    }

    /// Sets the blindsight range; zero removes it.
    pub fn add_blindsight(&mut self, distance: &u8)
        ensures
            *final(self) == (Creature { senses: CreatureSenses { blindsight: if *distance == 0 { None } else { Some((*distance, false)) }, ..old(self).senses }, ..*old(self) }),
    {
        self.senses.blindsight = if *distance == 0 {
            None
        } else {
            Some((*distance, false))
        };
    }

    /// Sets the blindsight range, blind beyond it; zero removes it.
    pub fn add_blindsight_blind_beyond(&mut self, distance: &u8)
        ensures
            *final(self) == (Creature { senses: CreatureSenses { blindsight: if *distance == 0 { None } else { Some((*distance, true)) }, ..old(self).senses }, ..*old(self) }),
    {
        self.senses.blindsight = if *distance == 0 {
            None
        } else {
            Some((*distance, true))
        };
    }

    /// Sets a custom sense range; zero removes it.
    pub fn add_custom_sense(&mut self, sense: &str, distance: &u8)
        ensures
            named_view(final(self).senses.custom@) == set_named(named_view(old(self).senses.custom@), sense@, *distance),
            *final(self) == (Creature { senses: CreatureSenses { custom: final(self).senses.custom, ..old(self).senses }, ..*old(self) }),
    {
        set_named_exec(&mut self.senses.custom, sense, *distance);
    }

    /// Sets the challenge rating.
    pub fn set_no_challenge_rating(&mut self)
        ensures
            *final(self) == (Creature { challenge_rating: ChallengeRating::Unrated, ..*old(self) }),
    {
        self.challenge_rating = ChallengeRating::Unrated;
    }

    /// Sets the challenge rating.
    pub fn set_half_challenge_rating(&mut self)
        ensures
            *final(self) == (Creature { challenge_rating: ChallengeRating::Half, ..*old(self) }),
    {
        self.challenge_rating = ChallengeRating::Half;
    }

    /// Sets the challenge rating.
    pub fn set_quarter_challenge_rating(&mut self)
        ensures
            *final(self) == (Creature { challenge_rating: ChallengeRating::Quarter, ..*old(self) }),
    {
        self.challenge_rating = ChallengeRating::Quarter;
    }

    /// Sets the challenge rating.
    pub fn set_eighth_challenge_rating(&mut self)
        ensures
            *final(self) == (Creature { challenge_rating: ChallengeRating::Eighth, ..*old(self) }),
    {
        self.challenge_rating = ChallengeRating::Eighth;
    }

    /// Sets a whole challenge rating.
    pub fn set_challenge_rating(&mut self, cr: &u8)
        ensures
            *final(self) == (Creature { challenge_rating: ChallengeRating::Whole(*cr), ..*old(self) }),
    {
        self.challenge_rating = ChallengeRating::Whole(*cr);
    }

}

impl Default for CreatureSpeed {
    /// Walking at 0 ft. and nothing else.
    fn default() -> (r: Self)
        ensures
            r.walk == Some(0u8) && r.swim is None && r.fly is None && r.burrow is None && r.climb is None,
            !r.hover && r.notes is None && r.custom@.len() == 0,
    {
        CreatureSpeed {
            walk: Some(0),
            swim: None,
            fly: None,
            burrow: None,
            climb: None,
            hover: false,
            notes: None,
            custom: Vec::new(),
        }
    }
}

impl Default for CreatureProficiencies {
    /// No skill proficiencies.
    fn default() -> (r: Self)
        ensures
            forall|x: Skill| #[trigger] r.get(x) is None,
    {
        CreatureProficiencies {
            athletics: None,
            acrobatics: None,
            sleight_of_hand: None,
            stealth: None,
            arcana: None,
            history: None,
            investigation: None,
            nature: None,
            religion: None,
            animal_handling: None,
            insight: None,
            medicine: None,
            perception: None,
            survival: None,
            deception: None,
            intimidation: None,
            performance: None,
            persuasion: None,
        }
    }
}

impl Default for CreatureResistances {
    /// Nothing listed.
    fn default() -> (r: Self)
        ensures
            forall|x: Damage| !(#[trigger] r.get(x)),
            !r.all && !r.non_magical_attacks && !r.non_silvered_attacks && !r.non_adamantine_attacks,
            r.custom is None,
    {
        CreatureResistances {
            bludgeoning: false,
            piercing: false,
            slashing: false,
            cold: false,
            fire: false,
            thunder: false,
            radiant: false,
            force: false,
            lightning: false,
            poison: false,
            acid: false,
            necrotic: false,
            psychic: false,
            all: false,
            non_magical_attacks: false,
            non_silvered_attacks: false,
            non_adamantine_attacks: false,
            custom: None,
        }
    }
}

impl Default for CreatureConditionImmunities {
    /// No condition immunities.
    fn default() -> (r: Self)
        ensures
            forall|x: Condition| !(#[trigger] r.get(x)),
    {
        CreatureConditionImmunities {
            blinded: false,
            charmed: false,
            deafened: false,
            exhaustion: false,
            frightened: false,
            grappled: false,
            incapacitated: false,
            invisible: false,
            paralyzed: false,
            petrified: false,
            poisoned: false,
            prone: false,
            restrained: false,
            stunned: false,
            unconscious: false,
        }
    }
}

impl Default for CreatureSenses {
    /// No special senses.
    fn default() -> (r: Self)
        ensures
            r.blindsight is None && r.darkvision is None && r.tremorsense is None && r.truesight is None,
            r.custom@.len() == 0,
    {
        CreatureSenses { blindsight: None, darkvision: None, tremorsense: None, truesight: None, custom: Vec::new() }
    }
}

impl Default for CreatureArmor {
    /// No armor, shield or mage armor.
    fn default() -> (r: Self)
        ensures
            r.armor is None && !r.shield && !r.mage_armor,
    {
        CreatureArmor { armor: None, shield: false, mage_armor: false }
    }
}

impl Default for Creature {
    /// A medium humanoid of any alignment with one d6 hit die, every score 10, no challenge
    /// rating, and nothing else.
    fn default() -> (r: Self)
        ensures
            r.name@.len() == 0,
            r.size == CreatureSize::Medium,
            r.type_ is Humanoid,
            r.alignment is AnyAlignment,
            r.hit_die == Die::D6 && r.hit_dice_count == 1 && r.override_hit_points is None,
            r.strength == 10 && r.dexterity == 10 && r.constitution == 10,
            r.intelligence == 10 && r.wisdom == 10 && r.charisma == 10,
            forall|a: Ability| !(#[trigger] r.save_of(a)),
            forall|x: Skill| #[trigger] r.skills.get(x) is None,
            r.languages@.len() == 0,
            r.challenge_rating == ChallengeRating::Unrated,
            r.source is None,
    {
        Creature {
            name: String::new(),
            subject: None,
            subject_cap: None,
            possessive: None,
            possessive_cap: None,
            subject_pronoun: None,
            subject_pronoun_cap: None,
            possessive_pronoun: None,
            possessive_pronoun_cap: None,
            object_pronoun: None,
            reflexive_pronoun: None,
            size: CreatureSize::Medium,
            type_: CreatureType::Humanoid,
            subtype: None,
            group: None,
            alignment: Alignment::AnyAlignment,
            hit_die: Die::D6,
            hit_dice_count: 1,
            override_hit_points: None,
            armor: CreatureArmor::default(),
            speed: CreatureSpeed::default(),
            strength: 10,
            dexterity: 10,
            constitution: 10,
            intelligence: 10,
            wisdom: 10,
            charisma: 10,
            strength_save: false,
            dexterity_save: false,
            constitution_save: false,
            intelligence_save: false,
            wisdom_save: false,
            charisma_save: false,
            skills: CreatureProficiencies::default(),
            vulnerabilities: CreatureResistances::default(),
            resistances: CreatureResistances::default(),
            immunities: CreatureResistances::default(),
            condition_immunities: CreatureConditionImmunities::default(),
            senses: CreatureSenses::default(),
            languages: Vec::new(),
            challenge_rating: ChallengeRating::Unrated,
            source: None,
        }
    }
}

impl Creature {
    /// The hit dice: the hit die rolled once per hit die count, plus the constitution modifier
    /// for each.
    pub fn get_hit_dice(&self) -> (r: DiceExpression)
        ensures
            r@ == (seq![(self.hit_die, self.hit_dice_count as int, 1int)], score_mod(self.constitution as int) * self.hit_dice_count),
    {
        let m = Ability::score_to_mod(self.constitution);
        assert(-5 <= m <= 122) by {
            assert(crate::numeric::floor_div(self.constitution - 10, 2) == (self.constitution - 10) / 2);
        }
        assert(-2000 <= m * self.hit_dice_count <= 40000) by (nonlinear_arith)
            requires
                -5 <= m <= 122,
                0 <= self.hit_dice_count <= 255,
        {
        }
        let addend: isize = m as isize * self.hit_dice_count as isize;
        DiceExpression::from_dice(Dice::new(self.hit_dice_count, &self.hit_die), addend)
    }
}

} // verus!
