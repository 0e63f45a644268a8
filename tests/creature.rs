use monstorr::creature::Creature;
use monstorr::dice::Die;
use monstorr::stats::Ability;
use monstorr::stats::ChallengeRating;
use monstorr::stats::Condition;
use monstorr::stats::CreatureSize;
use monstorr::stats::Damage;
use monstorr::stats::Language;
use monstorr::stats::Skill;

#[test]
fn ability_modifiers() {
    assert_eq!(Ability::score_to_mod(10), 0);
    assert_eq!(Ability::score_to_mod(11), 0);
    assert_eq!(Ability::score_to_mod(9), -1);
    assert_eq!(Ability::score_to_mod(1), -5);
    assert_eq!(Ability::score_to_mod(30), 10);
    assert_eq!(Ability::to_stat_block(14), "14 (+2)");
    assert_eq!(Ability::to_stat_block(8), "8 (-1)");
    assert_eq!(Ability::to_stat_block(10), "10 (+0)");
    assert_eq!(Ability::Wisdom.to_short_str(), "wis");
}

#[test]
fn challenge_ratings() {
    assert_eq!(ChallengeRating::Whole(1).get_proficiency_bonus(), 2);
    assert_eq!(ChallengeRating::Whole(5).get_proficiency_bonus(), 3);
    assert_eq!(ChallengeRating::Whole(8).get_proficiency_bonus(), 3);
    assert_eq!(ChallengeRating::Whole(9).get_proficiency_bonus(), 4);
    assert_eq!(ChallengeRating::Whole(30).get_proficiency_bonus(), 9);
    assert_eq!(ChallengeRating::Quarter.get_proficiency_bonus(), 2);
    assert_eq!(ChallengeRating::Whole(10).get_xp(), 5900);
    assert_eq!(ChallengeRating::Unrated.get_xp(), 0);
    assert_eq!(ChallengeRating::Quarter.display_with_xp(), "1/4 (50 XP)");
    assert_eq!(ChallengeRating::Whole(10).display_with_xp(), "10 (5,900 XP)");
    assert_eq!(ChallengeRating::Whole(30).display_with_xp(), "30 (155,000 XP)");
    assert_eq!(ChallengeRating::Whole(0).display_with_xp(), "0 (10 XP)");
}

#[test]
fn creature_setters() {
    let mut c = Creature::default();
    c.set_name("Goblin");
    c.set_small();
    c.set_str(&8);
    c.set_con(&14);
    c.set_hit_die(&Die::D6);
    c.set_hit_dice_count(&2);
    c.add_saves(&[Ability::Dexterity, Ability::Wisdom]);
    c.remove_saves(&[Ability::Wisdom]);
    c.add_skills(&[Skill::Stealth, Skill::Perception]);
    c.add_expertise(&[Skill::Stealth]);
    c.remove_skills(&[Skill::Perception]);
    c.add_condition_immunity(&Condition::Charmed);
    c.add_resistance(&Damage::Fire);
    c.add_all_vulnerability();
    c.remove_vulnerability(&Damage::Cold);
    c.add_nonmagical_immunity();
    c.remove_special_immunity();
    c.set_languages(&[Language::Common, Language::Goblin]);
    c.add_unspoken_languages(&[Language::Draconic]);
    c.add_darkvision(&60);
    c.add_blindsight_blind_beyond(&10);
    c.add_custom_sense("echo", &30);
    c.add_custom_sense("echo", &40);
    c.add_custom_sense("smell", &5);
    c.add_custom_sense("smell", &0);
    c.fly(&30);
    c.enable_hover();
    c.fly(&0);
    c.swim(&20);
    c.speed_notes("");
    c.custom_speed("glide", &15);
    c.set_quarter_challenge_rating();
    assert_eq!(c.name, "Goblin");
    assert_eq!(c.size, CreatureSize::Small);
    assert_eq!(c.strength, 8);
    assert!(c.dexterity_save && !c.wisdom_save);
    assert_eq!(c.skills.stealth, Some(true));
    assert_eq!(c.skills.perception, None);
    assert!(c.condition_immunities.charmed);
    assert!(c.resistances.fire && !c.resistances.cold);
    assert!(!c.vulnerabilities.all && !c.vulnerabilities.cold);
    assert!(!c.immunities.non_magical_attacks);
    assert_eq!(c.languages.len(), 3);
    assert!(c.languages[0].1 && !c.languages[2].1);
    assert_eq!(c.senses.darkvision, Some(60));
    assert_eq!(c.senses.blindsight, Some((10, true)));
    assert_eq!(c.senses.custom.len(), 1);
    assert_eq!(c.senses.custom[0].1, 40);
    assert_eq!(c.speed.fly, None);
    assert!(!c.speed.hover);
    assert_eq!(c.speed.swim, Some(20));
    assert!(c.speed.notes.is_none());
    assert_eq!(c.speed.custom[0].0, "glide");
    assert_eq!(c.challenge_rating, ChallengeRating::Quarter);
    let hd = c.get_hit_dice();
    assert_eq!(hd.serialize_to_string(), "2d6 + 4");
    assert_eq!(hd.average(), Some(11));
}
