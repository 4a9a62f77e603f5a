//! Picking the modifier of a check out of a record.
use crate::monsters::{Actions, Monster, Skills, Stats};
use crate::stats::{SkillType, StatType};
use core::marker::PhantomData;
use vstd::prelude::*;

verus! {

/// A way to find, in a record, the modifier that a selector of type `T`
/// names.
pub struct ModifierExtractor<T, F: Fn(&T, &Monster) -> Option<i32>> {
    extractor: F,
    selector: PhantomData<T>,
}

impl<T, F: Fn(&T, &Monster) -> Option<i32>> ModifierExtractor<T, F> {
    /// The function that does the extraction.
    pub closed spec fn extractor(&self) -> F {
        self.extractor
    }

    /// This extractor accepts every selector and record, and what it returns
    /// is what `modifier` says.
    pub open spec fn computes(&self, modifier: spec_fn(T, Monster) -> Option<i32>) -> bool {
        &&& forall|value: &T, monster: &Monster| #[trigger]
            call_requires(self.extractor(), (value, monster))
        &&& forall|value: &T, monster: &Monster, found: Option<i32>| #[trigger]
            call_ensures(self.extractor(), (value, monster), found) ==> found == modifier(
                *value,
                *monster,
            )
    }

    /// An extractor that asks `f`.
    pub fn new(f: F) -> (extractor: Self)
        ensures
            extractor.extractor() == f,
    {
        Self { extractor: f, selector: PhantomData }
    }

    /// The modifier that `value` names in `monster`, if the record has it.
    pub fn extract(&self, value: &T, monster: &Monster) -> (found: Option<i32>)
        requires
            call_requires(self.extractor(), (value, monster)),
        ensures
            call_ensures(self.extractor(), (value, monster), found),
    {
        (self.extractor)(value, monster)
    }
}

/// The number that `stats` holds for an ability.
pub open spec fn stat_of(stats: Stats, stat: StatType) -> i32 {
    match stat {
        StatType::Strength => stats.strength,
        StatType::Dexterity => stats.dexterity,
        StatType::Constitution => stats.constitution,
        StatType::Intelligence => stats.intelligence,
        StatType::Wisdom => stats.wisdom,
        StatType::Charisma => stats.charisma,
    }
}

/// The modifier that `skills` holds for a skill.
pub open spec fn skill_of(skills: Skills, skill: SkillType) -> i32 {
    match skill {
        SkillType::Acrobatics => skills.acrobatics,
        SkillType::AnimalHandling => skills.animal_handling,
        SkillType::Arcana => skills.arcana,
        SkillType::Athletics => skills.athletics,
        SkillType::Deception => skills.deception,
        SkillType::History => skills.history,
        SkillType::Insight => skills.insight,
        SkillType::Intimidation => skills.intimidation,
        SkillType::Investigation => skills.investigation,
        SkillType::Medicine => skills.medicine,
        SkillType::Nature => skills.nature,
        SkillType::Perception => skills.perception,
        SkillType::Performance => skills.performance,
        SkillType::Persuasion => skills.persuasion,
        SkillType::Religion => skills.religion,
        SkillType::SleightOfHand => skills.sleight_of_hand,
        SkillType::Stealth => skills.stealth,
        SkillType::Survival => skills.survival,
    }
}

/// The bonus to hit of the attack at `index`, if the record has that attack.
pub open spec fn hit_of(actions: Option<Actions>, index: usize) -> Option<i32> {
    match actions {
        Some(actions) => if index < actions.attack_rolls@.len() {
            Some(actions.attack_rolls@[index as int].hit)
        } else {
            None
        },
        None => None,
    }
}

/// The saving throw modifier of an ability.
pub open spec fn saving_throw_modifier(stat: StatType, monster: Monster) -> Option<i32> {
    Some(stat_of(monster.saving_throws, stat))
}

/// The modifier of a skill.
pub open spec fn skill_modifier(skill: SkillType, monster: Monster) -> Option<i32> {
    Some(skill_of(monster.skills, skill))
}

/// The modifier of an ability.
pub open spec fn stat_modifier(stat: StatType, monster: Monster) -> Option<i32> {
    Some(stat_of(monster.modifiers, stat))
}

/// The bonus to hit of an attack, by its position among the record's attacks.
pub open spec fn attack_modifier(index: usize, monster: Monster) -> Option<i32> {
    hit_of(monster.actions, index)
}

impl Stats {
    /// The number for `stat`.
    pub fn get(&self, stat: &StatType) -> (value: i32)
        ensures
            value == stat_of(*self, *stat),
    {
        match stat {
            StatType::Strength => self.strength,
            StatType::Dexterity => self.dexterity,
            StatType::Constitution => self.constitution,
            StatType::Intelligence => self.intelligence,
            StatType::Wisdom => self.wisdom,
            StatType::Charisma => self.charisma,
        }
    }
}

impl Skills {
    /// The modifier for `skill`.
    pub fn get(&self, skill: &SkillType) -> (value: i32)
        ensures
            value == skill_of(*self, *skill),
    {
        match skill {
            SkillType::Acrobatics => self.acrobatics,
            SkillType::AnimalHandling => self.animal_handling,
            SkillType::Arcana => self.arcana,
            SkillType::Athletics => self.athletics,
            SkillType::Deception => self.deception,
            SkillType::History => self.history,
            SkillType::Insight => self.insight,
            SkillType::Intimidation => self.intimidation,
            SkillType::Investigation => self.investigation,
            SkillType::Medicine => self.medicine,
            SkillType::Nature => self.nature,
            SkillType::Perception => self.perception,
            SkillType::Performance => self.performance,
            SkillType::Persuasion => self.persuasion,
            SkillType::Religion => self.religion,
            SkillType::SleightOfHand => self.sleight_of_hand,
            SkillType::Stealth => self.stealth,
            SkillType::Survival => self.survival,
        }
    }
}

/// An extractor of saving throw modifiers.
pub fn build_saving_throw_modifier_extractor() -> (extractor: ModifierExtractor<
    StatType,
    impl Fn(&StatType, &Monster) -> Option<i32>,
>)
    ensures
        extractor.computes(|stat: StatType, monster: Monster| saving_throw_modifier(stat, monster)),
{
    ModifierExtractor::new(
        |stat: &StatType, monster: &Monster| -> (found: Option<i32>)
            ensures
                found == saving_throw_modifier(*stat, *monster)
        {
            Some(monster.saving_throws.get(stat))
        },
    )
}

/// An extractor of skill modifiers.
pub fn build_skill_modifier_extractor() -> (extractor: ModifierExtractor<
    SkillType,
    impl Fn(&SkillType, &Monster) -> Option<i32>,
>)
    ensures
        extractor.computes(|skill: SkillType, monster: Monster| skill_modifier(skill, monster)),
{
    ModifierExtractor::new(
        |skill: &SkillType, monster: &Monster| -> (found: Option<i32>)
            ensures
                found == skill_modifier(*skill, *monster)
        {
            Some(monster.skills.get(skill))
        },
    )
}

/// An extractor of ability modifiers.
pub fn build_stat_modifier_extractor() -> (extractor: ModifierExtractor<
    StatType,
    impl Fn(&StatType, &Monster) -> Option<i32>,
>)
    ensures
        extractor.computes(|stat: StatType, monster: Monster| stat_modifier(stat, monster)),
{
    ModifierExtractor::new(
        |stat: &StatType, monster: &Monster| -> (found: Option<i32>)
            ensures
                found == stat_modifier(*stat, *monster)
        {
            Some(monster.modifiers.get(stat))
        },
    )
}

/// An extractor of attack bonuses, selected by the position of the attack.
pub fn build_attack_modifier_extractor() -> (extractor: ModifierExtractor<
    usize,
    impl Fn(&usize, &Monster) -> Option<i32>,
>)
    ensures
        extractor.computes(|index: usize, monster: Monster| attack_modifier(index, monster)),
{
    ModifierExtractor::new(
        |action_index: &usize, monster: &Monster| -> (found: Option<i32>)
            ensures
                found == attack_modifier(*action_index, *monster)
        {
            match &monster.actions {
                None => None,
                Some(actions) => if *action_index < actions.attack_rolls.len() {
                    Some(actions.attack_rolls[*action_index].hit)
                } else {
                    None
                },
            }
        },
    )
}

} // verus!
