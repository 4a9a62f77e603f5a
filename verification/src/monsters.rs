//! Catalog records and the contract of their tokenizer.
use crate::utilities::collections::ListSet;
use vstd::prelude::*;

pub mod monster;
pub mod search;

verus! {

/// Something that can be broken into search terms.
pub trait Tokenize {
    /// The terms of this value.
    spec fn tokens(&self) -> Set<Seq<char>>;

    /// Collects the terms of this value, each once.
    fn tokenize(&self) -> (tokens: ListSet<String>)
        ensures
            tokens@ == self.tokens(),
    ;
}

/// One creature of the catalog.
#[derive(Clone, Debug)]
pub struct Monster {
    pub name: String,
    pub ac: i32,
    pub size: Size,
    pub alignment: String,
    pub languages: Vec<String>,
    pub creature_type: String,
    pub max_hit_points: i32,
    pub hit_dice: String,
    pub speed: Speed,
    pub modifiers: Stats,
    pub stats: Stats,
    pub saving_throws: Stats,
    pub skills: Skills,
    pub traits: Vec<String>,
    pub actions: Option<Actions>,
    pub legendary_actions: Vec<String>,
    pub reactions: Vec<String>,
    pub challenge: Challenge,
    pub image_url: String,
}

/// Size categories, largest first.
#[derive(Clone, Copy, Debug, PartialEq, Eq, Hash, Structural)]
pub enum Size {
    Gargantuan,
    Huge,
    Large,
    Medium,
    Small,
    Tiny,
}

/// Movement rates by mode of travel.
#[derive(Clone, Copy, Debug, PartialEq, Eq, Hash, Structural)]
pub struct Speed {
    pub walk: i32,
    pub fly: i32,
    pub swim: i32,
    pub burrow: i32,
    pub climb: i32,
    pub hover: bool,
}

/// One number per ability.
#[derive(Clone, Copy, Debug, PartialEq, Eq, Hash, Structural)]
pub struct Stats {
    pub strength: i32,
    pub dexterity: i32,
    pub constitution: i32,
    pub intelligence: i32,
    pub wisdom: i32,
    pub charisma: i32,
}

/// One modifier per skill.
#[derive(Clone, Copy, Debug, PartialEq, Eq, Hash, Structural)]
pub struct Skills {
    pub acrobatics: i32,
    pub animal_handling: i32,
    pub arcana: i32,
    pub athletics: i32,
    pub deception: i32,
    pub history: i32,
    pub insight: i32,
    pub intimidation: i32,
    pub investigation: i32,
    pub medicine: i32,
    pub nature: i32,
    pub perception: i32,
    pub performance: i32,
    pub persuasion: i32,
    pub religion: i32,
    pub sleight_of_hand: i32,
    pub stealth: i32,
    pub survival: i32,
}

/// What a creature can do on its turn: described actions, and the attacks
/// among them that are rolled.
#[derive(Clone, Debug)]
pub struct Actions {
    pub list: Vec<String>,
    pub attack_rolls: Vec<AttackRoll>,
}

/// One attack: its bonus to hit and the damage it deals.
#[derive(Clone, Debug)]
pub struct AttackRoll {
    pub name: String,
    pub attack_type: AttackType,
    pub reach: i32,
    pub hit: i32,
    pub damage: Vec<DamageRoll>,
}

/// One component of an attack's damage: a type and a dice expression.
#[derive(Clone, Debug)]
pub struct DamageRoll {
    pub damage_type: DamageType,
    pub roll: String,
}

/// How an attack is delivered.
#[derive(Clone, Copy, Debug, PartialEq, Eq, Hash, Structural)]
pub enum AttackType {
    MeleeWeapon,
    RangedWeapon,
    MeleeSpell,
    RangedSpell,
}

/// Kinds of damage.
#[derive(Clone, Copy, Debug, PartialEq, Eq, Hash, Structural)]
pub enum DamageType {
    Bludgeoning,
    Piercing,
    Slashing,
    Acid,
    Lightning,
    Poison,
    Fire,
    Cold,
    Radiant,
    Necrotic,
}

/// Challenge rating and the experience it is worth.
#[derive(Clone, Debug)]
pub struct Challenge {
    pub rating: String,
    pub xp: i32,
}

impl Size {
    /// The name of the size.
    pub open spec fn label(self) -> Seq<char> {
        match self {
            Size::Gargantuan => "Gargantuan"@,
            Size::Huge => "Huge"@,
            Size::Large => "Large"@,
            Size::Medium => "Medium"@,
            Size::Small => "Small"@,
            Size::Tiny => "Tiny"@,
        }
    }

    /// The name of the size.
    pub fn to_str(&self) -> (name: &'static str)
        ensures
            name@ == self.label(),
    {
        match self {
            Size::Gargantuan => "Gargantuan",
            Size::Huge => "Huge",
            Size::Large => "Large",
            Size::Medium => "Medium",
            Size::Small => "Small",
            Size::Tiny => "Tiny",
        }
    }
}

impl AttackType {
    /// The name of the attack type.
    pub open spec fn label(self) -> Seq<char> {
        match self {
            AttackType::MeleeWeapon => "MeleeWeapon"@,
            AttackType::RangedWeapon => "RangedWeapon"@,
            AttackType::MeleeSpell => "MeleeSpell"@,
            AttackType::RangedSpell => "RangedSpell"@,
        }
    }

    /// The name of the attack type.
    pub fn to_str(&self) -> (name: &'static str)
        ensures
            name@ == self.label(),
    {
        match self {
            AttackType::MeleeWeapon => "MeleeWeapon",
            AttackType::RangedWeapon => "RangedWeapon",
            AttackType::MeleeSpell => "MeleeSpell",
            AttackType::RangedSpell => "RangedSpell",
        }
    }
}

impl DamageType {
    /// The name of the damage type.
    pub open spec fn label(self) -> Seq<char> {
        match self {
            DamageType::Bludgeoning => "Bludgeoning"@,
            DamageType::Piercing => "Piercing"@,
            DamageType::Slashing => "Slashing"@,
            DamageType::Acid => "Acid"@,
            DamageType::Lightning => "Lightning"@,
            DamageType::Poison => "Poison"@,
            DamageType::Fire => "Fire"@,
            DamageType::Cold => "Cold"@,
            DamageType::Radiant => "Radiant"@,
            DamageType::Necrotic => "Necrotic"@,
        }
    }

    /// The name of the damage type.
    pub fn to_str(&self) -> (name: &'static str)
        ensures
            name@ == self.label(),
    {
        match self {
            DamageType::Bludgeoning => "Bludgeoning",
            DamageType::Piercing => "Piercing",
            DamageType::Slashing => "Slashing",
            DamageType::Acid => "Acid",
            DamageType::Lightning => "Lightning",
            DamageType::Poison => "Poison",
            DamageType::Fire => "Fire",
            DamageType::Cold => "Cold",
            DamageType::Radiant => "Radiant",
            DamageType::Necrotic => "Necrotic",
        }
    }
}

} // verus!
