use std::cmp::{max, min};
use std::sync::Arc;
use tabletop::dice::dice_expression_parser::DiceExpressionParserImpl;
use tabletop::dice::dice_roller::DiceRollerImpl;
use tabletop::dice::die_roller::DieRollerImpl;
use tabletop::dice::{DiceExpressionParser, Die, DieRoller, Roll};
use tabletop::handlers::get_monster::{get_monster, GetMonsterDependencies};
use tabletop::handlers::list_dice::list_dice;
use tabletop::handlers::list_monsters::{list_monsters, ListMonstersDependencies};
use tabletop::handlers::roll_attack::{roll_attack, roll_damage, RollAttackDependencies};
use tabletop::handlers::roll_dice::{roll_dice, RollDiceHandlerDependencies, RollDiceResponse};
use tabletop::handlers::roll_saving_throw::{roll_saving_throw, RollSavingThrowDependencies};
use tabletop::handlers::roll_skill::roll_skill;
use tabletop::handlers::roll_stat::{roll_modifier, roll_stat};
use tabletop::handlers::{find_monster, HandlerError, MonsterRollerDependencies};
use tabletop::monsters::search::MonsterSearch;
use tabletop::monsters::{
    Actions, AttackRoll, AttackType, Challenge, DamageRoll, DamageType, Monster, Size, Skills,
    Speed, Stats,
};
use tabletop::stats::modifier_extractor::{
    build_attack_modifier_extractor, build_saving_throw_modifier_extractor,
    build_skill_modifier_extractor, ModifierExtractor,
};
use tabletop::stats::stat_roller::StatRollerImpl;
use tabletop::stats::{AdvantageType, SkillType, StatType};
use tabletop::utilities::collections::ListMap;
use tabletop::utilities::index::vec_to_map;

fn strings(texts: &[&str]) -> Vec<String> {
    texts.iter().map(|text| text.to_string()).collect()
}

fn stats(value: i32) -> Stats {
    Stats {
        strength: value,
        dexterity: value,
        constitution: value,
        intelligence: value,
        wisdom: value,
        charisma: value,
    }
}

fn skills(value: i32) -> Skills {
    Skills {
        acrobatics: value,
        animal_handling: value,
        arcana: value,
        athletics: value,
        deception: value,
        history: value,
        insight: value,
        intimidation: value,
        investigation: value,
        medicine: value,
        nature: value,
        perception: value,
        performance: value,
        persuasion: value,
        religion: value,
        sleight_of_hand: value,
        stealth: value,
        survival: value,
    }
}

fn attack(name: &str, attack_type: AttackType, hit: i32, damage: &[(DamageType, &str)]) -> AttackRoll {
    AttackRoll {
        name: name.to_string(),
        attack_type,
        reach: 5,
        hit,
        damage: damage
            .iter()
            .map(|(damage_type, roll)| DamageRoll {
                damage_type: *damage_type,
                roll: roll.to_string(),
            })
            .collect(),
    }
}

fn monster(
    name: &str,
    size: Size,
    creature_type: &str,
    alignment: &str,
    languages: &[&str],
    traits: &[&str],
    actions: Option<Actions>,
) -> Monster {
    Monster {
        name: name.to_string(),
        ac: 15,
        size,
        alignment: alignment.to_string(),
        languages: strings(languages),
        creature_type: creature_type.to_string(),
        max_hit_points: 100,
        hit_dice: "10d10".to_string(),
        speed: Speed { walk: 30, fly: 0, swim: 0, burrow: 0, climb: 0, hover: false },
        modifiers: stats(2),
        stats: stats(14),
        saving_throws: stats(3),
        skills: skills(1),
        traits: strings(traits),
        actions,
        legendary_actions: vec![],
        reactions: vec![],
        challenge: Challenge { rating: "5".to_string(), xp: 1800 },
        image_url: "https://example.com/monster.jpg".to_string(),
    }
}

fn catalog() -> Vec<Monster> {
    vec![
        monster(
            "Aboleth",
            Size::Large,
            "aberration",
            "lawful evil",
            &["Deep Speech", "telepathy 120 ft."],
            &["Amphibious. The aboleth can breathe air and water.", "Mucous Cloud."],
            Some(Actions {
                list: strings(&["Multiattack. The aboleth makes three tentacle attacks."]),
                attack_rolls: vec![
                    attack("Tentacle", AttackType::MeleeWeapon, 9, &[(DamageType::Bludgeoning, "2d6+5")]),
                    attack("Tail", AttackType::MeleeWeapon, 9, &[(DamageType::Bludgeoning, "3d6+5")]),
                ],
            }),
        ),
        monster(
            "Adult Black Dragon",
            Size::Huge,
            "dragon",
            "chaotic evil",
            &["Common", "Draconic"],
            &["Amphibious. The dragon can breathe air and water."],
            Some(Actions {
                list: strings(&["Frightful Presence."]),
                attack_rolls: vec![attack(
                    "Bite",
                    AttackType::MeleeWeapon,
                    11,
                    &[(DamageType::Piercing, "2d10+6"), (DamageType::Acid, "1d8")],
                )],
            }),
        ),
        monster(
            "Goblin",
            Size::Small,
            "humanoid",
            "neutral evil",
            &["Common", "Goblin"],
            &["Nimble Escape."],
            Some(Actions {
                list: vec![],
                attack_rolls: vec![
                    attack("Scimitar", AttackType::MeleeWeapon, 4, &[(DamageType::Slashing, "1d6+2")]),
                    attack("Shortbow", AttackType::RangedWeapon, 4, &[(DamageType::Piercing, "1d6+2")]),
                ],
            }),
        ),
        monster(
            "Night Hag",
            Size::Medium,
            "fiend",
            "neutral evil",
            &["Abyssal", "Common", "Infernal", "Primordial"],
            &["Innate Spellcasting.", "Magic Resistance."],
            Some(Actions {
                list: strings(&[
                    "Change Shape. The hag magically polymorphs into a humanoid.",
                    "Etherealness. To do so, the hag must have a heartstone in her possession.",
                    "Nightmare Haunting.",
                ]),
                attack_rolls: vec![attack(
                    "Claws",
                    AttackType::MeleeWeapon,
                    7,
                    &[(DamageType::Slashing, "2d8+4")],
                )],
            }),
        ),
        monster(
            "Young Gold Dragon",
            Size::Large,
            "dragon",
            "lawful good",
            &["Common", "Draconic"],
            &["Amphibious."],
            Some(Actions {
                list: strings(&["Multiattack."]),
                attack_rolls: vec![attack(
                    "Bite",
                    AttackType::MeleeWeapon,
                    10,
                    &[(DamageType::Piercing, "2d10+6")],
                )],
            }),
        ),
        monster(
            "Young Red Dragon",
            Size::Large,
            "dragon",
            "chaotic evil",
            &["Common", "Draconic"],
            &[],
            Some(Actions {
                list: strings(&["Multiattack."]),
                attack_rolls: vec![attack(
                    "Bite",
                    AttackType::MeleeWeapon,
                    10,
                    &[(DamageType::Piercing, "2d10+6"), (DamageType::Fire, "1d6")],
                )],
            }),
        ),
        monster(
            "Young Remorhaz",
            Size::Large,
            "monstrosity",
            "unaligned",
            &[],
            &["Heated Body."],
            None,
        ),
    ]
}

fn get_test_monster() -> Monster {
    Monster {
        name: "Test Monster".to_string(),
        ac: 10,
        size: Size::Medium,
        alignment: "Neutral".to_string(),
        languages: vec!["Common".to_string()],
        creature_type: "".to_string(),
        max_hit_points: 100,
        hit_dice: "10d10".to_string(),
        speed: Speed {
            walk: 30,
            fly: 0,
            swim: 0,
            burrow: 0,
            climb: 0,
            hover: false,
        },
        modifiers: Stats {
            strength: 10,
            dexterity: 12,
            constitution: 14,
            intelligence: 10,
            wisdom: 13,
            charisma: 8,
        },
        stats: Stats {
            strength: 10,
            dexterity: 12,
            constitution: 14,
            intelligence: 10,
            wisdom: 13,
            charisma: 8,
        },
        saving_throws: Stats {
            strength: 10,
            dexterity: 12,
            constitution: 14,
            intelligence: 10,
            wisdom: 13,
            charisma: 8,
        },
        skills: Skills {
            acrobatics: 5,
            animal_handling: 5,
            arcana: 3,
            athletics: 5,
            deception: 3,
            history: 2,
            insight: 4,
            intimidation: 4,
            investigation: 3,
            medicine: 4,
            nature: 2,
            perception: 4,
            performance: 3,
            persuasion: 3,
            religion: 2,
            sleight_of_hand: 5,
            stealth: 0,
            survival: 4,
        },
        traits: vec![],
        actions: Some(Actions {
            list: vec![],
            attack_rolls: vec![AttackRoll {
                name: "".to_string(),
                attack_type: AttackType::MeleeWeapon,
                reach: 0,
                hit: 0,
                damage: vec![DamageRoll {
                    damage_type: DamageType::Bludgeoning,
                    roll: "3d6+8".to_string(),
                }],
            }],
        }),
        legendary_actions: vec![],
        challenge: Challenge {
            rating: "Medium".to_string(),
            xp: 1000,
        },
        image_url: "https://example.com/monster.jpg".to_string(),
        reactions: vec![],
    }
}

fn map_of(entries: Vec<(&str, Monster)>) -> Arc<ListMap<String, Monster>> {
    let mut map = ListMap::new();
    for (key, monster) in entries {
        map.insert(key.to_string(), monster);
    }
    Arc::new(map)
}

type Dice = DiceRollerImpl<DieRollerImpl>;

fn get_dependencies() -> RollAttackDependencies<DiceExpressionParserImpl, Dice> {
    RollAttackDependencies {
        dice_expression_parser: Arc::new(DiceExpressionParserImpl::default()),
        dice_roller: Arc::new(DiceRollerImpl::new(Arc::new(DieRollerImpl::default()))),
        monster_map: map_of(vec![("test monster", get_test_monster())]),
    }
}

fn total_roll(rolls: &[Roll]) -> i32 {
    rolls
        .iter()
        .map(|roll| roll.value)
        .reduce(|a, b| a + b)
        .unwrap()
}

fn stat_roller() -> Arc<StatRollerImpl<Dice>> {
    Arc::new(StatRollerImpl::new(Arc::new(DiceRollerImpl::new(Arc::new(
        DieRollerImpl::default(),
    )))))
}

fn not_found<T: std::fmt::Debug>(outcome: Result<T, HandlerError>) -> String {
    match outcome {
        Err(HandlerError::NotFound(message)) => message,
        other => panic!("expected a NotFound failure, got {:?}", other),
    }
}

fn internal<T: std::fmt::Debug>(outcome: Result<T, HandlerError>) -> String {
    match outcome {
        Err(HandlerError::Internal(message)) => message,
        other => panic!("expected an Internal failure, got {:?}", other),
    }
}

#[test]
fn test_get_monster_found() {
    let dependencies = GetMonsterDependencies {
        monster_map: map_of(vec![("test_monster", get_test_monster())]),
    };
    let result = get_monster("test_monster", &dependencies);

    assert!(result.is_ok());
    let json = result.unwrap();
    assert_eq!(json.name, "Test Monster");
}

#[test]
fn test_get_monster_not_found() {
    let dependencies = GetMonsterDependencies {
        monster_map: map_of(vec![]),
    };
    let result = get_monster("non_existent_monster", &dependencies);

    assert!(result.is_err());
    let message = not_found(result);
    assert!(message.contains("not found"));
    assert_eq!(message, "Monster `non_existent_monster` not found");
}

#[test]
fn monsters_are_found_whatever_the_case_of_the_name() {
    let map = map_of(vec![("night hag", get_test_monster())]);

    assert!(find_monster(&map, "Night Hag").is_ok());
    assert!(find_monster(&map, "NIGHT HAG").is_ok());
    assert_eq!(not_found(find_monster(&map, "Night  Hag")), "Monster `Night  Hag` not found");
}

#[test]
fn test_list_dice() {
    assert_eq!(
        list_dice(),
        vec![Die::D4, Die::D6, Die::D8, Die::D10, Die::D12, Die::D20, Die::Raw]
    )
}

fn list_dependencies() -> ListMonstersDependencies {
    let monsters = catalog();
    let monster_map = Arc::new(vec_to_map(&monsters, |monster| monster.name.clone()));
    let monster_search = MonsterSearch::from_map(monster_map);
    ListMonstersDependencies {
        monsters: Arc::new(monsters),
        monster_search: Arc::new(monster_search),
    }
}

#[test]
fn test_list_monsters_all() {
    let state = list_dependencies();
    let result = list_monsters(None, &state);

    assert_eq!(result.first().unwrap().name, "Aboleth");
    assert!(result.len() > 1);
    assert_eq!(
        result.iter().map(|monster| monster.name.clone()).collect::<Vec<_>>(),
        catalog().iter().map(|monster| monster.name.clone()).collect::<Vec<_>>()
    );
}

#[test]
fn test_list_monsters_query() {
    let state = list_dependencies();
    let result = list_monsters(Some("young evil dragon"), &state);

    assert!(result.iter().all(|d| d.creature_type == "dragon"));
    assert!(result.iter().all(|d| d.alignment.contains("evil")));
    assert_eq!(result.len(), 1);
    assert_eq!(result[0].name, "Young Red Dragon");
}

#[test]
fn queries_are_cut_at_spaces_only() {
    let state = list_dependencies();

    assert_eq!(list_monsters(Some("  goblin  "), &state).len(), 1);
    assert!(list_monsters(Some("goblin\tdragon"), &state).is_empty());
    assert!(list_monsters(Some(""), &state).is_empty());
}

#[test]
fn test_monster_not_found() {
    let dependencies = get_dependencies();
    let result = roll_attack("fake-monster", 0, false, &dependencies);

    assert!(result.is_err());
    assert_eq!(not_found(result), "Monster `fake-monster` not found");
}

#[test]
fn test_monster_attack_not_found() {
    let dependencies = get_dependencies();
    let result = roll_attack("test monster", 1, false, &dependencies).unwrap();

    assert_eq!(result.damage_rolls.len(), 0);
    assert_eq!(result.total, 0);
}

#[test]
fn test_monster_attack() {
    let dependencies = get_dependencies();
    let result = roll_attack("test monster", 0, false, &dependencies).unwrap();

    assert!(result.total > 0);
    assert_eq!(result.damage_rolls.first().unwrap().rolls.len(), 4);
}

#[test]
fn test_monster_attack_critical() {
    let dependencies = get_dependencies();
    let result = roll_attack("test monster", 0, true, &dependencies).unwrap();

    assert!(result.total > 0);
    assert_eq!(result.damage_rolls.first().unwrap().rolls.len(), 7);
}

#[test]
fn monster_without_actions_deals_no_damage() {
    let mut monster = get_test_monster();
    monster.actions = None;
    let mut dependencies = get_dependencies();
    dependencies.monster_map = map_of(vec![("test monster", monster)]);

    let result = roll_attack("Test Monster", 0, true, &dependencies).unwrap();

    assert!(result.damage_rolls.is_empty());
    assert_eq!(result.total, 0);
}

#[test]
fn attack_damage_is_rolled_by_component() {
    let dependencies = get_dependencies();
    let damage = vec![
        DamageRoll { damage_type: DamageType::Piercing, roll: "2d10+6".to_string() },
        DamageRoll { damage_type: DamageType::Fire, roll: "1D6".to_string() },
        DamageRoll { damage_type: DamageType::Cold, roll: "4".to_string() },
    ];

    let result = roll_damage(
        &damage,
        true,
        &*dependencies.dice_expression_parser,
        &*dependencies.dice_roller,
    )
    .unwrap();

    assert_eq!(result.damage_rolls.len(), 3);
    assert_eq!(result.damage_rolls[0].damage_type, DamageType::Piercing);
    assert_eq!(result.damage_rolls[0].rolls.len(), 5);
    assert_eq!(result.damage_rolls[0].rolls[4], Roll { die: Die::Raw, value: 6 });
    assert_eq!(result.damage_rolls[1].damage_type, DamageType::Fire);
    assert_eq!(result.damage_rolls[1].rolls.len(), 2);
    assert_eq!(result.damage_rolls[2].damage_type, DamageType::Cold);
    assert_eq!(result.damage_rolls[2].rolls, vec![Roll { die: Die::Raw, value: 4 }]);
    assert_eq!(result.damage_rolls[2].total, 4);
    for damage in &result.damage_rolls {
        assert_eq!(damage.total, damage.rolls.iter().map(|roll| roll.value).sum::<i32>());
    }
    assert_eq!(
        result.total,
        result.damage_rolls.iter().map(|damage| damage.total).sum::<i32>()
    );
}

#[test]
fn damage_that_does_not_parse_is_an_internal_failure() {
    let dependencies = get_dependencies();
    let damage = vec![
        DamageRoll { damage_type: DamageType::Piercing, roll: "2d10+6".to_string() },
        DamageRoll { damage_type: DamageType::Fire, roll: "a lot".to_string() },
        DamageRoll { damage_type: DamageType::Cold, roll: "more".to_string() },
    ];

    let result = roll_damage(
        &damage,
        false,
        &*dependencies.dice_expression_parser,
        &*dependencies.dice_roller,
    );

    assert_eq!(internal(result), "\"a lot\" is not a valid dice expression");
}

#[test]
fn damage_that_does_not_fit_is_an_internal_failure() {
    let dependencies = get_dependencies();
    let damage = vec![
        DamageRoll { damage_type: DamageType::Piercing, roll: "2147483647".to_string() },
        DamageRoll { damage_type: DamageType::Fire, roll: "1".to_string() },
    ];
    let roll = |critical| {
        roll_damage(
            &damage,
            critical,
            &*dependencies.dice_expression_parser,
            &*dependencies.dice_roller,
        )
    };

    assert_eq!(internal(roll(false)), "the damage is out of range");
    assert_eq!(internal(roll(true)), "the damage is out of range");
    let doubled = vec![DamageRoll { damage_type: DamageType::Acid, roll: "1073741824d4".to_string() }];
    assert_eq!(
        internal(roll_damage(
            &doubled,
            true,
            &*dependencies.dice_expression_parser,
            &*dependencies.dice_roller
        )),
        "the damage is out of range"
    );
}

struct MockDiceExpressionParserErr {}

impl DiceExpressionParser for MockDiceExpressionParserErr {
    fn parse(&self, _: &str) -> Result<Vec<(Die, i32)>, String> {
        Err(String::from("Invalid dice expression"))
    }
}

struct MockDiceExpressionParserOk {}

impl DiceExpressionParser for MockDiceExpressionParserOk {
    fn parse(&self, _: &str) -> Result<Vec<(Die, i32)>, String> {
        Ok(vec![(Die::D6, 2), (Die::Raw, 5)])
    }
}

struct MockDieRollerPanics {}

impl DieRoller for MockDieRollerPanics {
    fn roll(&self, _: &Die) -> i32 {
        panic!("Dice roller should not have been executed")
    }
}

struct MockDieRollerThree {}

impl DieRoller for MockDieRollerThree {
    fn roll(&self, _: &Die) -> i32 {
        3
    }
}

#[test]
fn test_roll_dice_error() {
    let state = RollDiceHandlerDependencies {
        dice_roller: Arc::new(DiceRollerImpl::new(Arc::new(MockDieRollerPanics {}))),
        dice_expression_parser: Arc::new(MockDiceExpressionParserErr {}),
    };

    let result = roll_dice("fake-expression".to_string(), &state);

    assert_eq!(result.is_err(), true);
    assert!(matches!(result, Err(HandlerError::BadRequest(message)) if message == "Invalid dice expression"));
}

#[test]
fn test_roll_dice_success() {
    let state = RollDiceHandlerDependencies {
        dice_roller: Arc::new(DiceRollerImpl::new(Arc::new(MockDieRollerThree {}))),
        dice_expression_parser: Arc::new(MockDiceExpressionParserOk {}),
    };

    let result = roll_dice("fake-expression".to_string(), &state).unwrap();

    assert_eq!(
        result,
        RollDiceResponse {
            expression: "fake-expression".to_string(),
            total: 11,
            rolls: vec![
                Roll { die: Die::D6, value: 3 },
                Roll { die: Die::D6, value: 3 },
                Roll { die: Die::Raw, value: 5 }
            ],
        }
    );
}

#[test]
fn roll_dice_with_the_real_parser() {
    let state = RollDiceHandlerDependencies {
        dice_roller: Arc::new(DiceRollerImpl::new(Arc::new(MockDieRollerThree {}))),
        dice_expression_parser: Arc::new(DiceExpressionParserImpl::default()),
    };

    let result = roll_dice("2D8-1d4-3".to_string(), &state).unwrap();
    assert_eq!(result.expression, "2D8-1d4-3");
    assert_eq!(
        result.rolls,
        vec![
            Roll { die: Die::D8, value: 3 },
            Roll { die: Die::D8, value: 3 },
            Roll { die: Die::Raw, value: -3 }
        ]
    );
    assert_eq!(result.total, 3);
    assert!(matches!(
        roll_dice("nonsense".to_string(), &state),
        Err(HandlerError::BadRequest(message)) if message == "\"nonsense\" is not a valid dice expression"
    ));
    assert_eq!(
        internal(roll_dice("2147483647+1".to_string(), &state)),
        "the total of the roll is out of range"
    );
}

#[test]
fn roll_stat_test_roll_saving_throw_found() {
    let dependencies = MonsterRollerDependencies {
        monster_map: map_of(vec![("test_monster", get_test_monster())]),
        stats_roller: stat_roller(),
        modifier_extractor: Arc::new(build_saving_throw_modifier_extractor()),
    };

    let result = roll_stat("test_monster", &StatType::Wisdom, &None, &dependencies);

    assert!(result.is_ok());
    let result = result.unwrap();
    assert!(result.second_roll.is_none());
    assert_eq!(result.first_roll[1], Roll { die: Die::Raw, value: 13 });
    assert_eq!(result.result, total_roll(&result.first_roll));
}

#[test]
fn test_roll_saving_throw_monster_not_found() {
    let dependencies = MonsterRollerDependencies {
        monster_map: map_of(vec![]),
        stats_roller: stat_roller(),
        modifier_extractor: Arc::new(build_saving_throw_modifier_extractor()),
    };

    let result = roll_stat("test_monster", &StatType::Wisdom, &None, &dependencies);

    assert!(result.is_err());
    assert_eq!(not_found(result), "Monster `test_monster` not found");
}

#[test]
fn test_roll_saving_throw_modifier_not_found() {
    let dependencies = MonsterRollerDependencies {
        monster_map: map_of(vec![("test_monster", get_test_monster())]),
        stats_roller: stat_roller(),
        modifier_extractor: Arc::new(ModifierExtractor::new(|_: &StatType, _: &Monster| None)),
    };

    let result = roll_stat("test_monster", &StatType::Wisdom, &None, &dependencies);

    assert!(result.is_err());
    assert_eq!(not_found(result), "No stat modifier found");
}

#[test]
fn roll_stat_test_roll_saving_throw_with_advantage() {
    let dependencies = MonsterRollerDependencies {
        monster_map: map_of(vec![("test_monster", get_test_monster())]),
        stats_roller: stat_roller(),
        modifier_extractor: Arc::new(build_saving_throw_modifier_extractor()),
    };

    let result = roll_stat(
        "test_monster",
        &StatType::Wisdom,
        &Some(&AdvantageType::Advantage),
        &dependencies,
    );

    assert!(result.is_ok());
    let unwrapped_result = result.unwrap();
    assert!(unwrapped_result.second_roll.is_some());
    assert_eq!(
        unwrapped_result.result,
        max(
            total_roll(&unwrapped_result.first_roll),
            total_roll(&unwrapped_result.second_roll.unwrap())
        )
    );
}

#[test]
fn roll_stat_test_roll_saving_throw_with_disadvantage() {
    let dependencies = MonsterRollerDependencies {
        monster_map: map_of(vec![("test_monster", get_test_monster())]),
        stats_roller: stat_roller(),
        modifier_extractor: Arc::new(build_saving_throw_modifier_extractor()),
    };

    let result = roll_stat(
        "test_monster",
        &StatType::Wisdom,
        &Some(&AdvantageType::Disadvantage),
        &dependencies,
    );

    assert!(result.is_ok());
    let result = result.unwrap();
    assert!(result.second_roll.is_some());
    assert_eq!(
        result.result,
        min(
            total_roll(&result.first_roll),
            total_roll(&result.second_roll.unwrap())
        )
    );
}

fn skill_dependencies(entries: Vec<(&str, Monster)>) -> RollSavingThrowDependencies<StatRollerImpl<Dice>> {
    RollSavingThrowDependencies {
        stats_roller: stat_roller(),
        monster_map: map_of(entries),
    }
}

#[test]
fn test_roll_skill_not_found() {
    let dependencies = skill_dependencies(vec![]);

    let result = roll_skill("test_monster", SkillType::Nature, &None, &dependencies);

    assert!(result.is_err());
    assert_eq!(not_found(result), "Monster `test_monster` not found");
}

#[test]
fn test_roll_skill_no_advantage() {
    let dependencies = skill_dependencies(vec![("test_monster", get_test_monster())]);

    let result = roll_skill("test_monster", SkillType::Nature, &None, &dependencies);

    assert!(result.is_ok());
    assert!(result.unwrap().second_roll.is_none());
}

#[test]
fn test_roll_skill_advantage() {
    let dependencies = skill_dependencies(vec![("test_monster", get_test_monster())]);

    let result = roll_skill(
        "test_monster",
        SkillType::Nature,
        &Some(&AdvantageType::Advantage),
        &dependencies,
    );

    assert!(result.is_ok());
    assert!(result.unwrap().second_roll.is_some());
}

#[test]
fn test_roll_skill_disadvantage() {
    let dependencies = skill_dependencies(vec![("test_monster", get_test_monster())]);

    let result = roll_skill(
        "test_monster",
        SkillType::Nature,
        &Some(&AdvantageType::Disadvantage),
        &dependencies,
    );

    assert!(result.is_ok());
    assert!(result.unwrap().second_roll.is_some());
}

#[test]
fn skill_check_adds_the_modifier_of_the_skill() {
    let dependencies = skill_dependencies(vec![("test_monster", get_test_monster())]);

    let result = roll_skill("Test_Monster", SkillType::Insight, &None, &dependencies).unwrap();

    assert_eq!(result.first_roll[1], Roll { die: Die::Raw, value: 4 });
    assert_eq!(result.result, total_roll(&result.first_roll));
    let by_extractor = MonsterRollerDependencies {
        monster_map: map_of(vec![("test_monster", get_test_monster())]),
        stats_roller: stat_roller(),
        modifier_extractor: Arc::new(build_skill_modifier_extractor()),
    };
    let result = roll_stat("test_monster", &SkillType::Insight, &None, &by_extractor).unwrap();
    assert_eq!(result.first_roll[1], Roll { die: Die::Raw, value: 4 });
}

#[test]
fn roll_saving_throw_test_roll_saving_throw_found() {
    let dependencies = skill_dependencies(vec![("test_monster", get_test_monster())]);

    let result = roll_saving_throw("test_monster", StatType::Wisdom, &None, &dependencies);

    assert!(result.is_ok());
    let result = result.unwrap();
    assert!(result.second_roll.is_none());
    assert_eq!(result.first_roll[1], Roll { die: Die::Raw, value: 13 });
}

#[test]
fn test_roll_saving_throw_not_found() {
    let dependencies = skill_dependencies(vec![]);

    let result = roll_saving_throw("test_monster", StatType::Wisdom, &None, &dependencies);

    assert!(result.is_err());
    assert_eq!(not_found(result), "Monster `test_monster` not found");
}

#[test]
fn roll_saving_throw_test_roll_saving_throw_with_advantage() {
    let dependencies = skill_dependencies(vec![("test_monster", get_test_monster())]);

    let result = roll_saving_throw(
        "test_monster",
        StatType::Wisdom,
        &Some(&AdvantageType::Advantage),
        &dependencies,
    );

    assert!(result.is_ok());
    let unwrapped_result = result.unwrap();
    assert!(unwrapped_result.second_roll.is_some());
    assert_eq!(
        unwrapped_result.result,
        max(
            total_roll(&unwrapped_result.first_roll),
            total_roll(&unwrapped_result.second_roll.unwrap())
        )
    );
}

#[test]
fn roll_saving_throw_test_roll_saving_throw_with_disadvantage() {
    let dependencies = skill_dependencies(vec![("test_monster", get_test_monster())]);

    let result = roll_saving_throw(
        "test_monster",
        StatType::Wisdom,
        &Some(&AdvantageType::Disadvantage),
        &dependencies,
    );

    assert!(result.is_ok());
    let result = result.unwrap();
    assert!(result.second_roll.is_some());
    assert_eq!(
        result.result,
        min(
            total_roll(&result.first_roll),
            total_roll(&result.second_roll.unwrap())
        )
    );
}

#[test]
fn attack_roll_uses_the_bonus_to_hit() {
    let dependencies = MonsterRollerDependencies {
        monster_map: map_of(vec![("goblin", catalog().remove(2))]),
        stats_roller: stat_roller(),
        modifier_extractor: Arc::new(build_attack_modifier_extractor()),
    };

    let hit = roll_stat("Goblin", &1, &None, &dependencies).unwrap();
    assert_eq!(hit.first_roll[1], Roll { die: Die::Raw, value: 4 });
    assert_eq!(not_found(roll_stat("Goblin", &2, &None, &dependencies)), "No stat modifier found");
}

#[test]
fn modifier_without_room_for_the_d20_is_an_internal_failure() {
    let roller = stat_roller();

    assert_eq!(
        internal(roll_modifier(&*roller, Some(i32::MAX - 19), &None)),
        "the modifier is out of range"
    );
    assert!(roll_modifier(&*roller, Some(i32::MAX - 20), &None).is_ok());
    assert!(roll_modifier(&*roller, Some(i32::MIN), &Some(&AdvantageType::Advantage)).is_ok());
    assert_eq!(not_found(roll_modifier(&*roller, None, &None)), "No stat modifier found");
}
