use statcalc::distance::meter_str_to_milli;
use statcalc::errors::ItemError;
use statcalc::items::{
    build_close_quarters, Condition, Item, ItemBuilder, StatModifier, StatType, ValueType,
};
use statcalc::record::{valid_item, valid_items, ItemMap, ParsedItem};

fn empty_record() -> ParsedItem {
    ParsedItem {
        name: None,
        description: None,
        cost: None,
        tier: None,
        activation: None,
        slot: None,
        components: None,
        is_disabled: None,
        ability_cooldown: None,
        bonus_health: None,
        bullet_resist: None,
        bonus_fire_rate: None,
        melee_resist: None,
        close_range_bonus_weapon_power: None,
        close_range_bonus_damage_range: None,
    }
}

#[test]
fn item_is_valid() {
    let item = ParsedItem {
        name: Some("Echo Shard".to_string()),
        cost: Some(6400),
        tier: Some(4),
        activation: Some("InstantCast".to_string()),
        slot: Some("Tech".to_string()),
        is_disabled: Some(false),
        ability_cooldown: Some(30_000),
        bonus_fire_rate: Some(5),
        bullet_resist: Some(5),
        ..empty_record()
    };
    // item is valid if have a name and IsDisabled is false
    assert!(valid_item(&item).unwrap(), "Item wasnt valid");
}

#[test]
fn item_is_not_valid() {
    let item = ParsedItem {
        name: None,
        cost: Some(9999),
        tier: Some(5),
        activation: Some("Passive".to_string()),
        slot: Some("Tech".to_string()),
        is_disabled: Some(false),
        ..empty_record()
    };
    assert!(!valid_item(&item).unwrap(), "Item was valid");
}

#[test]
fn disabled_item_is_not_valid() {
    let item = ParsedItem {
        name: Some("Echo Shard".to_string()),
        is_disabled: Some(true),
        ..empty_record()
    };
    assert!(!valid_item(&item).unwrap());
}

#[test]
fn missing_disabled_flag_is_an_error() {
    let item = ParsedItem { name: Some("Echo Shard".to_string()), ..empty_record() };
    assert_eq!(valid_item(&item).unwrap_err(), ItemError::MissingDisabledFlag);
}

fn ricochet_record() -> ParsedItem {
    ParsedItem {
        name: Some("Ricochet".to_string()),
        description: Some("Your bullets ricochet on enemies near your target.".to_string()),
        cost: Some(6400),
        tier: Some(4),
        activation: Some("Passive".to_string()),
        slot: Some("Weapon".to_string()),
        is_disabled: Some(false),
        bonus_fire_rate: Some(20),
        ..empty_record()
    }
}

#[test]
fn valid_items_rekeys_by_lowercased_name() {
    let mut items = ItemMap::new();
    items.insert("upgrade_ricochet".to_string(), ricochet_record());
    let filtered = valid_items(items).unwrap();
    // keyed by the record's lowercased name, not by the source key
    assert!(filtered.get("ricochet").is_some());
    assert!(filtered.get("Ricochet").is_none());
    assert!(filtered.get("upgrade_ricochet").is_none());
    assert_eq!(filtered.get("ricochet").unwrap().cost, Some(6400));
}

#[test]
fn valid_items_drops_invalid_records() {
    let mut items = ItemMap::new();
    items.insert("a".to_string(), ricochet_record());
    items.insert(
        "b".to_string(),
        ParsedItem { name: None, is_disabled: Some(false), ..empty_record() },
    );
    items.insert(
        "c".to_string(),
        ParsedItem {
            name: Some("Benched".to_string()),
            is_disabled: Some(true),
            ..empty_record()
        },
    );
    let filtered = valid_items(items).unwrap();
    assert!(filtered.get("ricochet").is_some());
    assert!(filtered.get("benched").is_none());
}

#[test]
fn valid_items_fails_on_missing_flag() {
    let mut items = ItemMap::new();
    items.insert("a".to_string(), ricochet_record());
    items.insert(
        "b".to_string(),
        ParsedItem { name: Some("Broken".to_string()), ..empty_record() },
    );
    assert_eq!(valid_items(items).unwrap_err(), ItemError::MissingDisabledFlag);
}

#[test]
fn item_map_overwrites_on_same_key() {
    let mut items = ItemMap::new();
    items.insert("k".to_string(), ricochet_record());
    items.insert("k".to_string(), ParsedItem { cost: Some(1), ..empty_record() });
    assert_eq!(items.get("k").unwrap().cost, Some(1));
}

#[test]
fn meter_strings_parse_exactly() {
    assert_eq!(meter_str_to_milli("13m").unwrap(), 13_000);
    assert_eq!(meter_str_to_milli("7.5m").unwrap(), 7_500);
    assert_eq!(meter_str_to_milli("0.25m").unwrap(), 250);
    assert_eq!(meter_str_to_milli("1.125m").unwrap(), 1_125);
    assert_eq!(meter_str_to_milli("0m").unwrap(), 0);
}

#[test]
fn meter_parser_digit_limits() {
    // fifteen integer digits are the most the parser accepts exactly
    assert_eq!(meter_str_to_milli("123456789012345m").unwrap(), 123_456_789_012_345_000);
    assert!(matches!(
        meter_str_to_milli("1234567890123456m"),
        Err(ItemError::MalformedDistance { .. })
    ));
    // three fraction digits are the finest thousandths can carry
    assert_eq!(meter_str_to_milli("1.999m").unwrap(), 1_999);
    assert!(matches!(
        meter_str_to_milli("1.9999m"),
        Err(ItemError::MalformedDistance { .. })
    ));
}

#[test]
fn malformed_meter_strings_are_rejected() {
    for bad in ["", "m", ".5m", "1.m", "1..2m", "1.2345m", "abcm", "-3m", "1 3m"] {
        match meter_str_to_milli(bad) {
            Err(ItemError::MalformedDistance { text }) => assert_eq!(text, bad),
            other => panic!("expected a malformed-distance error, got {:?}", other),
        }
    }
}

fn close_quarters_record() -> ParsedItem {
    ParsedItem {
        name: Some("Close Quarters".to_string()),
        description: Some("Deal bonus weapon damage at close range.".to_string()),
        cost: Some(500),
        tier: Some(1),
        activation: Some("Passive".to_string()),
        slot: Some("Weapon".to_string()),
        is_disabled: Some(false),
        melee_resist: Some(12),
        close_range_bonus_weapon_power: Some(25),
        close_range_bonus_damage_range: Some("13m".to_string()),
        ..empty_record()
    }
}

#[test]
fn build_close_quarters_attaches_both_modifiers() {
    let mut items = ItemMap::new();
    items.insert("Close Quarters".to_string(), close_quarters_record());
    let item = build_close_quarters(&items).unwrap();
    assert_eq!(item.core.name, "Close Quarters");
    assert_eq!(item.core.desc, "Deal bonus weapon damage at close range.");
    assert_eq!(item.core.cost, 500);
    assert_eq!(item.core.tier, 1);
    assert_eq!(item.core.activation, "Passive");
    assert_eq!(item.core.slot, "Weapon");
    assert_eq!(
        item.modifiers,
        vec![
            StatModifier {
                stat: StatType::MeleeRes,
                val: ValueType::Int(12),
                cond: Condition::Always,
            },
            StatModifier {
                stat: StatType::WepDamage,
                val: ValueType::Int(25),
                cond: Condition::DistanceLessThan(13_000),
            },
        ]
    );
}

#[test]
fn build_close_quarters_fails_without_the_item() {
    let items = ItemMap::new();
    match build_close_quarters(&items) {
        Err(ItemError::MissingItem { name }) => assert_eq!(name, "Close Quarters"),
        other => panic!("expected a missing-item error, got {:?}", other),
    }
}

#[test]
fn builder_steps_fail_on_their_own_missing_fields() {
    let mut items = ItemMap::new();
    items.insert(
        "Close Quarters".to_string(),
        ParsedItem { melee_resist: None, ..close_quarters_record() },
    );
    match build_close_quarters(&items) {
        Err(ItemError::MissingField { field, item }) => {
            assert_eq!(field, "Melee Resist");
            assert_eq!(item, "Close Quarters");
        },
        other => panic!("expected a missing-field error, got {:?}", other),
    }

    let mut items = ItemMap::new();
    items.insert(
        "Close Quarters".to_string(),
        ParsedItem {
            close_range_bonus_damage_range: Some("13x5m".to_string()),
            ..close_quarters_record()
        },
    );
    match build_close_quarters(&items) {
        Err(ItemError::MalformedDistance { text }) => assert_eq!(text, "13x5m"),
        other => panic!("expected a malformed-distance error, got {:?}", other),
    }
}

#[test]
fn item_construction_round_trips_every_core_field() {
    let record = close_quarters_record();
    let item = Item::new("Close Quarters", &record, Vec::new()).unwrap();
    assert_eq!(item.core.name, record.name.clone().unwrap());
    assert_eq!(item.core.desc, record.description.clone().unwrap());
    assert_eq!(item.core.cost, record.cost.unwrap());
    assert_eq!(item.core.tier, record.tier.unwrap());
    assert_eq!(item.core.activation, record.activation.clone().unwrap());
    assert_eq!(item.core.slot, record.slot.clone().unwrap());
    assert!(item.modifiers.is_empty());
}

#[test]
fn item_construction_fails_on_first_missing_core_field() {
    let record = ParsedItem { description: None, ..close_quarters_record() };
    match Item::new("Close Quarters", &record, Vec::new()) {
        Err(ItemError::MissingField { field, item }) => {
            assert_eq!(field, "Description");
            assert_eq!(item, "Close Quarters");
        },
        other => panic!("expected a missing-field error, got {:?}", other),
    }
}

#[test]
fn builder_keeps_attachment_order() {
    let mut items = ItemMap::new();
    items.insert("Close Quarters".to_string(), close_quarters_record());
    let item = ItemBuilder::new("Close Quarters", &items)
        .unwrap()
        .with_close_range_weapon_damage()
        .unwrap()
        .with_melee_resist()
        .unwrap()
        .build()
        .unwrap();
    assert_eq!(item.modifiers[0].stat, StatType::WepDamage);
    assert_eq!(item.modifiers[1].stat, StatType::MeleeRes);
}
