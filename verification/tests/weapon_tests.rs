use statcalc::weapon::{Frac, StatField, Weapon, WeaponState, WeaponType};

fn test_weapon() -> Weapon {
    Weapon::new(10_000, 500, 2_500, 2_000, 15, WeaponType::Auto, 12_000, 24_000).unwrap()
}

#[test]
fn weapon_new() {
    let weapon = test_weapon();
    assert_eq!(weapon.base_damage, 10_000);
    assert_eq!(weapon.boon_damage, 500);
    assert_eq!(weapon.fire_rate, 2_500);
    assert_eq!(weapon.reload_time, 2_000);
    assert_eq!(weapon.mag_size, 15);
    assert_eq!(weapon.weapon_type, WeaponType::Auto);
    assert_eq!(weapon.min_falloff, 12_000);
    assert_eq!(weapon.max_falloff, 24_000);
}

#[test]
#[should_panic]
fn weapon_new_panic_negative_value() {
    let _weapon =
        Weapon::new(-5_000, 0, 3_000, 4_000, 20, WeaponType::Auto, 12_000, 24_000).unwrap();
}

#[test]
fn weapon_state_default() {
    let state = WeaponState::default();
    assert_eq!(state.boon_level, 0);

    assert_eq!(state.bonus_damage, 0);
    assert_eq!(state.bonus_fire_rate, 0);
    assert_eq!(state.bonus_ammo, 0);
}

#[test]
fn weapon_state_new() {
    let state = WeaponState::new(5, 50, 100, 0, 0).unwrap();
    assert_eq!(state.boon_level, 5);
    assert_eq!(state.bonus_damage, 50);
    assert_eq!(state.bonus_fire_rate, 100);
    assert_eq!(state.bonus_ammo, 0);
    assert_eq!(state.bonus_falloff, 0)
}

#[test]
#[should_panic]
fn weapon_state_new_boon_panic() {
    let _state = WeaponState::new(-1, 10, 10, 10, 0).unwrap();
}

#[test]
fn weapon_default_current_damage() {
    let weapon = test_weapon();
    let state = WeaponState::default();
    assert!(weapon.current_damage(&state).same_value(&Frac::milli(10_000)));
}

#[test]
fn weapon_falloff_damage() {
    let weapon = test_weapon();
    let state = WeaponState::default();
    let m = weapon.falloff_damage(16_000, &state);
    assert!(m.same_value(&Frac { num: 7, den: 10 }));
}

#[test]
fn weapon_min_falloff() {
    let weapon = test_weapon();
    let state = WeaponState::default();
    let m = weapon.falloff_damage(5_000, &state);
    assert!(m.same_value(&Frac { num: 1, den: 1 }));
}

#[test]
fn weapon_max_falloff() {
    let weapon = test_weapon();
    let state = WeaponState::default();
    let m = weapon.falloff_damage(30_000, &state);
    assert!(m.same_value(&Frac { num: 1, den: 10 }))
}

#[test]
fn weapon_current_damage_bonus_damage() {
    let weapon = test_weapon();
    let state = WeaponState { bonus_damage: 50, ..WeaponState::default() };
    assert!(weapon.current_damage(&state).same_value(&Frac::milli(15_000)))
}

#[test]
fn weapon_current_damage_boon_level() {
    let weapon = test_weapon();
    let state = WeaponState { boon_level: 5, ..WeaponState::default() };
    assert!(weapon.current_damage(&state).same_value(&Frac::milli(12_500)))
}

#[test]
fn weapon_current_fire_rate() {
    let weapon = test_weapon();
    let state = WeaponState { bonus_fire_rate: 100, ..WeaponState::default() };
    assert!(weapon.current_fire_rate(&state).same_value(&Frac::milli(5_000)));
}

#[test]
fn weapon_negative_fire_rate() {
    let weapon = test_weapon();
    let state = WeaponState { bonus_fire_rate: -40, ..WeaponState::default() };
    assert!(weapon.current_fire_rate(&state).same_value(&Frac::milli(1_500)))
}

#[test]
fn weapon_dps_no_reload() {
    let weapon = test_weapon();
    let state = WeaponState {
        bonus_damage: 100,
        bonus_fire_rate: 100,
        boon_level: 10,
        ..WeaponState::default()
    };
    assert!(weapon.dps_no_reload(&state).same_value(&Frac::milli(150_000)))
}

#[test]
fn weapon_new_reports_every_bad_field() {
    let err = Weapon::new(-5_000, 0, 3_000, 4_000, 20, WeaponType::Auto, 12_000, 24_000)
        .unwrap_err();
    assert_eq!(err.fields, vec![StatField::BaseDamage, StatField::BoonDamage]);

    let err =
        Weapon::new(10_000, 500, 0, -1, 0, WeaponType::Auto, 12_000, 24_000).unwrap_err();
    assert_eq!(
        err.fields,
        vec![StatField::FireRate, StatField::ReloadTime, StatField::MagSize]
    );
}

#[test]
fn weapon_state_new_reports_every_bad_field() {
    let err = WeaponState::new(-1, 10, 10, 10, 0).unwrap_err();
    assert_eq!(err.fields, vec![StatField::BoonLevel]);

    let err = WeaponState::new(-1, 2_000_000, 10, 10, -2_000_000).unwrap_err();
    assert_eq!(
        err.fields,
        vec![StatField::BoonLevel, StatField::BonusDamage, StatField::BonusFalloff]
    );
}

#[test]
fn fire_rate_without_bonus_is_base() {
    let weapon = test_weapon();
    let state = WeaponState::default();
    assert!(weapon.current_fire_rate(&state).same_value(&Frac::milli(2_500)));
    let boosted = WeaponState { boon_level: 7, bonus_damage: 33, ..WeaponState::default() };
    assert!(weapon.current_fire_rate(&boosted).same_value(&Frac::milli(2_500)));
}

#[test]
fn dps_is_damage_times_fire_rate() {
    let weapon = test_weapon();
    let state = WeaponState {
        boon_level: 3,
        bonus_damage: 37,
        bonus_fire_rate: -21,
        ..WeaponState::default()
    };
    let damage = weapon.current_damage(&state);
    let rate = weapon.current_fire_rate(&state);
    let dps = weapon.dps_no_reload(&state);
    // dps == damage * rate, compared as exact fractions
    assert_eq!(dps.num * (damage.den * rate.den), (damage.num * rate.num) * dps.den);
}

#[test]
fn falloff_never_increases_with_distance() {
    let weapon = test_weapon();
    let state = WeaponState { bonus_falloff: 50, ..WeaponState::default() };
    let distances = [0i64, 5_000, 12_000, 17_999, 18_000, 18_001, 24_000, 35_999, 36_000, 40_000];
    for pair in distances.windows(2) {
        let near = weapon.falloff_damage(pair[0], &state);
        let far = weapon.falloff_damage(pair[1], &state);
        // near >= far as rational values
        assert!(near.num * far.den >= far.num * near.den);
    }
}

#[test]
fn falloff_is_continuous_at_both_bounds() {
    let weapon = test_weapon();
    let state = WeaponState::default();
    // exactly at the effective minimum: still full damage
    assert!(weapon.falloff_damage(12_000, &state).same_value(&Frac { num: 1, den: 1 }));
    // one step inside the window: barely below full damage
    let just_in = weapon.falloff_damage(12_001, &state);
    assert!(just_in.num * 1 < just_in.den);
    // exactly at the effective maximum: exactly the floor
    assert!(weapon.falloff_damage(24_000, &state).same_value(&Frac { num: 1, den: 10 }));
}

#[test]
fn falloff_window_scales_with_bonus() {
    let weapon = test_weapon();
    // +100% falloff range: window becomes [24m, 48m]
    let state = WeaponState { bonus_falloff: 100, ..WeaponState::default() };
    assert!(weapon.falloff_damage(20_000, &state).same_value(&Frac { num: 1, den: 1 }));
    assert!(weapon.falloff_damage(36_000, &state).same_value(&Frac { num: 11, den: 20 }));
    assert!(weapon.falloff_damage(50_000, &state).same_value(&Frac { num: 1, den: 10 }));
}
