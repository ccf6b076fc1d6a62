//! The weapon ballistics engine: immutable base stats (`Weapon`), a snapshot of
//! accumulated bonuses (`WeaponState`), and pure functions computing current
//! damage, fire rate, damage per second and range falloff.
//!
//! Stats that the game presents as fractional numbers are held in thousandths
//! (a base damage of ten units is stored as `10_000`).  Every computed result
//! is an exact fraction ([`Frac`]); the engine never rounds.

use vstd::prelude::*;

verus! {

/// Largest value, in thousandths, that a base weapon stat may take.
pub const STAT_MILLI_MAX: i64 = 1_000_000_000;

/// Largest magnitude that the boon level and the percentage bonuses of a
/// `WeaponState` may take.  Within this range every computation of the engine
/// fits comfortably in `i128`.
pub const BONUS_MAX: i32 = 1_000_000;

/// The weapon's firing archetype.  Durations and pellet counts are in
/// thousandths (of a second, of a pellet).
#[derive(Debug, PartialEq, Eq, Structural, Clone, Copy)]
pub enum WeaponType {
    Auto,
    Burst { burst_time: i64 },
    Shotgun { base_pellet: i64, pellet_boon: i64 },
}

/// Immutable base stats of a weapon.  All fractional stats are in thousandths;
/// `fire_rate` is in thousandths of a bullet per second, the falloff bounds in
/// thousandths of a meter.  Constructed once through [`Weapon::new`], which
/// rejects any stat outside `1..=STAT_MILLI_MAX` (and a non-positive magazine).
#[derive(Debug, Clone)]
pub struct Weapon {
    pub base_damage: i64,
    pub boon_damage: i64,
    pub fire_rate: i64,
    pub reload_time: i64,
    pub mag_size: i32,
    pub weapon_type: WeaponType,
    pub min_falloff: i64,
    pub max_falloff: i64,
}

/// The mutable snapshot of accumulated bonuses: an upgrade (boon) level and
/// percentage bonuses applied on top of a weapon's base stats.
#[derive(Debug, PartialEq, Eq, Structural, Clone, Copy)]
pub struct WeaponState {
    pub boon_level: i32,
    pub bonus_damage: i32,
    pub bonus_fire_rate: i32,
    pub bonus_ammo: i32,
    pub bonus_falloff: i32,
}

/// One base stat or bonus field of the ballistics engine, used to report
/// exactly which fields violate their range on construction.
#[derive(Debug, PartialEq, Eq, Structural, Clone, Copy)]
pub enum StatField {
    BaseDamage,
    BoonDamage,
    FireRate,
    ReloadTime,
    MagSize,
    MinFalloff,
    MaxFalloff,
    BoonLevel,
    BonusDamage,
    BonusFireRate,
    BonusFalloff,
}

/// Construction error of `Weapon` and `WeaponState`: names every offending
/// field, in declaration order, not just the first one found.
#[derive(Debug, Clone, PartialEq, Eq)]
pub struct InvalidStats {
    pub fields: Vec<StatField>,
}

impl Weapon {
    /// Range invariant established by `Weapon::new`: every base stat strictly
    /// positive, the fractional ones capped so that the engine's exact
    /// arithmetic cannot overflow.
    pub open spec fn wf(self) -> bool {
        &&& 1 <= self.base_damage <= STAT_MILLI_MAX
        &&& 1 <= self.boon_damage <= STAT_MILLI_MAX
        &&& 1 <= self.fire_rate <= STAT_MILLI_MAX
        &&& 1 <= self.reload_time <= STAT_MILLI_MAX
        &&& 1 <= self.mag_size
        &&& 1 <= self.min_falloff <= STAT_MILLI_MAX
        &&& 1 <= self.max_falloff <= STAT_MILLI_MAX
    }
}

impl WeaponState {
    /// Range invariant established by `WeaponState::new`: non-negative boon
    /// level, all bonuses within `BONUS_MAX` in magnitude.  `bonus_ammo` does
    /// not enter any computation and is unconstrained.
    pub open spec fn wf(self) -> bool {
        &&& 0 <= self.boon_level <= BONUS_MAX
        &&& -BONUS_MAX <= self.bonus_damage <= BONUS_MAX
        &&& -BONUS_MAX <= self.bonus_fire_rate <= BONUS_MAX
        &&& -BONUS_MAX <= self.bonus_falloff <= BONUS_MAX
    }
}

/// The fields of a prospective `Weapon` that violate their range, in
/// declaration order.
pub open spec fn weapon_bad_fields(
    base_damage: i64,
    boon_damage: i64,
    fire_rate: i64,
    reload_time: i64,
    mag_size: i32,
    start_falloff: i64,
    end_falloff: i64,
) -> Seq<StatField> {
    (if !(1 <= base_damage <= STAT_MILLI_MAX) {
        seq![StatField::BaseDamage]
    } else {
        Seq::<StatField>::empty()
    }) + (if !(1 <= boon_damage <= STAT_MILLI_MAX) {
        seq![StatField::BoonDamage]
    } else {
        Seq::<StatField>::empty()
    }) + (if !(1 <= fire_rate <= STAT_MILLI_MAX) {
        seq![StatField::FireRate]
    } else {
        Seq::<StatField>::empty()
    }) + (if !(1 <= reload_time <= STAT_MILLI_MAX) {
        seq![StatField::ReloadTime]
    } else {
        Seq::<StatField>::empty()
    }) + (if mag_size < 1 {
        seq![StatField::MagSize]
    } else {
        Seq::<StatField>::empty()
    }) + (if !(1 <= start_falloff <= STAT_MILLI_MAX) {
        seq![StatField::MinFalloff]
    } else {
        Seq::<StatField>::empty()
    }) + (if !(1 <= end_falloff <= STAT_MILLI_MAX) {
        seq![StatField::MaxFalloff]
    } else {
        Seq::<StatField>::empty()
    })
}

/// The fields of a prospective `WeaponState` that violate their range, in
/// declaration order.
pub open spec fn state_bad_fields(
    boon_level: i32,
    bonus_damage: i32,
    bonus_fire_rate: i32,
    bonus_falloff: i32,
) -> Seq<StatField> {
    (if !(0 <= boon_level <= BONUS_MAX) {
        seq![StatField::BoonLevel]
    } else {
        Seq::<StatField>::empty()
    }) + (if !(-BONUS_MAX <= bonus_damage <= BONUS_MAX) {
        seq![StatField::BonusDamage]
    } else {
        Seq::<StatField>::empty()
    }) + (if !(-BONUS_MAX <= bonus_fire_rate <= BONUS_MAX) {
        seq![StatField::BonusFireRate]
    } else {
        Seq::<StatField>::empty()
    }) + (if !(-BONUS_MAX <= bonus_falloff <= BONUS_MAX) {
        seq![StatField::BonusFalloff]
    } else {
        Seq::<StatField>::empty()
    })
}

impl WeaponState {
    /// A fresh snapshot with no boon level and no bonuses.
    pub fn default() -> (s: WeaponState)
        ensures
            s == (WeaponState {
                boon_level: 0,
                bonus_damage: 0,
                bonus_fire_rate: 0,
                bonus_ammo: 0,
                bonus_falloff: 0,
            }),
            s.wf(),
    {
        WeaponState { boon_level: 0, bonus_damage: 0, bonus_fire_rate: 0, bonus_ammo: 0, bonus_falloff: 0 }
    }

    /// Builds a snapshot, rejecting a negative boon level and any bonus beyond
    /// `BONUS_MAX` in magnitude; the error names every offending field.
    pub fn new(
        boon_level: i32,
        bonus_damage: i32,
        bonus_fire_rate: i32,
        bonus_ammo: i32,
        bonus_falloff: i32,
    ) -> (r: Result<WeaponState, InvalidStats>)
        ensures
            r is Ok <==> state_bad_fields(boon_level, bonus_damage, bonus_fire_rate, bonus_falloff).len() == 0,
            r matches Ok(s) ==> s == (WeaponState {
                boon_level,
                bonus_damage,
                bonus_fire_rate,
                bonus_ammo,
                bonus_falloff,
            }) && s.wf(),
            r matches Err(e) ==> e.fields@ == state_bad_fields(
                boon_level,
                bonus_damage,
                bonus_fire_rate,
                bonus_falloff,
            ),
    {
        let mut bad: Vec<StatField> = Vec::new();
        if boon_level < 0 || boon_level > BONUS_MAX {
            bad.push(StatField::BoonLevel);
        }
        if bonus_damage < -BONUS_MAX || bonus_damage > BONUS_MAX {
            bad.push(StatField::BonusDamage);
        }
        if bonus_fire_rate < -BONUS_MAX || bonus_fire_rate > BONUS_MAX {
            bad.push(StatField::BonusFireRate);
        }
        if bonus_falloff < -BONUS_MAX || bonus_falloff > BONUS_MAX {
            bad.push(StatField::BonusFalloff);
        }
        if bad.len() == 0 {
            proof {
                assert(state_bad_fields(boon_level, bonus_damage, bonus_fire_rate, bonus_falloff)
                    =~= Seq::<StatField>::empty());
            }
            Ok(WeaponState { boon_level, bonus_damage, bonus_fire_rate, bonus_ammo, bonus_falloff })
        } else {
            proof {
                assert(bad@ =~= state_bad_fields(boon_level, bonus_damage, bonus_fire_rate, bonus_falloff));
            }
            Err(InvalidStats { fields: bad })
        }
    }
}

impl Weapon {
    /// Builds a weapon from its base stats, rejecting any stat outside its
    /// range; the error names every offending field, so a data-entry mistake
    /// can be diagnosed in one pass.
    #[verifier::rlimit(50)]
    pub fn new(
        base_damage: i64,
        boon_damage: i64,
        fire_rate: i64,
        reload_time: i64,
        mag_size: i32,
        weapon_type: WeaponType,
        start_falloff: i64,
        end_falloff: i64,
    ) -> (r: Result<Weapon, InvalidStats>)
        ensures
            r is Ok <==> weapon_bad_fields(
                base_damage,
                boon_damage,
                fire_rate,
                reload_time,
                mag_size,
                start_falloff,
                end_falloff,
            ).len() == 0,
            r matches Ok(w) ==> w == (Weapon {
                base_damage,
                boon_damage,
                fire_rate,
                reload_time,
                mag_size,
                weapon_type,
                min_falloff: start_falloff,
                max_falloff: end_falloff,
            }) && w.wf(),
            r matches Err(e) ==> e.fields@ == weapon_bad_fields(
                base_damage,
                boon_damage,
                fire_rate,
                reload_time,
                mag_size,
                start_falloff,
                end_falloff,
            ),
    {
        let mut bad: Vec<StatField> = Vec::new();
        if base_damage < 1 || base_damage > STAT_MILLI_MAX {
            bad.push(StatField::BaseDamage);
        }
        if boon_damage < 1 || boon_damage > STAT_MILLI_MAX {
            bad.push(StatField::BoonDamage);
        }
        if fire_rate < 1 || fire_rate > STAT_MILLI_MAX {
            bad.push(StatField::FireRate);
        }
        if reload_time < 1 || reload_time > STAT_MILLI_MAX {
            bad.push(StatField::ReloadTime);
        }
        if mag_size < 1 {
            bad.push(StatField::MagSize);
        }
        if start_falloff < 1 || start_falloff > STAT_MILLI_MAX {
            bad.push(StatField::MinFalloff);
        }
        if end_falloff < 1 || end_falloff > STAT_MILLI_MAX {
            bad.push(StatField::MaxFalloff);
        }
        if bad.len() == 0 {
            proof {
                assert(weapon_bad_fields(
                    base_damage,
                    boon_damage,
                    fire_rate,
                    reload_time,
                    mag_size,
                    start_falloff,
                    end_falloff,
                ) =~= Seq::<StatField>::empty());
            }
            Ok(Weapon {
                base_damage,
                boon_damage,
                fire_rate,
                reload_time,
                mag_size,
                weapon_type,
                min_falloff: start_falloff,
                max_falloff: end_falloff,
            })
        } else {
            proof {
                assert(bad@ =~= weapon_bad_fields(
                    base_damage,
                    boon_damage,
                    fire_rate,
                    reload_time,
                    mag_size,
                    start_falloff,
                    end_falloff,
                ));
            }
            Err(InvalidStats { fields: bad })
        }
    }
}

/// An exact rational result of the ballistics engine.  Each engine function
/// fixes the denominator and computes the numerator exactly, so two results
/// can be compared without any rounding concern.
#[derive(Debug, PartialEq, Eq, Structural, Clone, Copy)]
pub struct Frac {
    pub num: i128,
    pub den: i128,
}

/// Bound within which `Frac::same_value` can form its cross products in `i128`.
pub const FRAC_CMP_MAX: i128 = 9_223_372_036_854_775_807;

/// Two numerator/denominator pairs with positive denominators name the same
/// rational value.
pub open spec fn same_ratio(a: (int, int), b: (int, int)) -> bool {
    a.0 * b.1 == b.0 * a.1
}

impl Frac {
    pub open spec fn wf(self) -> bool {
        self.den >= 1
    }

    /// The rational this fraction names, as a numerator/denominator pair.
    pub open spec fn ratio(self) -> (int, int) {
        (self.num as int, self.den as int)
    }

    /// The fraction `m / 1000`: a quantity given in thousandths.
    pub fn milli(m: i64) -> (r: Frac)
        ensures
            r.num == m,
            r.den == 1000,
            r.wf(),
    {
        Frac { num: m as i128, den: 1000 }
    }

    /// Whether two fractions name the same rational value.  The bounds keep
    /// the cross products representable in `i128`.
    pub fn same_value(&self, other: &Frac) -> (r: bool)
        requires
            self.wf(),
            other.wf(),
            -FRAC_CMP_MAX <= self.num <= FRAC_CMP_MAX,
            self.den <= FRAC_CMP_MAX,
            -FRAC_CMP_MAX <= other.num <= FRAC_CMP_MAX,
            other.den <= FRAC_CMP_MAX,
        ensures
            r == same_ratio(self.ratio(), other.ratio()),
    {
        proof {
            assert(-0x4000_0000_0000_0000_0000_0000_0000_0000i128 <= self.num * other.den
                <= 0x4000_0000_0000_0000_0000_0000_0000_0000i128) by (nonlinear_arith)
                requires
                    -9_223_372_036_854_775_807i128 <= self.num <= 9_223_372_036_854_775_807i128,
                    1 <= other.den <= 9_223_372_036_854_775_807i128,
            ;
            assert(-0x4000_0000_0000_0000_0000_0000_0000_0000i128 <= other.num * self.den
                <= 0x4000_0000_0000_0000_0000_0000_0000_0000i128) by (nonlinear_arith)
                requires
                    -9_223_372_036_854_775_807i128 <= other.num <= 9_223_372_036_854_775_807i128,
                    1 <= self.den <= 9_223_372_036_854_775_807i128,
            ;
        }
        self.num * other.den == other.num * self.den
    }
}

/// Numerator of the current damage over the denominator `100_000`:
/// `(base + level * boon) * (100 + bonus)`, base and boon in thousandths.
pub open spec fn damage_num(w: Weapon, s: WeaponState) -> int {
    (w.base_damage + w.boon_damage * s.boon_level) * (100 + s.bonus_damage)
}

/// Numerator of the current fire rate over the denominator `100_000`:
/// `rate * (100 + bonus)`, the rate in thousandths.
pub open spec fn fire_rate_num(w: Weapon, s: WeaponState) -> int {
    w.fire_rate * (100 + s.bonus_fire_rate)
}

/// Numerator of the damage per second (reload ignored) over the denominator
/// `10_000_000_000`.
pub open spec fn dps_num(w: Weapon, s: WeaponState) -> int {
    (w.base_damage + w.boon_damage * s.boon_level) * (100 + s.bonus_damage) * w.fire_rate * (100
        + s.bonus_fire_rate)
}

/// The effective minimum falloff distance, scaled: meters times `100_000`.
pub open spec fn eff_min_num(w: Weapon, s: WeaponState) -> int {
    w.min_falloff * (100 + s.bonus_falloff)
}

/// The effective maximum falloff distance, scaled: meters times `100_000`.
pub open spec fn eff_max_num(w: Weapon, s: WeaponState) -> int {
    w.max_falloff * (100 + s.bonus_falloff)
}

/// The falloff multiplier at `dist` (thousandths of a meter), as a
/// numerator/denominator pair: `1` below the effective window, `1/10` above
/// it, a linear ramp from `1` down to `1/10` inside it.  When the window is
/// degenerate the multiplier steps at that single distance, which itself
/// still gets full damage.
pub open spec fn falloff_frac(w: Weapon, s: WeaponState, dist: int) -> (int, int) {
    let lo = eff_min_num(w, s);
    let hi = eff_max_num(w, s);
    if 100 * dist < lo {
        (1, 1)
    } else if 100 * dist > hi {
        (1, 10)
    } else if lo == hi {
        (1, 1)
    } else {
        (10 * (hi - lo) - 9 * (100 * dist - lo), 10 * (hi - lo))
    }
}

impl Weapon {
    /// Current damage: `(base + boonLevel * boonDamage) * (1 + bonus/100)`,
    /// returned exactly as a fraction over `100_000`.
    pub fn current_damage(&self, state: &WeaponState) -> (r: Frac)
        requires
            self.wf(),
            state.wf(),
        ensures
            r.num == damage_num(*self, *state),
            r.den == 100_000,
            r.wf(),
    {
        proof {
            assert(0 <= (self.boon_damage as i128) * (state.boon_level as i128)
                <= 1_000_000_000_000_000i128) by (nonlinear_arith)
                requires
                    1 <= self.boon_damage <= 1_000_000_000,
                    0 <= state.boon_level <= 1_000_000,
            ;
        }
        let boon = (self.boon_damage as i128) * (state.boon_level as i128);
        let dmg = self.base_damage as i128 + boon;
        let factor = 100 + state.bonus_damage as i128;
        proof {
            assert(-4_000_000_000_000_000_000_000i128 <= dmg * factor
                <= 4_000_000_000_000_000_000_000i128) by (nonlinear_arith)
                requires
                    0 <= dmg <= 2_000_000_000_000_000i128,
                    -2_000_000 <= factor <= 2_000_000i128,
            ;
        }
        let num = dmg * factor;
        Frac { num, den: 100_000 }
    }

    /// Current fire rate: `rate * (1 + bonus/100)`, returned exactly as a
    /// fraction over `100_000`.  A negative bonus may push it to or below
    /// zero; no floor is applied, callers read a non-positive result as
    /// "cannot fire".
    pub fn current_fire_rate(&self, state: &WeaponState) -> (r: Frac)
        requires
            self.wf(),
            state.wf(),
        ensures
            r.num == fire_rate_num(*self, *state),
            r.den == 100_000,
            r.wf(),
    {
        let factor = 100 + state.bonus_fire_rate as i128;
        proof {
            assert(-2_000_000_000_000_000_000i128 <= (self.fire_rate as i128) * factor
                <= 2_000_000_000_000_000_000i128) by (nonlinear_arith)
                requires
                    1 <= self.fire_rate <= 1_000_000_000,
                    -2_000_000 <= factor <= 2_000_000i128,
            ;
        }
        let num = (self.fire_rate as i128) * factor;
        Frac { num, den: 100_000 }
    }

    /// Damage per second with a never-empty magazine: current damage times
    /// current fire rate, exactly, as a fraction over `10_000_000_000`.
    /// Reload downtime and magazine exhaustion are deliberately ignored.
    pub fn dps_no_reload(&self, state: &WeaponState) -> (r: Frac)
        requires
            self.wf(),
            state.wf(),
        ensures
            r.num == dps_num(*self, *state),
            r.den == 10_000_000_000,
            r.wf(),
    {
        proof {
            assert(0 <= (self.boon_damage as i128) * (state.boon_level as i128)
                <= 1_000_000_000_000_000i128) by (nonlinear_arith)
                requires
                    1 <= self.boon_damage <= 1_000_000_000,
                    0 <= state.boon_level <= 1_000_000,
            ;
        }
        let boon = (self.boon_damage as i128) * (state.boon_level as i128);
        let dmg = self.base_damage as i128 + boon;
        let pd = 100 + state.bonus_damage as i128;
        proof {
            assert(-4_000_000_000_000_000_000_000i128 <= dmg * pd
                <= 4_000_000_000_000_000_000_000i128) by (nonlinear_arith)
                requires
                    0 <= dmg <= 2_000_000_000_000_000i128,
                    -2_000_000 <= pd <= 2_000_000i128,
            ;
        }
        let a = dmg * pd;
        proof {
            assert(-4_000_000_000_000_000_000_000_000_000_000i128 <= a * (self.fire_rate as i128)
                <= 4_000_000_000_000_000_000_000_000_000_000i128) by (nonlinear_arith)
                requires
                    -4_000_000_000_000_000_000_000i128 <= a <= 4_000_000_000_000_000_000_000i128,
                    1 <= self.fire_rate <= 1_000_000_000,
            ;
        }
        let b = a * (self.fire_rate as i128);
        let pr = 100 + state.bonus_fire_rate as i128;
        proof {
            assert(-8_000_000_000_000_000_000_000_000_000_000_000_000i128 <= b * pr
                <= 8_000_000_000_000_000_000_000_000_000_000_000_000i128) by (nonlinear_arith)
                requires
                    -4_000_000_000_000_000_000_000_000_000_000i128 <= b
                        <= 4_000_000_000_000_000_000_000_000_000_000i128,
                    -2_000_000 <= pr <= 2_000_000i128,
            ;
        }
        let num = b * pr;
        Frac { num, den: 10_000_000_000 }
    }

    /// Falloff multiplier at `dist` thousandths of a meter: linear
    /// interpolation from `1` down to `1/10` across the effective window
    /// `[minFalloff, maxFalloff]`, both scaled by `(1 + bonusFalloff/100)`,
    /// exactly as [`falloff_frac`] states it.
    pub fn falloff_damage(&self, dist: i64, state: &WeaponState) -> (r: Frac)
        requires
            self.wf(),
            state.wf(),
        ensures
            r.num == falloff_frac(*self, *state, dist as int).0,
            r.den == falloff_frac(*self, *state, dist as int).1,
            r.wf(),
    {
        let factor = 100 + state.bonus_falloff as i128;
        proof {
            assert(-2_000_000_000_000_000_000i128 <= (self.min_falloff as i128) * factor
                <= 2_000_000_000_000_000_000i128) by (nonlinear_arith)
                requires
                    1 <= self.min_falloff <= 1_000_000_000,
                    -2_000_000 <= factor <= 2_000_000i128,
            ;
            assert(-2_000_000_000_000_000_000i128 <= (self.max_falloff as i128) * factor
                <= 2_000_000_000_000_000_000i128) by (nonlinear_arith)
                requires
                    1 <= self.max_falloff <= 1_000_000_000,
                    -2_000_000 <= factor <= 2_000_000i128,
            ;
        }
        let lo = (self.min_falloff as i128) * factor;
        let hi = (self.max_falloff as i128) * factor;
        let d = 100 * (dist as i128);
        if d < lo {
            Frac { num: 1, den: 1 }
        } else if d > hi {
            Frac { num: 1, den: 10 }
        } else if lo == hi {
            Frac { num: 1, den: 1 }
        } else {
            let range = hi - lo;
            let x = d - lo;
            Frac { num: 10 * range - 9 * x, den: 10 * range }
        }
    }
}

/// With no fire-rate bonus the current fire rate equals the base fire rate:
/// `fire_rate_num / 100_000` names the same rational as `fire_rate / 1000`.
pub proof fn lemma_fire_rate_no_bonus(w: Weapon, s: WeaponState)
    requires
        w.wf(),
        s.wf(),
        s.bonus_fire_rate == 0,
    ensures
        same_ratio((fire_rate_num(w, s), 100_000), (w.fire_rate as int, 1000)),
{
}

/// Damage per second is multiplicative-consistent: `dps_no_reload` names
/// exactly the product of `current_damage` and `current_fire_rate`.
pub proof fn lemma_dps_multiplicative(w: Weapon, s: WeaponState)
    requires
        w.wf(),
        s.wf(),
    ensures
        dps_num(w, s) == damage_num(w, s) * fire_rate_num(w, s),
        same_ratio(
            (dps_num(w, s), 10_000_000_000),
            (damage_num(w, s) * fire_rate_num(w, s), 100_000int * 100_000int),
        ),
{
    let b = w.base_damage + w.boon_damage * s.boon_level;
    let p = 100 + s.bonus_damage;
    let f = w.fire_rate as int;
    let q = 100 + s.bonus_fire_rate;
    assert(b * p * f * q == (b * p) * (f * q)) by (nonlinear_arith);
}

/// Below the effective minimum falloff distance the multiplier is exactly 1.
pub proof fn lemma_falloff_full_damage(w: Weapon, s: WeaponState, dist: int)
    requires
        w.wf(),
        s.wf(),
        100 * dist < eff_min_num(w, s),
    ensures
        same_ratio(falloff_frac(w, s, dist), (1, 1)),
{
}

/// Above the effective maximum falloff distance the multiplier is exactly
/// 1/10.  Asks for an ordered window: with an inverted one (effective minimum
/// above effective maximum) the function steps at the minimum instead.
pub proof fn lemma_falloff_floor(w: Weapon, s: WeaponState, dist: int)
    requires
        w.wf(),
        s.wf(),
        eff_min_num(w, s) <= eff_max_num(w, s),
        100 * dist > eff_max_num(w, s),
    ensures
        same_ratio(falloff_frac(w, s, dist), (1, 10)),
{
}

/// The falloff multiplier never increases with distance.
pub proof fn lemma_falloff_non_increasing(w: Weapon, s: WeaponState, d1: int, d2: int)
    requires
        w.wf(),
        s.wf(),
        d1 <= d2,
    ensures
        ({
            let a = falloff_frac(w, s, d1);
            let b = falloff_frac(w, s, d2);
            a.0 * b.1 >= b.0 * a.1
        }),
{
    let lo = eff_min_num(w, s);
    let hi = eff_max_num(w, s);
    let a = falloff_frac(w, s, d1);
    let b = falloff_frac(w, s, d2);
    if 100 * d2 < lo {
        assert(a == (1int, 1int));
        assert(b == (1int, 1int));
    } else if 100 * d2 > hi {
        assert(b == (1int, 10int));
        if 100 * d1 < lo {
            assert(a == (1int, 1int));
        } else if 100 * d1 > hi {
            assert(a == (1int, 10int));
        } else if lo == hi {
            assert(a == (1int, 1int));
        } else {
            let r = hi - lo;
            let x1 = 100 * d1 - lo;
            assert(a == (10 * r - 9 * x1, 10 * r));
            assert(0 <= x1 <= r);
            assert((10 * r - 9 * x1) * 10 >= 1 * (10 * r));
        }
    } else if lo == hi {
        assert(b == (1int, 1int));
        assert(a == (1int, 1int));
    } else {
        let r = hi - lo;
        let x2 = 100 * d2 - lo;
        assert(b == (10 * r - 9 * x2, 10 * r));
        if 100 * d1 < lo {
            assert(a == (1int, 1int));
            assert(1 * (10 * r) >= (10 * r - 9 * x2) * 1);
        } else {
            let x1 = 100 * d1 - lo;
            assert(a == (10 * r - 9 * x1, 10 * r));
            assert((10 * r - 9 * x1) * (10 * r) >= (10 * r - 9 * x2) * (10 * r)) by (nonlinear_arith)
                requires
                    x1 <= x2,
                    r > 0,
            ;
        }
    }
}

/// The ramp is continuous at both window boundaries: at the effective minimum
/// the multiplier is exactly 1, at the effective maximum exactly 1/10 (unless
/// the window is degenerate, where the step point keeps full damage).
pub proof fn lemma_falloff_continuous_at_bounds(w: Weapon, s: WeaponState, dist: int)
    requires
        w.wf(),
        s.wf(),
        eff_min_num(w, s) <= eff_max_num(w, s),
    ensures
        100 * dist == eff_min_num(w, s) ==> same_ratio(falloff_frac(w, s, dist), (1, 1)),
        100 * dist == eff_max_num(w, s) && eff_min_num(w, s) < eff_max_num(w, s) ==> same_ratio(
            falloff_frac(w, s, dist),
            (1, 10),
        ),
{
    let lo = eff_min_num(w, s);
    let hi = eff_max_num(w, s);
    if 100 * dist == lo && lo != hi {
        let r = hi - lo;
        assert(falloff_frac(w, s, dist) == (10 * r, 10 * r));
    }
    if 100 * dist == hi && lo < hi {
        let r = hi - lo;
        assert(falloff_frac(w, s, dist) == (10 * r - 9 * r, 10 * r));
    }
}

} // verus!
