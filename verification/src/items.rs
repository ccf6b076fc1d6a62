//! The typed conditional stat modifiers, the finished `Item`, and the builder
//! that assembles an item from a validated record: each modifier-attachment
//! step independently fails if its own mandatory source fields are absent,
//! and no partial item is ever returned.

use vstd::prelude::*;
use crate::distance::{is_milli_decimal, meter_str_to_milli, milli_val};
use crate::errors::ItemError;
use crate::record::{ItemMap, ParsedItem};

verus! {

/// The stat slot a modifier affects.
#[derive(Debug, PartialEq, Eq, Structural, Clone, Copy)]
pub enum StatType {
    MeleeRes,
    WepDamage,
}

/// A numeric effect value: an integer, or a fractional number carried in
/// thousandths, preserving the source data's precision.
#[derive(Debug, PartialEq, Eq, Structural, Clone, Copy)]
pub enum ValueType {
    Int(i32),
    Milli(i64),
}

/// When a modifier applies: always, or only within a distance given in
/// thousandths of a meter.  Evaluated by the consumer at use time.
#[derive(Debug, PartialEq, Eq, Structural, Clone, Copy)]
pub enum Condition {
    Always,
    DistanceLessThan(i64),
}

/// One typed, conditionally active stat effect, immutable once constructed.
#[derive(Debug, PartialEq, Eq, Structural, Clone, Copy)]
pub struct StatModifier {
    pub stat: StatType,
    pub val: ValueType,
    pub cond: Condition,
}

/// The mandatory display and economy fields every finished item carries.
#[derive(Debug, Clone)]
pub struct ItemCore {
    pub name: String,
    pub desc: String,
    pub cost: i32,
    pub tier: i32,
    pub activation: String,
    pub slot: String,
}

/// A finished catalog item: its core fields plus its modifiers, in the order
/// they were attached.
#[derive(Debug, Clone)]
pub struct Item {
    pub core: ItemCore,
    pub modifiers: Vec<StatModifier>,
}

/// Projects a mandatory field out of an optional, failing with the field and
/// item names when it is absent; no silent default.
pub fn require_field<T>(value: Option<T>, field: &str, item: &str) -> (r: Result<T, ItemError>)
    ensures
        r is Ok <==> value is Some,
        r matches Ok(v) ==> v == value.unwrap(),
        r matches Err(e) ==> e matches ItemError::MissingField { field: f, item: it } && f@
            == field@ && it@ == item@,
{
    match value {
        Some(v) => Ok(v),
        None => Err(
            ItemError::MissingField { field: field.to_owned(), item: item.to_owned() },
        ),
    }
}

/// The label of the first missing core field, in the order they are required.
pub open spec fn missing_core_label(p: ParsedItem) -> Seq<char> {
    if p.name is None {
        "Name"@
    } else if p.description is None {
        "Description"@
    } else if p.cost is None {
        "Cost"@
    } else if p.tier is None {
        "Tier"@
    } else if p.activation is None {
        "Activation"@
    } else {
        "Slot"@
    }
}

/// All six mandatory core fields are present on the record.
pub open spec fn core_present(p: ParsedItem) -> bool {
    &&& p.name is Some
    &&& p.description is Some
    &&& p.cost is Some
    &&& p.tier is Some
    &&& p.activation is Some
    &&& p.slot is Some
}

/// The core carries the record's mandatory fields verbatim.
pub open spec fn core_matches(p: ParsedItem, c: ItemCore) -> bool {
    &&& c.name@ == p.name.unwrap()@
    &&& c.desc@ == p.description.unwrap()@
    &&& c.cost == p.cost.unwrap()
    &&& c.tier == p.tier.unwrap()
    &&& c.activation@ == p.activation.unwrap()@
    &&& c.slot@ == p.slot.unwrap()@
}

impl Item {
    /// Assembles an item from a record: every core field is mandatory and is
    /// taken over verbatim; the first missing one (in the order name,
    /// description, cost, tier, activation, slot) fails the construction,
    /// reported against the given item name.
    pub fn new(name: &str, parsed: &ParsedItem, modifiers: Vec<StatModifier>) -> (r: Result<
        Item,
        ItemError,
    >)
        ensures
            r is Ok <==> core_present(*parsed),
            r matches Ok(item) ==> core_matches(*parsed, item.core) && item.modifiers
                == modifiers,
            r matches Err(e) ==> e matches ItemError::MissingField { field, item } && field@
                == missing_core_label(*parsed) && item@ == name@,
    {
        let core_name = match require_field(parsed.name.as_ref(), "Name", name) {
            Ok(v) => v.clone(),
            Err(e) => {
                return Err(e);
            },
        };
        let desc = match require_field(parsed.description.as_ref(), "Description", name) {
            Ok(v) => v.clone(),
            Err(e) => {
                return Err(e);
            },
        };
        let cost = match require_field(parsed.cost, "Cost", name) {
            Ok(v) => v,
            Err(e) => {
                return Err(e);
            },
        };
        let tier = match require_field(parsed.tier, "Tier", name) {
            Ok(v) => v,
            Err(e) => {
                return Err(e);
            },
        };
        let activation = match require_field(parsed.activation.as_ref(), "Activation", name) {
            Ok(v) => v.clone(),
            Err(e) => {
                return Err(e);
            },
        };
        let slot = match require_field(parsed.slot.as_ref(), "Slot", name) {
            Ok(v) => v.clone(),
            Err(e) => {
                return Err(e);
            },
        };
        Ok(
            Item {
                core: ItemCore { name: core_name, desc, cost, tier, activation, slot },
                modifiers,
            },
        )
    }
}

/// Builds one item as a composition of independent modifier-attachment steps
/// over a looked-up record, finished by one `build` call that does no further
/// lookup.
pub struct ItemBuilder<'a> {
    pub name: &'a str,
    pub parsed: &'a ParsedItem,
    pub modifiers: Vec<StatModifier>,
}

impl<'a> ItemBuilder<'a> {
    /// Starts a build for the named item, failing if the catalog lacks it.
    pub fn new(name: &'a str, items: &'a ItemMap) -> (r: Result<ItemBuilder<'a>, ItemError>)
        requires
            items.wf(),
        ensures
            r is Ok <==> items@.contains_key(name@),
            r matches Ok(b) ==> b.name@ == name@ && *b.parsed == items@[name@] && b.modifiers@
                == Seq::<StatModifier>::empty(),
            r matches Err(e) ==> e matches ItemError::MissingItem { name: n } && n@ == name@,
    {
        match items.get(name) {
            Some(parsed) => Ok(ItemBuilder { name, parsed, modifiers: Vec::new() }),
            None => Err(ItemError::MissingItem { name: name.to_owned() }),
        }
    }

    /// Appends one modifier, keeping attachment order.
    pub fn add_modifier(self, modifier: StatModifier) -> (r: ItemBuilder<'a>)
        ensures
            r.name@ == self.name@,
            r.parsed == self.parsed,
            r.modifiers@ == self.modifiers@.push(modifier),
    {
        let mut modifiers = self.modifiers;
        modifiers.push(modifier);
        ItemBuilder { name: self.name, parsed: self.parsed, modifiers }
    }

    /// Attaches an unconditional melee-resist modifier; the record's
    /// melee-resist field is mandatory for this step.
    pub fn with_melee_resist(self) -> (r: Result<ItemBuilder<'a>, ItemError>)
        ensures
            r is Ok <==> self.parsed.melee_resist is Some,
            r matches Ok(b) ==> b.name@ == self.name@ && b.parsed == self.parsed && b.modifiers@
                == self.modifiers@.push(melee_resist_modifier(*self.parsed)),
            r matches Err(e) ==> e matches ItemError::MissingField { field, item } && field@
                == "Melee Resist"@ && item@ == self.name@,
    {
        let val = match require_field(self.parsed.melee_resist, "Melee Resist", self.name) {
            Ok(v) => v,
            Err(e) => {
                return Err(e);
            },
        };
        Ok(
            self.add_modifier(
                StatModifier {
                    stat: StatType::MeleeRes,
                    val: ValueType::Int(val),
                    cond: Condition::Always,
                },
            ),
        )
    }

    /// Attaches a close-range bonus weapon damage modifier: the bonus power
    /// and the distance string are both mandatory, and the distance must
    /// parse (unit suffix stripped, at most thousandth precision).
    pub fn with_close_range_weapon_damage(self) -> (r: Result<ItemBuilder<'a>, ItemError>)
        ensures
            r is Ok <==> (self.parsed.close_range_bonus_weapon_power is Some
                && self.parsed.close_range_bonus_damage_range is Some && dist_parses(
                self.parsed.close_range_bonus_damage_range.unwrap()@,
            )),
            r matches Ok(b) ==> b.name@ == self.name@ && b.parsed == self.parsed && b.modifiers@
                == self.modifiers@.push(close_range_modifier(*self.parsed)),
            r matches Err(e) ==> ({
                if self.parsed.close_range_bonus_weapon_power is None {
                    e matches ItemError::MissingField { field, item } && field@
                        == "Close range weapon damage bonus"@ && item@ == self.name@
                } else if self.parsed.close_range_bonus_damage_range is None {
                    e matches ItemError::MissingField { field, item } && field@
                        == "Close range bonus damage distance"@ && item@ == self.name@
                } else {
                    e matches ItemError::MalformedDistance { text } && text@
                        == self.parsed.close_range_bonus_damage_range.unwrap()@
                }
            }),
    {
        let val = match require_field(
            self.parsed.close_range_bonus_weapon_power,
            "Close range weapon damage bonus",
            self.name,
        ) {
            Ok(v) => v,
            Err(e) => {
                return Err(e);
            },
        };
        let dist_str = match require_field(
            self.parsed.close_range_bonus_damage_range.as_ref(),
            "Close range bonus damage distance",
            self.name,
        ) {
            Ok(v) => v,
            Err(e) => {
                return Err(e);
            },
        };
        let dist = match meter_str_to_milli(dist_str.as_str()) {
            Ok(d) => d,
            Err(e) => {
                return Err(e);
            },
        };
        Ok(
            self.add_modifier(
                StatModifier {
                    stat: StatType::WepDamage,
                    val: ValueType::Int(val),
                    cond: Condition::DistanceLessThan(dist),
                },
            ),
        )
    }

    /// Finishes the build: projects every mandatory core field into an
    /// immutable item carrying the attached modifiers.
    pub fn build(self) -> (r: Result<Item, ItemError>)
        ensures
            r is Ok <==> core_present(*self.parsed),
            r matches Ok(item) ==> core_matches(*self.parsed, item.core) && item.modifiers@
                == self.modifiers@,
            r matches Err(e) ==> e matches ItemError::MissingField { field, item } && field@
                == missing_core_label(*self.parsed) && item@ == self.name@,
    {
        Item::new(self.name, self.parsed, self.modifiers)
    }
}

/// The distance string parses after its unit suffix is stripped.
pub open spec fn dist_parses(s: Seq<char>) -> bool {
    s.len() >= 1 && is_milli_decimal(s.take(s.len() - 1))
}

/// The thousandths of a meter a distance string names.
pub open spec fn dist_milli(s: Seq<char>) -> int {
    milli_val(s.take(s.len() - 1))
}

/// The melee-resist modifier a record yields.
pub open spec fn melee_resist_modifier(p: ParsedItem) -> StatModifier {
    StatModifier {
        stat: StatType::MeleeRes,
        val: ValueType::Int(p.melee_resist.unwrap()),
        cond: Condition::Always,
    }
}

/// The close-range bonus weapon damage modifier a record yields.
pub open spec fn close_range_modifier(p: ParsedItem) -> StatModifier {
    StatModifier {
        stat: StatType::WepDamage,
        val: ValueType::Int(p.close_range_bonus_weapon_power.unwrap()),
        cond: Condition::DistanceLessThan(
            dist_milli(p.close_range_bonus_damage_range.unwrap()@) as i64,
        ),
    }
}

/// Everything the "Close Quarters" item needs from its record.
pub open spec fn cq_ready(p: ParsedItem) -> bool {
    &&& p.melee_resist is Some
    &&& p.close_range_bonus_weapon_power is Some
    &&& p.close_range_bonus_damage_range is Some
    &&& dist_parses(p.close_range_bonus_damage_range.unwrap()@)
    &&& core_present(p)
}

/// The modifiers "Close Quarters" carries: melee resist, then close-range
/// bonus weapon damage.
pub open spec fn cq_modifiers(p: ParsedItem) -> Seq<StatModifier> {
    seq![melee_resist_modifier(p), close_range_modifier(p)]
}

/// Builds the "Close Quarters" weapon item from the catalog: an unconditional
/// melee-resist modifier and a distance-gated bonus weapon damage modifier on
/// top of the mandatory core fields.
pub fn build_close_quarters(items: &ItemMap) -> (r: Result<Item, ItemError>)
    requires
        items.wf(),
    ensures
        r is Ok <==> (items@.contains_key("Close Quarters"@) && cq_ready(
            items@["Close Quarters"@],
        )),
        r matches Ok(item) ==> core_matches(items@["Close Quarters"@], item.core)
            && item.modifiers@ == cq_modifiers(items@["Close Quarters"@]),
        r matches Err(e) ==> ({
            let key = "Close Quarters"@;
            if !items@.contains_key(key) {
                e matches ItemError::MissingItem { name } && name@ == key
            } else {
                let p = items@[key];
                if p.melee_resist is None {
                    e matches ItemError::MissingField { field, item } && field@ == "Melee Resist"@
                        && item@ == key
                } else if p.close_range_bonus_weapon_power is None {
                    e matches ItemError::MissingField { field, item } && field@
                        == "Close range weapon damage bonus"@ && item@ == key
                } else if p.close_range_bonus_damage_range is None {
                    e matches ItemError::MissingField { field, item } && field@
                        == "Close range bonus damage distance"@ && item@ == key
                } else if !dist_parses(p.close_range_bonus_damage_range.unwrap()@) {
                    e matches ItemError::MalformedDistance { text } && text@
                        == p.close_range_bonus_damage_range.unwrap()@
                } else {
                    e matches ItemError::MissingField { field, item } && field@
                        == missing_core_label(p) && item@ == key
                }
            }
        }),
{
    let builder = match ItemBuilder::new("Close Quarters", items) {
        Ok(b) => b,
        Err(e) => {
            return Err(e);
        },
    };
    let builder = match builder.with_melee_resist() {
        Ok(b) => b,
        Err(e) => {
            return Err(e);
        },
    };
    let builder = match builder.with_close_range_weapon_damage() {
        Ok(b) => b,
        Err(e) => {
            return Err(e);
        },
    };
    builder.build()
}

} // verus!
