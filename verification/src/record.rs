//! Raw item records as the deserialization collaborator hands them over, the
//! catalog map that holds them, and the validity filter that keeps only
//! usable records, keyed by lowercased name.

use vstd::prelude::*;
use crate::errors::ItemError;
use crate::text::{lower_of, lowercase, str_equal};

verus! {

/// A raw item record.  Every field is optional because the source data is
/// heterogeneous per item category; a category not using a field is expected,
/// not an error.  Fractional source values (cooldowns, distances) are in
/// thousandths; distances may instead arrive as a string with a unit suffix.
#[derive(Debug, Clone)]
pub struct ParsedItem {
    pub name: Option<String>,
    pub description: Option<String>,
    pub cost: Option<i32>,
    pub tier: Option<i32>,
    pub activation: Option<String>,
    pub slot: Option<String>,
    pub components: Option<Vec<String>>,
    pub is_disabled: Option<bool>,
    pub ability_cooldown: Option<i64>,
    pub bonus_health: Option<i32>,
    pub bullet_resist: Option<i32>,
    pub bonus_fire_rate: Option<i32>,
    pub melee_resist: Option<i32>,
    pub close_range_bonus_weapon_power: Option<i32>,
    pub close_range_bonus_damage_range: Option<String>,
}

/// The map an entry sequence folds to: later entries overwrite earlier ones
/// with the same key.
pub open spec fn map_of(s: Seq<(String, ParsedItem)>) -> Map<Seq<char>, ParsedItem>
    decreases s.len(),
{
    if s.len() == 0 {
        Map::empty()
    } else {
        map_of(s.drop_last()).insert(s.last().0@, s.last().1)
    }
}

/// No two entries of `s` share a key.
pub open spec fn distinct_keys(s: Seq<(String, ParsedItem)>) -> bool {
    forall|i: int, j: int| 0 <= i < j < s.len() ==> s[i].0@ != s[j].0@
}

/// A catalog of raw records: a string-keyed map kept as a vector of entries
/// with unique keys, in insertion order.
#[derive(Debug, Clone)]
pub struct ItemMap {
    entries: Vec<(String, ParsedItem)>,
}

impl View for ItemMap {
    type V = Map<Seq<char>, ParsedItem>;

    open spec fn view(&self) -> Map<Seq<char>, ParsedItem> {
        map_of(self.entry_seq())
    }
}

impl ItemMap {
    /// The entries in insertion order.
    pub closed spec fn entry_seq(&self) -> Seq<(String, ParsedItem)> {
        self.entries@
    }

    /// Internal well-formedness: entry keys are unique.  Established by
    /// `new`, preserved by `insert`.
    pub open spec fn wf(&self) -> bool {
        distinct_keys(self.entry_seq())
    }

    /// An empty catalog.
    pub fn new() -> (r: ItemMap)
        ensures
            r.entry_seq() == Seq::<(String, ParsedItem)>::empty(),
            r@ == Map::<Seq<char>, ParsedItem>::empty(),
            r.wf(),
    {
        ItemMap { entries: Vec::new() }
    }

    /// Looks a record up by its exact key.
    pub fn get(&self, key: &str) -> (r: Option<&ParsedItem>)
        requires
            self.wf(),
        ensures
            r is Some <==> self@.contains_key(key@),
            r matches Some(rec) ==> self@.contains_key(key@) && *rec == self@[key@],
    {
        let n = self.entries.len();
        let mut i: usize = 0;
        while i < n
            invariant
                0 <= i <= n,
                n == self.entries@.len(),
                distinct_keys(self.entries@),
                forall|j: int| 0 <= j < i ==> self.entries@[j].0@ != key@,
            decreases n - i,
        {
            if str_equal(self.entries[i].0.as_str(), key) {
                proof {
                    lemma_map_of_found(self.entries@, i as int);
                }
                return Some(&self.entries[i].1);
            }
            i = i + 1;
        }
        proof {
            lemma_map_of_absent(self.entries@, key@);
        }
        None
    }

    /// Inserts a record under a key; an entry already under that key is
    /// silently overwritten.
    pub fn insert(&mut self, key: String, value: ParsedItem)
        requires
            old(self).wf(),
        ensures
            final(self).wf(),
            final(self)@ == old(self)@.insert(key@, value),
            !old(self)@.contains_key(key@) ==> final(self).entry_seq() == old(
                self,
            ).entry_seq().push((key, value)),
            old(self)@.contains_key(key@) ==> exists|i: int|
                0 <= i < old(self).entry_seq().len() && old(self).entry_seq()[i].0@ == key@
                    && final(self).entry_seq() == old(self).entry_seq().update(i, (key, value)),
    {
        let ghost orig = old(self).entries@;
        let n = self.entries.len();
        let mut i: usize = 0;
        while i < n
            invariant
                0 <= i <= n,
                n == self.entries@.len(),
                self.entries@ == orig,
                orig == old(self).entry_seq(),
                distinct_keys(orig),
                forall|j: int| 0 <= j < i ==> orig[j].0@ != key@,
            decreases n - i,
        {
            if str_equal(self.entries[i].0.as_str(), key.as_str()) {
                proof {
                    lemma_map_of_found(orig, i as int);
                }
                let _ = self.entries.remove(i);
                self.entries.insert(i, (key, value));
                proof {
                    assert(self.entries@ =~= orig.update(i as int, (key, value)));
                    lemma_map_of_update(orig, i as int, key, value);
                    assert((i as int) < orig.len() && orig[i as int].0@ == key@
                        && self.entries@ == orig.update(i as int, (key, value)));
                    assert(distinct_keys(self.entries@));
                }
                return ;
            }
            i = i + 1;
        }
        self.entries.push((key, value));
        proof {
            lemma_map_of_absent(orig, key@);
            assert(self.entries@.drop_last() =~= orig);
            assert(distinct_keys(self.entries@));
        }
    }
}

/// An entry's key is in the fold of its sequence, mapped to its record, as
/// long as no later entry shares the key.
proof fn lemma_map_of_found(s: Seq<(String, ParsedItem)>, i: int)
    requires
        0 <= i < s.len(),
        forall|j: int| i < j < s.len() ==> s[j].0@ != s[i].0@,
    ensures
        map_of(s).contains_key(s[i].0@),
        map_of(s)[s[i].0@] == s[i].1,
    decreases s.len(),
{
    if i == s.len() - 1 {
    } else {
        assert(s.drop_last()[i] == s[i]);
        lemma_map_of_found(s.drop_last(), i);
    }
}

/// A key no entry carries is not in the fold.
proof fn lemma_map_of_absent(s: Seq<(String, ParsedItem)>, k: Seq<char>)
    requires
        forall|i: int| 0 <= i < s.len() ==> s[i].0@ != k,
    ensures
        !map_of(s).contains_key(k),
    decreases s.len(),
{
    if s.len() > 0 {
        lemma_map_of_absent(s.drop_last(), k);
    }
}

/// Replacing the entry that holds a key folds to the same map as inserting
/// over it.
proof fn lemma_map_of_update(s: Seq<(String, ParsedItem)>, i: int, key: String, value: ParsedItem)
    requires
        0 <= i < s.len(),
        distinct_keys(s),
        s[i].0@ == key@,
    ensures
        map_of(s.update(i, (key, value))) =~= map_of(s).insert(key@, value),
    decreases s.len(),
{
    let t = s.update(i, (key, value));
    if i == s.len() - 1 {
        assert(t.drop_last() =~= s.drop_last());
        assert(t.last() == (key, value));
    } else {
        assert(t.drop_last() =~= s.drop_last().update(i, (key, value)));
        assert(t.last() == s.last());
        assert(forall|p: int, q: int|
            0 <= p < q < s.drop_last().len() ==> s.drop_last()[p].0@ != s.drop_last()[q].0@);
        lemma_map_of_update(s.drop_last(), i, key, value);
        assert(s.last().0@ != key@);
    }
}

/// Whether a record is usable: it has a name and its disabled flag is present
/// and false.  A record without the flag is malformed source data — an error,
/// not a silently included or excluded record.
pub fn valid_item(item: &ParsedItem) -> (r: Result<bool, ItemError>)
    ensures
        r is Ok <==> item.is_disabled is Some,
        r matches Ok(v) ==> v == (item.name is Some && item.is_disabled == Some(false)),
        r matches Err(e) ==> e == ItemError::MissingDisabledFlag,
{
    match &item.is_disabled {
        None => Err(ItemError::MissingDisabledFlag),
        Some(disabled) => Ok(item.name.is_some() && !*disabled),
    }
}

/// Every record of `s` carries its disabled flag.
pub open spec fn flags_present(s: Seq<(String, ParsedItem)>) -> bool {
    forall|i: int| 0 <= i < s.len() ==> s[i].1.is_disabled is Some
}

/// The filtered catalog `s` folds to: every valid record, keyed by its
/// lowercased name; a later record silently overwrites an earlier one with
/// the same key.
pub open spec fn valid_fold(s: Seq<(String, ParsedItem)>) -> Map<Seq<char>, ParsedItem>
    decreases s.len(),
{
    if s.len() == 0 {
        Map::empty()
    } else {
        let m = valid_fold(s.drop_last());
        let rec = s.last().1;
        if rec.name is Some && rec.is_disabled == Some(false) {
            m.insert(lower_of(rec.name.unwrap()@), rec)
        } else {
            m
        }
    }
}

/// Every record the filtered catalog holds is valid: it has a name and its
/// disabled flag is present and false — an invalid record is excluded
/// regardless of its other fields.
pub proof fn lemma_valid_fold_keeps_only_valid(s: Seq<(String, ParsedItem)>, k: Seq<char>)
    requires
        valid_fold(s).contains_key(k),
    ensures
        valid_fold(s)[k].name is Some,
        valid_fold(s)[k].is_disabled == Some(false),
    decreases s.len(),
{
    if s.len() > 0 {
        let rec = s.last().1;
        if rec.name is Some && rec.is_disabled == Some(false) {
            if k != lower_of(rec.name.unwrap()@) {
                lemma_valid_fold_keeps_only_valid(s.drop_last(), k);
            }
        } else {
            lemma_valid_fold_keeps_only_valid(s.drop_last(), k);
        }
    }
}

/// A valid record's lowercased name is a key of the filtered catalog.
pub proof fn lemma_valid_fold_keeps_valid_names(s: Seq<(String, ParsedItem)>, i: int)
    requires
        0 <= i < s.len(),
        s[i].1.name is Some,
        s[i].1.is_disabled == Some(false),
    ensures
        valid_fold(s).contains_key(lower_of(s[i].1.name.unwrap()@)),
    decreases s.len(),
{
    if i < s.len() - 1 {
        assert(s.drop_last()[i] == s[i]);
        lemma_valid_fold_keeps_valid_names(s.drop_last(), i);
    }
}

/// Filters a catalog to its valid records, re-keyed by lowercased name, in
/// insertion order.  A record missing its disabled flag makes the whole load
/// fail: that is malformed data, not a record to skip.
pub fn valid_items(items: ItemMap) -> (r: Result<ItemMap, ItemError>)
    ensures
        r is Ok <==> flags_present(items.entry_seq()),
        r matches Ok(m) ==> m@ == valid_fold(items.entry_seq()) && m.wf(),
        r matches Err(e) ==> e == ItemError::MissingDisabledFlag,
{
    let ghost orig = items.entry_seq();
    let mut map = items;
    let mut out = ItemMap::new();
    let mut done: usize = 0;
    let total = map.entries.len();
    while done < total
        invariant
            0 <= done <= total,
            total == orig.len(),
            orig == items.entry_seq(),
            map.entries@ =~= orig.skip(done as int),
            out@ == valid_fold(orig.take(done as int)),
            out.wf(),
            flags_present(orig.take(done as int)),
        decreases total - done,
    {
        let (_source_key, rec) = map.entries.remove(0);
        proof {
            assert(orig.skip(done as int)[0] == orig[done as int]);
            assert(orig.skip(done as int).remove(0) =~= orig.skip(done as int + 1));
        }
        let keep: bool = match &rec.is_disabled {
            None => {
                proof {
                    assert(rec == orig[done as int].1);
                    assert(!flags_present(orig));
                }
                return Err(ItemError::MissingDisabledFlag);
            },
            Some(disabled) => rec.name.is_some() && !*disabled,
        };
        proof {
            assert(orig.take(done as int + 1).drop_last() =~= orig.take(done as int));
            assert(orig.take(done as int + 1).last() == orig[done as int]);
        }
        if keep {
            let lowered = match &rec.name {
                Some(n) => lowercase(n.as_str()),
                None => unreached(),
            };
            out.insert(lowered, rec);
        }
        done = done + 1;
    }
    proof {
        assert(orig.take(total as int) =~= orig);
    }
    Ok(out)
}

} // verus!
