//! Removal of Paneru's entries from the macOS Control Center preferences.
//!
//! The Control Center keeps, under the key `trackedApplications`, a nested
//! property list (stored as data, or as base64 text) whose top level is an
//! array of tracked menu-bar items. Items that mention Paneru are removed, and
//! Paneru's entries are removed from the `menuItemLocations` array of the
//! items that remain.

use vstd::prelude::*;
use base64::Engine;
use crate::text::{contains_text, lowercase, str_contains, str_equal, to_lowercase};

verus! {

/// A property-list value of the `plist` crate, carried through unread.
#[verifier::external_type_specification]
#[verifier::external_body]
pub struct ExPlistValue(plist::Value);

/// The error type of the `plist` crate.
#[verifier::external_type_specification]
#[verifier::external_body]
pub struct ExPlistError(plist::Error);

/// A property-list value, holding as plain values what the clean-up reads:
/// arrays, dictionaries (their entries in order, as the `plist` crate keeps
/// them), data and strings. Any other value (booleans, numbers, dates, uids)
/// is carried as the `plist` crate's value.
#[derive(Debug, PartialEq)]
pub enum PlistValue {
    Array(Vec<PlistValue>),
    Dictionary(Vec<(String, PlistValue)>),
    Data(Vec<u8>),
    String(String),
    Other(plist::Value),
}

/// No two entries have the same key, as in the `plist` crate's
/// dictionaries.
pub open spec fn distinct_keys(entries: Seq<(String, PlistValue)>) -> bool {
    forall|i: int, j: int| 0 <= i < j < entries.len() ==> entries[i].0@ != entries[j].0@
}

/// Every dictionary in the value, at any depth, has distinct keys.
pub open spec fn well_formed(v: PlistValue) -> bool
    decreases v,
{
    match v {
        PlistValue::Array(items) => all_well_formed(items@),
        PlistValue::Dictionary(entries) => distinct_keys(entries@) && entries_well_formed(entries@),
        _ => true,
    }
}

/// Every element of `s` is well formed.
pub open spec fn all_well_formed(s: Seq<PlistValue>) -> bool
    decreases s,
{
    if s.len() == 0 {
        true
    } else {
        all_well_formed(s.drop_last()) && well_formed(s.last())
    }
}

/// Every value of the entries `s` is well formed.
pub open spec fn entries_well_formed(s: Seq<(String, PlistValue)>) -> bool
    decreases s,
{
    if s.len() == 0 {
        true
    } else {
        entries_well_formed(s.drop_last()) && well_formed(s.last().1)
    }
}

/// `all_well_formed` is "every element is well formed".
pub proof fn lemma_all_well_formed(s: Seq<PlistValue>)
    ensures
        all_well_formed(s) <==> forall|i: int| 0 <= i < s.len() ==> #[trigger] well_formed(s[i]),
    decreases s.len(),
{
    if s.len() > 0 {
        lemma_all_well_formed(s.drop_last());
        assert(all_well_formed(s) == (all_well_formed(s.drop_last()) && well_formed(s.last())));
        assert(s.last() == s[s.len() - 1]);
        if forall|i: int| 0 <= i < s.len() ==> #[trigger] well_formed(s[i]) {
            assert forall|i: int| 0 <= i < s.drop_last().len() implies #[trigger] well_formed(s.drop_last()[i]) by {
                assert(s.drop_last()[i] == s[i]);
            }
        }
        if all_well_formed(s) {
            assert forall|i: int| 0 <= i < s.len() implies #[trigger] well_formed(s[i]) by {
                if i < s.len() - 1 {
                    assert(s.drop_last()[i] == s[i]);
                }
            }
        }
    }
}

/// `entries_well_formed` is "every value is well formed".
pub proof fn lemma_entries_well_formed(s: Seq<(String, PlistValue)>)
    ensures
        entries_well_formed(s) <==> forall|i: int| 0 <= i < s.len() ==> #[trigger] well_formed(s[i].1),
    decreases s.len(),
{
    if s.len() > 0 {
        lemma_entries_well_formed(s.drop_last());
        assert(entries_well_formed(s) == (entries_well_formed(s.drop_last()) && well_formed(s.last().1)));
        assert(s.last() == s[s.len() - 1]);
        if forall|i: int| 0 <= i < s.len() ==> #[trigger] well_formed(s[i].1) {
            assert forall|i: int| 0 <= i < s.drop_last().len() implies #[trigger] well_formed(s.drop_last()[i].1) by {
                assert(s.drop_last()[i] == s[i]);
            }
        }
        if entries_well_formed(s) {
            assert forall|i: int| 0 <= i < s.len() implies #[trigger] well_formed(s[i].1) by {
                if i < s.len() - 1 {
                    assert(s.drop_last()[i] == s[i]);
                }
            }
        }
    }
}

/// Already lowercased text names Paneru or its author.
pub open spec fn lowered_mentions_paneru(lowered: Seq<char>) -> bool {
    contains_text(lowered, "paneru"@) || contains_text(lowered, "karinushka"@)
}

/// A string value names Paneru or its author, ignoring case.
pub open spec fn text_mentions_paneru(s: Seq<char>) -> bool {
    lowered_mentions_paneru(lowercase(s))
}

/// A dictionary key names Paneru, ignoring case.
pub open spec fn key_mentions_paneru(k: Seq<char>) -> bool {
    contains_text(lowercase(k), "paneru"@)
}

/// A value mentions Paneru: a string that does, or an array or dictionary
/// with a key or a value, at any depth, that does.
pub open spec fn mentions_paneru(v: PlistValue) -> bool
    decreases v,
{
    match v {
        PlistValue::String(s) => text_mentions_paneru(s@),
        PlistValue::Array(items) => any_mentions_paneru(items@),
        PlistValue::Dictionary(entries) => dictionary_mentions_paneru(entries@),
        _ => false,
    }
}

/// Some element of `s` mentions Paneru.
pub open spec fn any_mentions_paneru(s: Seq<PlistValue>) -> bool
    decreases s,
{
    if s.len() == 0 {
        false
    } else {
        any_mentions_paneru(s.drop_last()) || mentions_paneru(s.last())
    }
}

/// Some entry of `s` has a key or a value that mentions Paneru.
pub open spec fn dictionary_mentions_paneru(s: Seq<(String, PlistValue)>) -> bool
    decreases s,
{
    if s.len() == 0 {
        false
    } else {
        dictionary_mentions_paneru(s.drop_last()) || key_mentions_paneru(s.last().0@)
            || mentions_paneru(s.last().1)
    }
}

/// `any_mentions_paneru` is "some element mentions Paneru".
pub proof fn lemma_any_mentions_paneru(s: Seq<PlistValue>)
    ensures
        any_mentions_paneru(s) <==> exists|i: int| 0 <= i < s.len() && #[trigger] mentions_paneru(s[i]),
    decreases s.len(),
{
    if s.len() > 0 {
        lemma_any_mentions_paneru(s.drop_last());
        assert(any_mentions_paneru(s) == (any_mentions_paneru(s.drop_last()) || mentions_paneru(s.last())));
        assert(s.last() == s[s.len() - 1]);
        if any_mentions_paneru(s.drop_last()) {
            let i = choose|i: int| 0 <= i < s.drop_last().len() && #[trigger] mentions_paneru(s.drop_last()[i]);
            assert(mentions_paneru(s[i]));
        }
        if exists|i: int| 0 <= i < s.len() && #[trigger] mentions_paneru(s[i]) {
            let i = choose|i: int| 0 <= i < s.len() && #[trigger] mentions_paneru(s[i]);
            if i < s.len() - 1 {
                assert(mentions_paneru(s.drop_last()[i]));
            }
        }
    }
}

/// `dictionary_mentions_paneru` is "some entry has a key or a value that
/// mentions Paneru".
pub proof fn lemma_dictionary_mentions_paneru(s: Seq<(String, PlistValue)>)
    ensures
        dictionary_mentions_paneru(s) <==> exists|i: int| #![trigger s[i]] 0 <= i < s.len() && (
            key_mentions_paneru(s[i].0@) || mentions_paneru(s[i].1)),
    decreases s.len(),
{
    if s.len() > 0 {
        lemma_dictionary_mentions_paneru(s.drop_last());
        assert(s.last() == s[s.len() - 1]);
        if dictionary_mentions_paneru(s.drop_last()) {
            let i = choose|i: int| #![trigger s.drop_last()[i]] 0 <= i < s.drop_last().len() && (
                key_mentions_paneru(s.drop_last()[i].0@) || mentions_paneru(s.drop_last()[i].1));
            assert(s[i] == s.drop_last()[i]);
        }
        if exists|i: int| #![trigger s[i]] 0 <= i < s.len() && (key_mentions_paneru(s[i].0@) || mentions_paneru(s[i].1)) {
            let i = choose|i: int| #![trigger s[i]] 0 <= i < s.len() && (key_mentions_paneru(s[i].0@) || mentions_paneru(s[i].1));
            if i < s.len() - 1 {
                assert(s[i] == s.drop_last()[i]);
            }
        }
    }
}

/// Whether already lowercased text contains `paneru` or `karinushka`.
pub fn lowered_text_mentions_paneru(lowered: &str) -> (r: bool)
    ensures
        r == lowered_mentions_paneru(lowered@),
{
    str_contains(lowered, "paneru") || str_contains(lowered, "karinushka")
}

fn string_mentions_paneru(s: &String) -> (r: bool)
    ensures
        r == text_mentions_paneru(s@),
{
    let lowered = to_lowercase(s.as_str());
    lowered_text_mentions_paneru(lowered.as_str())
}

fn key_contains_paneru(k: &String) -> (r: bool)
    ensures
        r == key_mentions_paneru(k@),
{
    let lowered = to_lowercase(k.as_str());
    str_contains(lowered.as_str(), "paneru")
}

/// Whether `value` mentions Paneru: a string containing `paneru` or
/// `karinushka` in any letter case, or an array or dictionary that holds
/// such a value, or a key containing `paneru`, at any depth.
pub fn value_contains_paneru(value: &PlistValue) -> (r: bool)
    ensures
        r == mentions_paneru(*value),
    decreases value,
{
    match value {
        PlistValue::String(s) => string_mentions_paneru(s),
        PlistValue::Array(values) => {
            let mut i: usize = 0;
            while i < values.len()
                invariant
                    i <= values@.len(),
                    *value == PlistValue::Array(*values),
                    !any_mentions_paneru(values@.take(i as int)),
                decreases values@.len() - i,
            {
                proof {
                    assert(decreases_to!(*value => (*value)->Array_0));
                    assert(decreases_to!(*values => values@));
                    assert(decreases_to!(values@ => values@[i as int]));
                }
                let found = value_contains_paneru(&values[i]);
                proof {
                    assert(values@.take(i + 1).drop_last() =~= values@.take(i as int));
                }
                if found {
                    proof {
                        lemma_any_mentions_paneru(values@);
                    }
                    return true;
                }
                i += 1;
            }
            proof {
                assert(values@.take(i as int) =~= values@);
            }
            false
        },
        PlistValue::Dictionary(values) => {
            proof {
                assert(decreases_to!(*value => (*value)->Dictionary_0));
            }
            dictionary_contains_paneru(values)
        },
        _ => false,
    }
}

/// Whether some entry of a dictionary has a key containing `paneru`, in any
/// letter case, or a value that mentions Paneru.
pub fn dictionary_contains_paneru(values: &Vec<(String, PlistValue)>) -> (r: bool)
    ensures
        r == dictionary_mentions_paneru(values@),
    decreases values,
{
    let mut i: usize = 0;
    while i < values.len()
        invariant
            i <= values@.len(),
            !dictionary_mentions_paneru(values@.take(i as int)),
        decreases values@.len() - i,
    {
        proof {
            assert(decreases_to!(*values => values@));
            assert(decreases_to!(values@ => values@[i as int]));
            assert(decreases_to!(values@[i as int] => values@[i as int].1));
        }
        let found = key_contains_paneru(&values[i].0) || value_contains_paneru(&values[i].1);
        proof {
            assert(values@.take(i + 1).drop_last() =~= values@.take(i as int));
        }
        if found {
            proof {
                lemma_dictionary_mentions_paneru(values@);
            }
            return true;
        }
        i += 1;
    }
    proof {
        assert(values@.take(i as int) =~= values@);
    }
    false
}


/// The key under which a tracked item lists its menu-bar locations.
pub open spec fn menu_item_locations_key() -> Seq<char> {
    "menuItemLocations"@
}

/// `k` is the index of the first entry whose key is `key`.
pub open spec fn is_first_key(entries: Seq<(String, PlistValue)>, key: Seq<char>, k: int) -> bool {
    &&& 0 <= k < entries.len()
    &&& entries[k].0@ == key
    &&& forall|j: int| 0 <= j < k ==> entries[j].0@ != key
}

/// No entry has the key `key`.
pub open spec fn lacks_key(entries: Seq<(String, PlistValue)>, key: Seq<char>) -> bool {
    forall|j: int| 0 <= j < entries.len() ==> entries[j].0@ != key
}

/// The elements of `s` that do not mention Paneru, in their order.
pub open spec fn kept_without_paneru(s: Seq<PlistValue>) -> Seq<PlistValue>
    decreases s.len(),
{
    if s.len() == 0 {
        s
    } else {
        let rest = kept_without_paneru(s.drop_last());
        if mentions_paneru(s.last()) {
            rest
        } else {
            rest.push(s.last())
        }
    }
}

/// The index of the first entry whose key is `key`, if any.
pub fn find_key(entries: &Vec<(String, PlistValue)>, key: &str) -> (r: Option<usize>)
    ensures
        match r {
            Some(k) => is_first_key(entries@, key@, k as int),
            None => lacks_key(entries@, key@),
        },
{
    let mut i: usize = 0;
    while i < entries.len()
        invariant
            i <= entries@.len(),
            forall|j: int| 0 <= j < i ==> entries@[j].0@ != key@,
        decreases entries@.len() - i,
    {
        if str_equal(entries[i].0.as_str(), key) {
            return Some(i);
        }
        i += 1;
    }
    None
}

/// Keeps the elements that do not mention Paneru, in their order.
pub fn retain_without_paneru(items: Vec<PlistValue>) -> (kept: Vec<PlistValue>)
    ensures
        kept@ == kept_without_paneru(items@),
{
    let ghost all = items@;
    let mut kept: Vec<PlistValue> = Vec::new();
    for item in it: items.into_iter()
        invariant
            it.seq() == all,
            kept@ == kept_without_paneru(all.take(it.index() as int)),
    {
        let ghost idx = it.index();
        proof {
            assert(all.take(idx + 1).drop_last() =~= all.take(idx as int));
            assert(all.take(idx + 1).last() == item);
        }
        if !value_contains_paneru(&item) {
            kept.push(item);
        }
    }
    proof {
        assert(all.take(all.len() as int) =~= all);
    }
    kept
}


/// What stripping Paneru's menu-bar locations does to a tracked item:
/// in a dictionary whose first `menuItemLocations` entry is an array, that
/// array loses the elements that mention Paneru and `removed` counts them;
/// every other entry, and every other value, is left as it is.
pub open spec fn locations_stripped(before: PlistValue, after: PlistValue, removed: int) -> bool {
    match before {
        PlistValue::Dictionary(entries) => {
            if exists|k: int| is_first_key(entries@, menu_item_locations_key(), k)
                && entries@[k].1 is Array {
                let k = choose|k: int| is_first_key(entries@, menu_item_locations_key(), k)
                    && entries@[k].1 is Array;
                let locations = entries@[k].1->Array_0@;
                match after {
                    PlistValue::Dictionary(stripped) => {
                        &&& stripped@.len() == entries@.len()
                        &&& forall|j: int| 0 <= j < entries@.len() && j != k ==> stripped@[j] == entries@[j]
                        &&& stripped@[k].0 == entries@[k].0
                        &&& stripped@[k].1 is Array
                        &&& stripped@[k].1->Array_0@ == kept_without_paneru(locations)
                        &&& removed == locations.len() - kept_without_paneru(locations).len()
                    },
                    _ => false,
                }
            } else {
                after == before && removed == 0
            }
        },
        _ => after == before && removed == 0,
    }
}

/// Keeping the elements that do not mention Paneru never adds elements.
pub proof fn lemma_kept_len(s: Seq<PlistValue>)
    ensures
        kept_without_paneru(s).len() <= s.len(),
    decreases s.len(),
{
    if s.len() > 0 {
        lemma_kept_len(s.drop_last());
    }
}

/// Removes, from the `menuItemLocations` array of a tracked item, the
/// locations that mention Paneru, and returns how many were removed.
pub fn strip_paneru_menu_item_locations(value: &mut PlistValue) -> (removed: usize)
    ensures
        locations_stripped(*old(value), *final(value), removed as int),
        well_formed(*old(value)) ==> well_formed(*final(value)),
{
    let ghost before = *value;
    let removed = strip_locations(value);
    proof {
        if well_formed(before) {
            lemma_strip_well_formed(before, *value, removed as int);
        }
    }
    removed
}

fn strip_locations(value: &mut PlistValue) -> (removed: usize)
    ensures
        locations_stripped(*old(value), *final(value), removed as int),
{
    let ghost before = *value;
    match value {
        PlistValue::Dictionary(dict) => {
            match find_key(dict, "menuItemLocations") {
                Some(k) => {
                    proof {
                        reveal_strlit("menuItemLocations");
                    }
                    let is_array = match &dict[k].1 {
                        PlistValue::Array(_) => true,
                        _ => false,
                    };
                    if !is_array {
                        proof {
                            assert forall|k2: int| is_first_key(dict@, menu_item_locations_key(), k2)
                                implies !(dict@[k2].1 is Array) by {
                                if k2 < k {
                                } else if k < k2 {
                                }
                            }
                        }
                        return 0;
                    }
                    let (key, inner) = dict.remove(k);
                    let locations = match inner {
                        PlistValue::Array(locations) => locations,
                        _ => {
                            proof {
                                assert(false);
                            }
                            Vec::new()
                        },
                    };
                    let before_len = locations.len();
                    proof {
                        lemma_kept_len(locations@);
                    }
                    let kept = retain_without_paneru(locations);
                    let after_len = kept.len();
                    dict.insert(k, (key, PlistValue::Array(kept)));
                    before_len - after_len
                },
                None => {
                    proof {
                        reveal_strlit("menuItemLocations");
                    }
                    0
                },
            }
        },
        _ => 0,
    }
}


/// The number of menu-bar locations a tracked item lists: the length of its
/// first `menuItemLocations` array, or zero.
pub open spec fn location_count(v: PlistValue) -> int {
    match v {
        PlistValue::Dictionary(entries) => {
            if exists|k: int| is_first_key(entries@, menu_item_locations_key(), k)
                && entries@[k].1 is Array {
                let k = choose|k: int| is_first_key(entries@, menu_item_locations_key(), k)
                    && entries@[k].1 is Array;
                entries@[k].1->Array_0@.len() as int
            } else {
                0
            }
        },
        _ => 0,
    }
}

/// The number of menu-bar locations listed by all of `items`.
pub open spec fn total_locations(items: Seq<PlistValue>) -> int
    decreases items.len(),
{
    if items.len() == 0 {
        0
    } else {
        total_locations(items.drop_last()) + location_count(items.last())
    }
}

/// The sum of `s`.
pub open spec fn sum(s: Seq<int>) -> int
    decreases s.len(),
{
    if s.len() == 0 {
        0
    } else {
        sum(s.drop_last()) + s.last()
    }
}

/// `stripped` and `counts` witness a cleaning of `items` into `out`: item
/// `i` is stripped into `stripped[i]`, losing `counts[i]` menu-bar
/// locations; `out` keeps the stripped items that no longer mention Paneru;
/// `removed` counts the dropped items and the stripped locations.
pub open spec fn cleaning_witnessed(
    items: Seq<PlistValue>,
    out: Seq<PlistValue>,
    removed: int,
    stripped: Seq<PlistValue>,
    counts: Seq<int>,
) -> bool {
    &&& stripped.len() == items.len()
    &&& counts.len() == items.len()
    &&& forall|i: int| 0 <= i < items.len() ==> locations_stripped(
        items[i], #[trigger] stripped[i], counts[i])
    &&& out == kept_without_paneru(stripped)
    &&& removed == items.len() - out.len() + sum(counts)
}

/// What cleaning does to the decoded `trackedApplications` value: an array
/// has each item stripped of Paneru's menu-bar locations, then loses the
/// items that still mention Paneru; `removed` counts the removed items and
/// locations. Any other value is left as it is.
pub open spec fn applications_cleaned(before: PlistValue, after: PlistValue, removed: int) -> bool {
    match before {
        PlistValue::Array(items) => match after {
            PlistValue::Array(out) => exists|stripped: Seq<PlistValue>, counts: Seq<int>|
                #[trigger] cleaning_witnessed(items@, out@, removed, stripped, counts),
            _ => false,
        },
        _ => after == before && removed == 0,
    }
}

/// The counts that `applications_cleaned` adds up fit in a `usize`: the items
/// and the menu-bar locations they list are fewer than `usize::MAX`.
pub open spec fn application_count_fits(applications: PlistValue) -> bool {
    match applications {
        PlistValue::Array(items) => items@.len() + total_locations(items@) <= usize::MAX,
        _ => true,
    }
}

fn locations_listed(item: &PlistValue) -> (n: usize)
    ensures
        n as int == location_count(*item),
{
    proof {
        reveal_strlit("menuItemLocations");
    }
    match item {
        PlistValue::Dictionary(entries) => match find_key(entries, "menuItemLocations") {
            Some(k) => {
                let n = match &entries[k].1 {
                    PlistValue::Array(locations) => locations.len(),
                    _ => 0,
                };
                proof {
                    assert forall|k2: int| is_first_key(entries@, menu_item_locations_key(), k2)
                        implies k2 == k by {
                        if k2 < k {
                        } else if k < k2 {
                        }
                    }
                }
                n
            },
            None => 0,
        },
        _ => 0,
    }
}

/// Whether the counts of `clean_tracked_applications` fit in a `usize` for
/// this value (see `application_count_fits`).
pub fn counts_fit(applications: &PlistValue) -> (r: bool)
    ensures
        r == application_count_fits(*applications),
{
    match applications {
        PlistValue::Array(items) => {
            let mut total: usize = items.len();
            let mut i: usize = 0;
            while i < items.len()
                invariant
                    i <= items@.len(),
                    total == items@.len() + total_locations(items@.take(i as int)),
                    *applications == PlistValue::Array(*items),
                decreases items@.len() - i,
            {
                let n = locations_listed(&items[i]);
                proof {
                    assert(items@.take(i + 1).drop_last() =~= items@.take(i as int));
                    assert(items@.take(i + 1).last() == items@[i as int]);
                    lemma_total_locations_prefix(items@, i + 1);
                    lemma_total_locations_prefix(items@, items@.len() as int);
                    assert(items@.take(items@.len() as int) =~= items@);
                }
                if n > usize::MAX - total {
                    return false;
                }
                total = total + n;
                i += 1;
            }
            proof {
                assert(items@.take(i as int) =~= items@);
            }
            true
        },
        _ => true,
    }
}

/// Stripping removes at most the listed locations.
pub proof fn lemma_stripped_bound(before: PlistValue, after: PlistValue, removed: int)
    requires
        locations_stripped(before, after, removed),
    ensures
        0 <= removed <= location_count(before),
{
    match before {
        PlistValue::Dictionary(entries) => {
            if exists|k: int| is_first_key(entries@, menu_item_locations_key(), k)
                && entries@[k].1 is Array {
                let k = choose|k: int| is_first_key(entries@, menu_item_locations_key(), k)
                    && entries@[k].1 is Array;
                lemma_kept_len(entries@[k].1->Array_0@);
            }
        },
        _ => {},
    }
}

/// A prefix lists no more locations than the whole.
pub proof fn lemma_total_locations_prefix(items: Seq<PlistValue>, n: int)
    requires
        0 <= n <= items.len(),
    ensures
        0 <= total_locations(items.take(n)) <= total_locations(items),
    decreases items.len(),
{
    if items.len() > 0 {
        if n == items.len() {
            assert(items.take(n) =~= items);
            lemma_total_locations_prefix(items.drop_last(), n - 1);
            assert(items.drop_last().take(n - 1) =~= items.drop_last());
        } else {
            lemma_total_locations_prefix(items.drop_last(), n);
            assert(items.drop_last().take(n) =~= items.take(n));
            lemma_total_locations_prefix(items.drop_last(), items.len() - 1);
            assert(items.drop_last().take(items.len() - 1) =~= items.drop_last());
        }
        assert(location_count(items.last()) >= 0);
    }
}

/// Cleans the decoded `trackedApplications` value: strips Paneru's
/// menu-bar locations from every tracked item, removes the items that still
/// mention Paneru, and returns how many items and locations were removed.
/// A value that is not an array is left alone, and 0 is returned.
pub fn clean_tracked_applications(applications: &mut PlistValue) -> (removed: usize)
    requires
        application_count_fits(*old(applications)),
    ensures
        applications_cleaned(*old(applications), *final(applications), removed as int),
        well_formed(*old(applications)) ==> well_formed(*final(applications)),
        application_count_fits(*final(applications)),
{
    let ghost before = *applications;
    let removed = clean_applications(applications);
    proof {
        if well_formed(before) {
            lemma_cleaned_well_formed(before, *applications, removed as int);
        }
        law_cleaning_keeps_counts_fitting(before, *applications, removed as int);
    }
    removed
}

fn clean_applications(applications: &mut PlistValue) -> (removed: usize)
    requires
        application_count_fits(*old(applications)),
    ensures
        applications_cleaned(*old(applications), *final(applications), removed as int),
{
    let ghost before = *applications;
    let mut taken = PlistValue::Array(Vec::new());
    std::mem::swap(&mut taken, applications);
    match taken {
        PlistValue::Array(all) => {
            let ghost given = all@;
            let before_len = all.len();
            let mut stripped: Vec<PlistValue> = Vec::new();
            let mut stripped_menu_locations: usize = 0;
            let ghost mut counts: Seq<int> = Seq::empty();
            proof {
                lemma_total_locations_prefix(given, given.len() as int);
            }
            for item in it: all.into_iter()
                invariant
                    it.seq() == given,
                    before_len == given.len(),
                    given.len() + total_locations(given) <= usize::MAX,
                    stripped@.len() == it.index(),
                    counts.len() == it.index(),
                    forall|i: int| 0 <= i < it.index() ==> locations_stripped(
                        given[i], #[trigger] stripped@[i], counts[i]),
                    stripped_menu_locations == sum(counts),
                    sum(counts) <= total_locations(given.take(it.index() as int)),
            {
                let ghost idx = it.index();
                let mut item = item;
                let n = strip_paneru_menu_item_locations(&mut item);
                proof {
                    lemma_stripped_bound(given[idx as int], item, n as int);
                    assert(given.take(idx + 1).drop_last() =~= given.take(idx as int));
                    lemma_total_locations_prefix(given, idx + 1);
                    let old_counts = counts;
                    counts = counts.push(n as int);
                    assert(counts.drop_last() =~= old_counts);
                    assert(given.take(idx + 1).last() == given[idx as int]);
                }
                stripped_menu_locations = stripped_menu_locations + n;
                stripped.push(item);
            }
            let ghost stripped_all = stripped@;
            proof {
                lemma_kept_len(stripped_all);
            }
            let kept = retain_without_paneru(stripped);
            let removed = before_len - kept.len() + stripped_menu_locations;
            *applications = PlistValue::Array(kept);
            proof {
                assert(cleaning_witnessed(before->Array_0@, applications->Array_0@, removed as int, stripped_all, counts));
                assert(applications_cleaned(before, *applications, removed as int));
            }
            removed
        },
        other => {
            *applications = other;
            0
        },
    }
}


/// The error type of the `base64` crate's decoder.
#[verifier::external_type_specification]
#[verifier::external_body]
pub struct ExDecodeError(base64::DecodeError);

/// A name for what the `base64` crate's standard engine (RFC 4648 alphabet,
/// with padding) decodes from the bytes of a text: the decoded bytes, or
/// `None` where the text is not valid base64.
pub uninterp spec fn base64_standard_decoded(text: Seq<char>) -> Option<Seq<u8>>;

/// Calls `base64::engine::general_purpose::STANDARD.decode` on the bytes of
/// `text`. The contract claims that the result is the named decoding
/// `base64_standard_decoded` of the text, and that an error comes exactly
/// where that decoding is `None`; the decoding algorithm is left unstated.
#[verifier::external_body]
fn base64_decode_standard(text: &str) -> (r: Result<Vec<u8>, base64::DecodeError>)
    ensures
        match r {
            Ok(bytes) => base64_standard_decoded(text@) == Some(bytes@),
            Err(_) => base64_standard_decoded(text@) is None,
        },
{
    base64::engine::general_purpose::STANDARD.decode(text)
}

/// Why the Control Center preferences could not be cleaned.
#[derive(Debug)]
pub enum ControlCenterError {
    /// `trackedApplications` is a string that is not valid base64.
    InvalidBase64(base64::DecodeError),
    /// `trackedApplications` is neither data nor a string.
    NotDataOrString,
    /// Bytes that should hold a property list do not.
    InvalidPlist(plist::Error),
    /// The cleaned value could not be encoded.
    Encode(plist::Error),
}

/// The bytes of the nested property list kept under `trackedApplications`:
/// the value itself when it is data, its base64 decoding when it is a
/// string, and an error otherwise.
pub fn tracked_applications_data(value: &PlistValue) -> (r: Result<Vec<u8>, ControlCenterError>)
    ensures
        match *value {
            PlistValue::Data(data) => r matches Ok(bytes) && bytes@ == data@,
            PlistValue::String(text) => match base64_standard_decoded(text@) {
                Some(decoded) => r matches Ok(bytes) && bytes@ == decoded,
                None => r matches Err(ControlCenterError::InvalidBase64(_)),
            },
            _ => r matches Err(ControlCenterError::NotDataOrString),
        },
{
    match value {
        PlistValue::Data(data) => {
            let bytes = data.clone();
            proof {
                assert(bytes@ =~= data@);
            }
            Ok(bytes)
        },
        PlistValue::String(text) => match base64_decode_standard(text.as_str()) {
            Ok(bytes) => Ok(bytes),
            Err(error) => Err(ControlCenterError::InvalidBase64(error)),
        },
        _ => Err(ControlCenterError::NotDataOrString),
    }
}

/// The key under which the Control Center keeps its tracked items.
pub open spec fn tracked_applications_key() -> Seq<char> {
    "trackedApplications"@
}

/// The value of the first `trackedApplications` entry of the root
/// dictionary, if the root is a dictionary that has one.
pub fn tracked_applications_value(root: &PlistValue) -> (r: Option<&PlistValue>)
    ensures
        match *root {
            PlistValue::Dictionary(entries) => match r {
                Some(v) => exists|k: int| is_first_key(entries@, tracked_applications_key(), k)
                    && *v == entries@[k].1,
                None => lacks_key(entries@, tracked_applications_key()),
            },
            _ => r is None,
        },
{
    proof {
        reveal_strlit("trackedApplications");
    }
    match root {
        PlistValue::Dictionary(entries) => match find_key(entries, "trackedApplications") {
            Some(k) => {
                proof {
                    assert(is_first_key(entries@, tracked_applications_key(), k as int));
                }
                Some(&entries[k].1)
            },
            None => None,
        },
        _ => None,
    }
}

/// `after` is `before` with the value of its first `trackedApplications`
/// entry replaced by the data `data`, every other entry kept.
pub open spec fn tracked_applications_replaced(before: PlistValue, after: PlistValue, data: Seq<u8>) -> bool {
    match before {
        PlistValue::Dictionary(entries) => {
            let k = choose|k: int| is_first_key(entries@, tracked_applications_key(), k);
            &&& is_first_key(entries@, tracked_applications_key(), k)
            &&& after matches PlistValue::Dictionary(updated)
            &&& updated@.len() == entries@.len()
            &&& forall|j: int| 0 <= j < entries@.len() && j != k ==> updated@[j] == entries@[j]
            &&& updated@[k].0 == entries@[k].0
            &&& updated@[k].1 matches PlistValue::Data(d) && d@ == data
        },
        _ => false,
    }
}

/// The root has a `trackedApplications` entry.
pub open spec fn has_tracked_applications(root: PlistValue) -> bool {
    root matches PlistValue::Dictionary(entries)
        && exists|k: int| is_first_key(entries@, tracked_applications_key(), k)
}

/// Stores `encoded` as data under the first `trackedApplications` entry of
/// the root dictionary, and says whether there was such an entry; every
/// other entry, and a root without such an entry, is left as it is.
pub fn replace_tracked_applications(root: &mut PlistValue, encoded: Vec<u8>) -> (replaced: bool)
    ensures
        replaced == has_tracked_applications(*old(root)),
        replaced ==> tracked_applications_replaced(*old(root), *final(root), encoded@),
        !replaced ==> *final(root) == *old(root),
        well_formed(*old(root)) ==> well_formed(*final(root)),
{
    let ghost before = *root;
    let replaced = replace_entry(root, encoded);
    proof {
        if replaced && well_formed(before) {
            lemma_replaced_well_formed(before, *root, encoded@);
        }
    }
    replaced
}

fn replace_entry(root: &mut PlistValue, encoded: Vec<u8>) -> (replaced: bool)
    ensures
        replaced == has_tracked_applications(*old(root)),
        replaced ==> tracked_applications_replaced(*old(root), *final(root), encoded@),
        !replaced ==> *final(root) == *old(root),
{
    proof {
        reveal_strlit("trackedApplications");
    }
    match root {
        PlistValue::Dictionary(entries) => match find_key(entries, "trackedApplications") {
            Some(k) => {
                proof {
                    assert(is_first_key(entries@, tracked_applications_key(), k as int));
                }
                let (key, _previous) = entries.remove(k);
                entries.insert(k, (key, PlistValue::Data(encoded)));
                proof {
                    assert forall|k2: int| is_first_key(old(root)->Dictionary_0@, tracked_applications_key(), k2)
                        implies k2 == k by {
                        if k2 < k {
                        } else if k < k2 {
                        }
                    }
                }
                true
            },
            None => false,
        },
        _ => false,
    }
}


/// No element kept by `kept_without_paneru` mentions Paneru.
pub proof fn lemma_kept_mention_free(s: Seq<PlistValue>)
    ensures
        !any_mentions_paneru(kept_without_paneru(s)),
    decreases s.len(),
{
    if s.len() > 0 {
        lemma_kept_mention_free(s.drop_last());
        let rest = kept_without_paneru(s.drop_last());
        if !mentions_paneru(s.last()) {
            assert(rest.push(s.last()).drop_last() =~= rest);
        }
    }
}

/// When no element mentions Paneru, all are kept.
pub proof fn lemma_kept_all(s: Seq<PlistValue>)
    requires
        !any_mentions_paneru(s),
    ensures
        kept_without_paneru(s) == s,
    decreases s.len(),
{
    if s.len() > 0 {
        lemma_kept_all(s.drop_last());
        assert(s.drop_last().push(s.last()) =~= s);
    }
}

/// Stripping an item that does not mention Paneru removes nothing and
/// yields an item that does not mention Paneru.
pub proof fn lemma_strip_mention_free(before: PlistValue, after: PlistValue, removed: int)
    requires
        !mentions_paneru(before),
        locations_stripped(before, after, removed),
    ensures
        removed == 0,
        !mentions_paneru(after),
{
    match before {
        PlistValue::Dictionary(entries) => {
            if exists|k: int| is_first_key(entries@, menu_item_locations_key(), k)
                && entries@[k].1 is Array {
                let k = choose|k: int| is_first_key(entries@, menu_item_locations_key(), k)
                    && entries@[k].1 is Array;
                let locations = entries@[k].1->Array_0@;
                lemma_dictionary_mentions_paneru(entries@);
                assert(!mentions_paneru(entries@[k].1));
                lemma_kept_all(locations);
                let stripped = after->Dictionary_0;
                lemma_dictionary_mentions_paneru(stripped@);
                assert forall|j: int| 0 <= j < stripped@.len() implies !(key_mentions_paneru(
                    #[trigger] stripped@[j].0@) || mentions_paneru(stripped@[j].1)) by {
                    if j != k {
                        assert(stripped@[j] == entries@[j]);
                    } else {
                        assert(mentions_paneru(stripped@[k].1) == any_mentions_paneru(
                            stripped@[k].1->Array_0@));
                    }
                }
            }
        },
        _ => {},
    }
}

/// After the `trackedApplications` array is cleaned, nothing in it mentions
/// Paneru.
pub proof fn law_cleaned_array_mentions_no_paneru(before: PlistValue, after: PlistValue, removed: int)
    requires
        before is Array,
        applications_cleaned(before, after, removed),
    ensures
        !mentions_paneru(after),
{
    let out = after->Array_0;
    let (stripped, counts) = choose|stripped: Seq<PlistValue>, counts: Seq<int>|
            cleaning_witnessed(before->Array_0@, out@, removed, stripped, counts);
    lemma_kept_mention_free(stripped);
}

/// A sequence of zeros sums to zero.
pub proof fn lemma_sum_zeros(s: Seq<int>)
    requires
        forall|i: int| 0 <= i < s.len() ==> s[i] == 0,
    ensures
        sum(s) == 0,
    decreases s.len(),
{
    if s.len() > 0 {
        lemma_sum_zeros(s.drop_last());
    }
}

/// Cleaning a `trackedApplications` value in which nothing mentions Paneru
/// removes nothing.
pub proof fn law_clean_without_paneru_removes_nothing(before: PlistValue, after: PlistValue, removed: int)
    requires
        !mentions_paneru(before),
        applications_cleaned(before, after, removed),
    ensures
        removed == 0,
{
    if before is Array {
        let items = before->Array_0@;
        let out = after->Array_0;
        let (stripped, counts) = choose|stripped: Seq<PlistValue>, counts: Seq<int>|
            cleaning_witnessed(items, out@, removed, stripped, counts);
        lemma_any_mentions_paneru(items);
        assert forall|i: int| 0 <= i < items.len() implies counts[i] == 0 && !mentions_paneru(
            #[trigger] stripped[i]) by {
            assert(!mentions_paneru(items[i]));
            lemma_strip_mention_free(items[i], stripped[i], counts[i]);
        }
        assert forall|i: int| 0 <= i < counts.len() implies #[trigger] counts[i] == 0 by {
            assert(!mentions_paneru(stripped[i]));
        }
        lemma_sum_zeros(counts);
        lemma_any_mentions_paneru(stripped);
        lemma_kept_all(stripped);
    }
}

/// Cleaning is idempotent: cleaning an already cleaned `trackedApplications`
/// array removes nothing.
pub proof fn law_cleaning_twice_removes_nothing(
    first: PlistValue,
    second: PlistValue,
    removed_first: int,
    third: PlistValue,
    removed_second: int,
)
    requires
        first is Array,
        applications_cleaned(first, second, removed_first),
        applications_cleaned(second, third, removed_second),
    ensures
        removed_second == 0,
{
    law_cleaned_array_mentions_no_paneru(first, second, removed_first);
    law_clean_without_paneru_removes_nothing(second, third, removed_second);
}


/// The first key index is unique.
pub proof fn lemma_first_key_unique(entries: Seq<(String, PlistValue)>, key: Seq<char>, a: int, b: int)
    requires
        is_first_key(entries, key, a),
        is_first_key(entries, key, b),
    ensures
        a == b,
{
    if a < b {
        assert(entries[a].0@ == key);
    } else if b < a {
        assert(entries[b].0@ == key);
    }
}

/// Converts the `plist` crate's value, moving its arrays, dictionaries,
/// data and strings into `PlistValue` and carrying every other value as is.
#[verifier::external_body]
fn into_plist_value(value: plist::Value) -> PlistValue {
    match value {
        plist::Value::Array(items) => PlistValue::Array(items.into_iter().map(into_plist_value).collect()),
        plist::Value::Dictionary(entries) => PlistValue::Dictionary(
            entries.into_iter().map(|(key, value)| (key, into_plist_value(value))).collect()),
        plist::Value::Data(data) => PlistValue::Data(data),
        plist::Value::String(text) => PlistValue::String(text),
        other => PlistValue::Other(other),
    }
}

/// Converts back to the `plist` crate's value, moving every field.
#[verifier::external_body]
fn from_plist_value(value: PlistValue) -> plist::Value {
    match value {
        PlistValue::Array(items) => plist::Value::Array(items.into_iter().map(from_plist_value).collect()),
        PlistValue::Dictionary(entries) => plist::Value::Dictionary(
            entries.into_iter().map(|(key, value)| (key, from_plist_value(value))).collect()),
        PlistValue::Data(data) => plist::Value::Data(data),
        PlistValue::String(text) => plist::Value::String(text),
        PlistValue::Other(other) => other,
    }
}

/// A name for what `plist::Value::from_reader_xml` decodes from bytes
/// holding an XML property list, or `None` where it fails.
pub uninterp spec fn xml_plist_decoded(bytes: Seq<u8>) -> Option<PlistValue>;

/// A name for what `plist::Value::from_reader` decodes from bytes holding a
/// property list of any encoding, or `None` where it fails.
pub uninterp spec fn plist_decoded(bytes: Seq<u8>) -> Option<PlistValue>;

/// A name for the binary property list that `plist::Value::to_writer_binary`
/// writes for a value, or `None` where it fails.
pub uninterp spec fn binary_plist_encoded(value: PlistValue) -> Option<Seq<u8>>;

/// Calls `plist::Value::from_reader_xml` on the bytes and converts the
/// value. The contract claims that the result is the named decoding
/// `xml_plist_decoded` of the bytes, failing exactly where that is `None`,
/// and that its dictionaries have distinct keys, as the crate's
/// `Dictionary` (an `IndexMap`) holds them; the XML grammar is left
/// unstated.
#[verifier::external_body]
fn decode_xml_plist(bytes: &[u8]) -> (r: Result<PlistValue, plist::Error>)
    ensures
        match r {
            Ok(value) => xml_plist_decoded(bytes@) == Some(value),
            Err(_) => xml_plist_decoded(bytes@) is None,
        },
        r matches Ok(value) ==> well_formed(value),
{
    plist::Value::from_reader_xml(std::io::Cursor::new(bytes)).map(into_plist_value)
}

/// Calls `plist::Value::from_reader` on the bytes and converts the value.
/// The contract claims that the result is the named decoding
/// `plist_decoded` of the bytes, failing exactly where that is `None`, and
/// that its dictionaries have distinct keys, as the crate's `Dictionary`
/// (an `IndexMap`) holds them; the encodings are left unstated.
#[verifier::external_body]
fn decode_plist(bytes: &[u8]) -> (r: Result<PlistValue, plist::Error>)
    ensures
        match r {
            Ok(value) => plist_decoded(bytes@) == Some(value),
            Err(_) => plist_decoded(bytes@) is None,
        },
        r matches Ok(value) ==> well_formed(value),
{
    plist::Value::from_reader(std::io::Cursor::new(bytes)).map(into_plist_value)
}

/// Converts the value and calls `plist::Value::to_writer_binary` on a new
/// vector. The contract claims that the bytes are the named encoding
/// `binary_plist_encoded` of the value, failing exactly where that is
/// `None`; the binary format is left unstated.
#[verifier::external_body]
fn encode_binary_plist(value: PlistValue) -> (r: Result<Vec<u8>, plist::Error>)
    ensures
        match r {
            Ok(bytes) => binary_plist_encoded(value) == Some(bytes@),
            Err(_) => binary_plist_encoded(value) is None,
        },
{
    let mut bytes = Vec::new();
    from_plist_value(value).to_writer_binary(&mut bytes).map(|()| bytes)
}

/// The bytes of the nested property list that a `trackedApplications`
/// value holds: the data itself, or the base64 decoding of a string.
pub open spec fn applications_bytes(value: PlistValue) -> Option<Seq<u8>> {
    match value {
        PlistValue::Data(data) => Some(data@),
        PlistValue::String(text) => base64_standard_decoded(text@),
        _ => None,
    }
}

/// The tracked items decoded from the nested bytes: as an XML property
/// list, or else as a property list of any encoding.
pub open spec fn decoded_applications(bytes: Seq<u8>) -> Option<PlistValue> {
    match xml_plist_decoded(bytes) {
        Some(value) => Some(value),
        None => plist_decoded(bytes),
    }
}

/// The value of the first `trackedApplications` entry of a root dictionary.
pub open spec fn tracked_applications_of(root: PlistValue) -> PlistValue {
    let entries = root->Dictionary_0@;
    entries[choose|k: int| is_first_key(entries, tracked_applications_key(), k)].1
}

/// The decoded tracked items `applications` of the preferences `before` are
/// cleaned into `cleaned`, removing `n`: when nothing was removed the
/// outcome is 0 and the preferences are kept; else the tracked entry is
/// replaced by the binary encoding of the cleaned items, or the outcome is
/// an encoding error and the preferences are kept.
pub open spec fn tracked_items_cleaned(
    before: PlistValue,
    after: PlistValue,
    r: Option<Result<usize, ControlCenterError>>,
    applications: PlistValue,
    cleaned: PlistValue,
    n: int,
) -> bool {
    &&& applications_cleaned(applications, cleaned, n)
    &&& if n == 0 {
        r == Some(Ok::<usize, ControlCenterError>(0)) && after == before
    } else {
        match binary_plist_encoded(cleaned) {
            None => r matches Some(Err(ControlCenterError::Encode(_))) && after == before,
            Some(encoded) => {
                &&& r == Some(Ok::<usize, ControlCenterError>(n as usize))
                &&& tracked_applications_replaced(before, after, encoded)
            },
        }
    }
}

/// What cleaning the Control Center preferences `before` does, giving
/// `after` and the outcome `r`. Without a `trackedApplications` entry,
/// nothing is removed. A value that is neither data nor a string, text that
/// is not base64, and bytes that are no property list are errors. Where the
/// counts of the clean-up do not fit in a `usize`, the outcome is `None`.
/// Otherwise the tracked items are cleaned; when nothing was removed the
/// preferences are kept, else the entry is replaced by the binary encoding
/// of the cleaned items (an error where encoding fails). Every outcome but a
/// replacement leaves the preferences as they were.
pub open spec fn control_center_cleaned(
    before: PlistValue,
    after: PlistValue,
    r: Option<Result<usize, ControlCenterError>>,
) -> bool {
    if !has_tracked_applications(before) {
        r == Some(Ok::<usize, ControlCenterError>(0)) && after == before
    } else {
        let value = tracked_applications_of(before);
        if !(value is Data || value is String) {
            r matches Some(Err(ControlCenterError::NotDataOrString)) && after == before
        } else {
            match applications_bytes(value) {
                None => r matches Some(Err(ControlCenterError::InvalidBase64(_))) && after == before,
                Some(bytes) => match decoded_applications(bytes) {
                    None => r matches Some(Err(ControlCenterError::InvalidPlist(_))) && after == before,
                    Some(applications) => if !application_count_fits(applications) {
                        r is None && after == before
                    } else {
                        exists|cleaned: PlistValue, n: int|
                            #[trigger] tracked_items_cleaned(before, after, r, applications, cleaned, n)
                    },
                },
            }
        }
    }
}

/// Removes Paneru's tracked items and menu-bar locations from the decoded
/// Control Center preferences, as `control_center_cleaned` describes:
/// returns the number removed, an error, or `None` where the counts would
/// not fit in a `usize`.
pub fn clean_control_center(root: &mut PlistValue) -> (r: Option<Result<usize, ControlCenterError>>)
    ensures
        control_center_cleaned(*old(root), *final(root), r),
        well_formed(*old(root)) ==> well_formed(*final(root)),
{
    let ghost before = *root;
    let r = clean_root(root);
    proof {
        if well_formed(before) {
            law_cleaning_keeps_keys_distinct(before, *root, r);
        }
    }
    r
}

fn clean_root(root: &mut PlistValue) -> (r: Option<Result<usize, ControlCenterError>>)
    ensures
        control_center_cleaned(*old(root), *final(root), r),
{
    let ghost before = *root;
    let bytes = match tracked_applications_value(root) {
        None => return Some(Ok(0)),
        Some(value) => match tracked_applications_data(value) {
            Ok(bytes) => bytes,
            Err(error) => return Some(Err(error)),
        },
    };
    proof {
        let entries = root->Dictionary_0@;
        let k = choose|k: int| is_first_key(entries, tracked_applications_key(), k);
        assert forall|k2: int| is_first_key(entries, tracked_applications_key(), k2) implies k2 == k by {
            lemma_first_key_unique(entries, tracked_applications_key(), k, k2);
        }
    }
    let mut applications = match decode_xml_plist(bytes.as_slice()) {
        Ok(value) => value,
        Err(_) => match decode_plist(bytes.as_slice()) {
            Ok(value) => value,
            Err(error) => return Some(Err(ControlCenterError::InvalidPlist(error))),
        },
    };
    if !counts_fit(&applications) {
        return None;
    }
    let ghost decoded = applications;
    let removed = clean_tracked_applications(&mut applications);
    if removed == 0 {
        proof {
            assert(tracked_items_cleaned(before, *root, Some(Ok(0)), decoded, applications, 0));
        }
        return Some(Ok(0));
    }
    let ghost cleaned = applications;
    let encoded = match encode_binary_plist(applications) {
        Ok(encoded) => encoded,
        Err(error) => {
            proof {
                assert(tracked_items_cleaned(
                    before,
                    *root,
                    Some(Err(ControlCenterError::Encode(error))),
                    decoded,
                    cleaned,
                    removed as int,
                ));
            }
            return Some(Err(ControlCenterError::Encode(error)));
        },
    };
    replace_tracked_applications(root, encoded);
    proof {
        assert(tracked_items_cleaned(before, *root, Some(Ok(removed)), decoded, cleaned, removed as int));
    }
    Some(Ok(removed))
}


/// What cleaning the contents of the Control Center preferences file gives:
/// an error where they are no property list; else the outcome of
/// `control_center_cleaned` on the decoded preferences, with the new contents
/// of the file (their binary encoding) when something was removed.
pub open spec fn preferences_file_cleaned(
    contents: Seq<u8>,
    r: Option<Result<(usize, Option<Vec<u8>>), ControlCenterError>>,
) -> bool {
    match plist_decoded(contents) {
        None => r matches Some(Err(ControlCenterError::InvalidPlist(_))),
        Some(root) => exists|after: PlistValue, outcome: Option<Result<usize, ControlCenterError>>|
            #[trigger] control_center_cleaned(root, after, outcome) && file_outcome(after, outcome, r),
    }
}

/// Decoding `bytes` as the preferences file is decoded gives back every
/// value whose binary encoding they are.
pub open spec fn preferences_read_back(bytes: Seq<u8>) -> bool {
    forall|v: PlistValue| #[trigger] binary_plist_encoded(v) == Some(bytes) ==> plist_decoded(bytes) == Some(v)
}

/// Decoding `bytes` as the nested tracked items are decoded gives back
/// every value whose binary encoding they are.
pub open spec fn items_read_back(bytes: Seq<u8>) -> bool {
    forall|v: PlistValue| #[trigger] binary_plist_encoded(v) == Some(bytes) ==> decoded_applications(bytes)
        == Some(v)
}

/// The tracked items stored in the preferences `root`, if any, read back as
/// encoded.
pub open spec fn stored_items_read_back(root: PlistValue) -> bool {
    has_tracked_applications(root) ==> match applications_bytes(tracked_applications_of(root)) {
        Some(bytes) => items_read_back(bytes),
        None => true,
    }
}

/// The contents `written` read back as encoded, and so do the tracked
/// items stored in the preferences they hold.
pub open spec fn written_preferences_read_back(written: Seq<u8>) -> bool {
    &&& preferences_read_back(written)
    &&& match plist_decoded(written) {
        Some(root) => stored_items_read_back(root),
        None => true,
    }
}

/// After a replacement, the `trackedApplications` entry holds the new data.
proof fn lemma_replaced_entry(before: PlistValue, after: PlistValue, data: Seq<u8>)
    requires
        tracked_applications_replaced(before, after, data),
    ensures
        has_tracked_applications(after),
        tracked_applications_of(after) matches PlistValue::Data(d) && d@ == data,
{
    let entries = before->Dictionary_0@;
    let updated = after->Dictionary_0@;
    let k = choose|k: int| is_first_key(entries, tracked_applications_key(), k);
    assert forall|j: int| 0 <= j < k implies updated[j].0@ != tracked_applications_key() by {
        assert(updated[j] == entries[j]);
    }
    assert(is_first_key(updated, tracked_applications_key(), k));
    let k2 = choose|k2: int| is_first_key(updated, tracked_applications_key(), k2);
    lemma_first_key_unique(updated, tracked_applications_key(), k, k2);
}

/// Cleaning preferences that a clean-up has just rewritten removes nothing
/// and leaves them as they are, provided the tracked items stored by the
/// rewrite decode back to the cleaned items that were encoded.
pub proof fn law_cleaning_rewritten_preferences_removes_nothing(
    before: PlistValue,
    after: PlistValue,
    n: usize,
    again: PlistValue,
    r: Option<Result<usize, ControlCenterError>>,
)
    requires
        control_center_cleaned(before, after, Some(Ok(n))),
        n > 0,
        stored_items_read_back(after),
        control_center_cleaned(after, again, r),
    ensures
        r == Some(Ok::<usize, ControlCenterError>(0)),
        again == after,
{
    let value = tracked_applications_of(before);
    let bytes = applications_bytes(value)->0;
    let applications = decoded_applications(bytes)->0;
    let (cleaned, m) = choose|cleaned: PlistValue, m: int|
        tracked_items_cleaned(before, after, Some(Ok::<usize, ControlCenterError>(n)), applications, cleaned, m);
    let encoded = binary_plist_encoded(cleaned)->0;
    lemma_replaced_entry(before, after, encoded);
    assert(binary_plist_encoded(cleaned) == Some(encoded));
    assert(decoded_applications(encoded) == Some(cleaned));
    law_cleaned_array_mentions_no_paneru(applications, cleaned, m);
    law_cleaning_keeps_counts_fitting(applications, cleaned, m);
    let (cleaned2, m2) = choose|cleaned2: PlistValue, m2: int|
        tracked_items_cleaned(after, again, r, cleaned, cleaned2, m2);
    law_clean_without_paneru_removes_nothing(cleaned, cleaned2, m2);
}

/// Keeping every element means that none mentions Paneru.
proof fn lemma_kept_everything(s: Seq<PlistValue>)
    requires
        kept_without_paneru(s).len() == s.len(),
    ensures
        !any_mentions_paneru(s),
    decreases s.len(),
{
    if s.len() > 0 {
        lemma_kept_len(s.drop_last());
        if !mentions_paneru(s.last()) {
            lemma_kept_everything(s.drop_last());
        }
    }
}

/// Non-negative numbers have a non-negative sum, which is zero only when
/// they all are.
proof fn lemma_sum_nonnegative_zero(s: Seq<int>)
    requires
        forall|i: int| 0 <= i < s.len() ==> s[i] >= 0,
    ensures
        sum(s) >= 0,
        sum(s) == 0 ==> forall|i: int| 0 <= i < s.len() ==> s[i] == 0,
    decreases s.len(),
{
    if s.len() > 0 {
        let rest = s.drop_last();
        assert forall|i: int| 0 <= i < rest.len() implies rest[i] >= 0 by {
            assert(rest[i] == s[i]);
        }
        lemma_sum_nonnegative_zero(rest);
        if sum(s) == 0 {
            assert forall|i: int| 0 <= i < s.len() implies s[i] == 0 by {
                if i < s.len() - 1 {
                    assert(rest[i] == s[i]);
                }
            }
        }
    }
}

/// An item from which stripping removes nothing, and which is then free of
/// Paneru, was free of Paneru before.
proof fn lemma_strip_nothing_mention_free(before: PlistValue, after: PlistValue)
    requires
        locations_stripped(before, after, 0),
        !mentions_paneru(after),
    ensures
        !mentions_paneru(before),
{
    match before {
        PlistValue::Dictionary(entries) => {
            if exists|k: int| is_first_key(entries@, menu_item_locations_key(), k)
                && entries@[k].1 is Array {
                let k = choose|k: int| is_first_key(entries@, menu_item_locations_key(), k)
                    && entries@[k].1 is Array;
                let locations = entries@[k].1->Array_0@;
                lemma_kept_everything(locations);
                let stripped = after->Dictionary_0@;
                lemma_dictionary_mentions_paneru(stripped);
                lemma_dictionary_mentions_paneru(entries@);
                assert forall|j: int| 0 <= j < entries@.len() implies !(key_mentions_paneru(
                    #[trigger] entries@[j].0@) || mentions_paneru(entries@[j].1)) by {
                    if j != k {
                        assert(stripped[j] == entries@[j]);
                    } else {
                        assert(!key_mentions_paneru(stripped[k].0@));
                    }
                }
            }
        },
        _ => {},
    }
}

/// A `trackedApplications` array from which cleaning removes nothing does
/// not mention Paneru.
proof fn lemma_nothing_removed_mention_free(before: PlistValue, after: PlistValue)
    requires
        before is Array,
        applications_cleaned(before, after, 0),
    ensures
        !mentions_paneru(before),
{
    let items = before->Array_0@;
    let out = after->Array_0;
    let (stripped, counts) = choose|stripped: Seq<PlistValue>, counts: Seq<int>|
        cleaning_witnessed(items, out@, 0, stripped, counts);
    assert forall|i: int| 0 <= i < counts.len() implies counts[i] >= 0 by {
        lemma_stripped_bound(items[i], stripped[i], counts[i]);
    }
    lemma_sum_nonnegative_zero(counts);
    lemma_kept_len(stripped);
    lemma_kept_everything(stripped);
    lemma_any_mentions_paneru(stripped);
    lemma_any_mentions_paneru(items);
    assert forall|i: int| 0 <= i < items.len() implies !mentions_paneru(#[trigger] items[i]) by {
        assert(counts[i] == 0);
        assert(!mentions_paneru(stripped[i]));
        lemma_strip_nothing_mention_free(items[i], stripped[i]);
    }
}

/// Counts each at most the locations of their item sum to at most the
/// locations of all items.
proof fn lemma_sum_within_locations(items: Seq<PlistValue>, counts: Seq<int>)
    requires
        counts.len() == items.len(),
        forall|i: int| 0 <= i < items.len() ==> 0 <= #[trigger] counts[i] <= location_count(items[i]),
    ensures
        0 <= sum(counts) <= total_locations(items),
    decreases items.len(),
{
    if items.len() > 0 {
        let (a, b) = (items.drop_last(), counts.drop_last());
        assert forall|i: int| 0 <= i < a.len() implies 0 <= #[trigger] b[i] <= location_count(a[i]) by {
            assert(a[i] == items[i]);
            assert(b[i] == counts[i]);
        }
        lemma_sum_within_locations(a, b);
        assert(counts.last() == counts[counts.len() - 1]);
    }
}

/// What cleaning removes from a `trackedApplications` value whose counts
/// fit in a `usize` fits in a `usize` too.
proof fn lemma_removed_fits(before: PlistValue, after: PlistValue, removed: int)
    requires
        application_count_fits(before),
        applications_cleaned(before, after, removed),
    ensures
        0 <= removed <= usize::MAX,
{
    if before is Array {
        let items = before->Array_0@;
        let out = after->Array_0;
        let (stripped, counts) = choose|stripped: Seq<PlistValue>, counts: Seq<int>|
            cleaning_witnessed(items, out@, removed, stripped, counts);
        assert forall|i: int| 0 <= i < items.len() implies 0 <= #[trigger] counts[i] <= location_count(
            items[i]) by {
            lemma_stripped_bound(items[i], stripped[i], counts[i]);
        }
        lemma_sum_within_locations(items, counts);
        lemma_kept_len(stripped);
    }
}

/// Cleaning preferences again after a clean-up that removed nothing, and so
/// left them as they were, removes nothing again.
pub proof fn law_cleaning_unchanged_preferences_removes_nothing(
    before: PlistValue,
    after: PlistValue,
    again: PlistValue,
    r: Option<Result<usize, ControlCenterError>>,
)
    requires
        control_center_cleaned(before, after, Some(Ok(0))),
        control_center_cleaned(before, again, r),
    ensures
        after == before,
        r == Some(Ok::<usize, ControlCenterError>(0)),
        again == before,
{
    if has_tracked_applications(before) {
        let value = tracked_applications_of(before);
        let bytes = applications_bytes(value)->0;
        let applications = decoded_applications(bytes)->0;
        let (cleaned, m) = choose|cleaned: PlistValue, m: int|
            tracked_items_cleaned(before, after, Some(Ok::<usize, ControlCenterError>(0)), applications, cleaned, m);
        let (cleaned2, m2) = choose|cleaned2: PlistValue, m2: int|
            tracked_items_cleaned(before, again, r, applications, cleaned2, m2);
        lemma_removed_fits(applications, cleaned, m);
        if applications is Array {
            lemma_nothing_removed_mention_free(applications, cleaned);
            law_clean_without_paneru_removes_nothing(applications, cleaned2, m2);
        }
    }
}

/// What a clean-up of the preferences file outputs, `r`, when its outcome on
/// the decoded preferences is `outcome` and leaves them as `after`.
pub open spec fn file_outcome(
    after: PlistValue,
    outcome: Option<Result<usize, ControlCenterError>>,
    r: Option<Result<(usize, Option<Vec<u8>>), ControlCenterError>>,
) -> bool {
    match outcome {
        None => r is None,
        Some(Err(error)) => r matches Some(Err(e)) && e == error,
        Some(Ok(n)) => if n == 0 {
            r matches Some(Ok((0, None)))
        } else {
            match binary_plist_encoded(after) {
                None => r matches Some(Err(ControlCenterError::Encode(_))),
                Some(encoded) => r matches Some(Ok((m, Some(bytes)))) && m == n && bytes@ == encoded,
            }
        },
    }
}

/// The contents of the preferences file after a clean-up of `contents` that
/// gave `r`: the new contents where it gave some, else `contents`.
pub open spec fn contents_after(
    contents: Seq<u8>,
    r: Option<Result<(usize, Option<Vec<u8>>), ControlCenterError>>,
) -> Seq<u8> {
    match r {
        Some(Ok((_, Some(written)))) => written@,
        _ => contents,
    }
}

/// Cleaning the preferences file twice: once a clean-up has succeeded, a
/// second clean-up of the file it left removes nothing and asks for no
/// rewrite. Where the first one rewrote the file, this holds provided the
/// new contents, and the tracked items stored in them, decode back to what
/// was encoded.
pub proof fn law_cleaning_file_twice_removes_nothing(
    contents: Seq<u8>,
    first: Option<Result<(usize, Option<Vec<u8>>), ControlCenterError>>,
    again: Option<Result<(usize, Option<Vec<u8>>), ControlCenterError>>,
)
    requires
        preferences_file_cleaned(contents, first),
        first is Some && first->0 is Ok,
        first matches Some(Ok((_, Some(written)))) ==> written_preferences_read_back(written@),
        preferences_file_cleaned(contents_after(contents, first), again),
    ensures
        again matches Some(Ok((0, None))),
{
    let root = plist_decoded(contents)->0;
    let (after, outcome) = choose|after: PlistValue, outcome: Option<Result<usize, ControlCenterError>>|
        #[trigger] control_center_cleaned(root, after, outcome) && file_outcome(after, outcome, first);
    let next = contents_after(contents, first);
    let n = outcome->0->Ok_0;
    if n == 0 {
        assert(next == contents);
        let (again_after, again_outcome) = choose|
            again_after: PlistValue,
            again_outcome: Option<Result<usize, ControlCenterError>>,
        | #[trigger] control_center_cleaned(root, again_after, again_outcome) && file_outcome(
            again_after,
            again_outcome,
            again,
        );
        law_cleaning_unchanged_preferences_removes_nothing(root, after, again_after, again_outcome);
    } else {
        assert(binary_plist_encoded(after) == Some(next));
        assert(plist_decoded(next) == Some(after));
        let (again_after, again_outcome) = choose|
            again_after: PlistValue,
            again_outcome: Option<Result<usize, ControlCenterError>>,
        | #[trigger] control_center_cleaned(after, again_after, again_outcome) && file_outcome(
            again_after,
            again_outcome,
            again,
        );
        law_cleaning_rewritten_preferences_removes_nothing(root, after, n, again_after, again_outcome);
    }
}

/// Removes Paneru's entries from the contents of the Control Center
/// preferences file. The contents are decoded as a property list of any
/// encoding and cleaned as `control_center_cleaned` describes. The result
/// is the number removed and, when something was removed, the new contents
/// of the file (the cleaned preferences as a binary property list); an
/// error; or `None` where the counts would not fit in a `usize`.
pub fn remove_menu_bar_entries_from_control_center_plist(contents: &[u8])
    -> (r: Option<Result<(usize, Option<Vec<u8>>), ControlCenterError>>)
    ensures
        preferences_file_cleaned(contents@, r),
{
    let mut root = match decode_plist(contents) {
        Ok(root) => root,
        Err(error) => return Some(Err(ControlCenterError::InvalidPlist(error))),
    };
    let ghost before = root;
    let outcome = clean_control_center(&mut root);
    let ghost after = root;
    proof {
        assert(control_center_cleaned(before, after, outcome));
    }
    match outcome {
        None => None,
        Some(Err(error)) => Some(Err(error)),
        Some(Ok(removed)) => {
            if removed == 0 {
                return Some(Ok((0, None)));
            }
            match encode_binary_plist(root) {
                Ok(bytes) => Some(Ok((removed, Some(bytes)))),
                Err(error) => Some(Err(ControlCenterError::Encode(error))),
            }
        },
    }
}


/// Keeping the elements that do not mention Paneru keeps well-formedness.
pub proof fn lemma_kept_well_formed(s: Seq<PlistValue>)
    requires
        all_well_formed(s),
    ensures
        all_well_formed(kept_without_paneru(s)),
    decreases s.len(),
{
    if s.len() > 0 {
        lemma_kept_well_formed(s.drop_last());
        let rest = kept_without_paneru(s.drop_last());
        if !mentions_paneru(s.last()) {
            assert(rest.push(s.last()).drop_last() =~= rest);
        }
    }
}

/// Stripping keeps well-formedness.
pub proof fn lemma_strip_well_formed(before: PlistValue, after: PlistValue, removed: int)
    requires
        well_formed(before),
        locations_stripped(before, after, removed),
    ensures
        well_formed(after),
{
    match before {
        PlistValue::Dictionary(entries) => {
            if exists|k: int| is_first_key(entries@, menu_item_locations_key(), k)
                && entries@[k].1 is Array {
                let k = choose|k: int| is_first_key(entries@, menu_item_locations_key(), k)
                    && entries@[k].1 is Array;
                let locations = entries@[k].1->Array_0@;
                let stripped = after->Dictionary_0@;
                lemma_entries_well_formed(entries@);
                lemma_entries_well_formed(stripped);
                assert(well_formed(entries@[k].1));
                lemma_kept_well_formed(locations);
                assert forall|i: int, j: int| 0 <= i < j < stripped.len() implies stripped[i].0@ != stripped[j].0@ by {
                    assert(stripped[i].0 == entries@[i].0);
                    assert(stripped[j].0 == entries@[j].0);
                }
                assert forall|i: int| 0 <= i < stripped.len() implies #[trigger] well_formed(stripped[i].1) by {
                    if i != k {
                        assert(stripped[i] == entries@[i]);
                    }
                }
            }
        },
        _ => {},
    }
}

/// Cleaning the tracked items keeps well-formedness.
pub proof fn lemma_cleaned_well_formed(before: PlistValue, after: PlistValue, removed: int)
    requires
        well_formed(before),
        applications_cleaned(before, after, removed),
    ensures
        well_formed(after),
{
    if before is Array {
        let items = before->Array_0@;
        let out = after->Array_0;
        let (stripped, counts) = choose|stripped: Seq<PlistValue>, counts: Seq<int>|
            cleaning_witnessed(items, out@, removed, stripped, counts);
        lemma_all_well_formed(items);
        assert forall|i: int| 0 <= i < stripped.len() implies #[trigger] well_formed(stripped[i]) by {
            assert(well_formed(items[i]));
            lemma_strip_well_formed(items[i], stripped[i], counts[i]);
        }
        lemma_all_well_formed(stripped);
        lemma_kept_well_formed(stripped);
    }
}

/// Replacing the `trackedApplications` value by data keeps well-formedness.
pub proof fn lemma_replaced_well_formed(before: PlistValue, after: PlistValue, data: Seq<u8>)
    requires
        well_formed(before),
        tracked_applications_replaced(before, after, data),
    ensures
        well_formed(after),
{
    let entries = before->Dictionary_0@;
    let updated = after->Dictionary_0@;
    let k = choose|k: int| is_first_key(entries, tracked_applications_key(), k);
    lemma_entries_well_formed(entries);
    lemma_entries_well_formed(updated);
    assert forall|i: int, j: int| 0 <= i < j < updated.len() implies updated[i].0@ != updated[j].0@ by {
        assert(updated[i].0 == entries[i].0);
        assert(updated[j].0 == entries[j].0);
    }
    assert forall|i: int| 0 <= i < updated.len() implies #[trigger] well_formed(updated[i].1) by {
        if i != k {
            assert(updated[i] == entries[i]);
        }
    }
}

/// Cleaning the Control Center preferences keeps every dictionary's keys
/// distinct.
pub proof fn law_cleaning_keeps_keys_distinct(
    before: PlistValue,
    after: PlistValue,
    r: Option<Result<usize, ControlCenterError>>,
)
    requires
        well_formed(before),
        control_center_cleaned(before, after, r),
    ensures
        well_formed(after),
{
    if has_tracked_applications(before) {
        let value = tracked_applications_of(before);
        if value is Data || value is String {
            if let Some(bytes) = applications_bytes(value) {
                if let Some(applications) = decoded_applications(bytes) {
                    if application_count_fits(applications) {
                        let (cleaned, n) = choose|cleaned: PlistValue, n: int|
                            tracked_items_cleaned(before, after, r, applications, cleaned, n);
                        if n != 0 {
                            if let Some(encoded) = binary_plist_encoded(cleaned) {
                                lemma_replaced_well_formed(before, after, encoded);
                            }
                        }
                    }
                }
            }
        }
    }
}


/// Stripping lists no more locations than before.
pub proof fn lemma_strip_location_count(before: PlistValue, after: PlistValue, removed: int)
    requires
        locations_stripped(before, after, removed),
    ensures
        location_count(after) <= location_count(before),
{
    match before {
        PlistValue::Dictionary(entries) => {
            if exists|k: int| is_first_key(entries@, menu_item_locations_key(), k)
                && entries@[k].1 is Array {
                let k = choose|k: int| is_first_key(entries@, menu_item_locations_key(), k)
                    && entries@[k].1 is Array;
                let locations = entries@[k].1->Array_0@;
                let stripped = after->Dictionary_0@;
                assert forall|j: int| 0 <= j < stripped.len() implies #[trigger] stripped[j].0 == entries@[j].0 by {
                    if j != k {
                        assert(stripped[j] == entries@[j]);
                    }
                }
                assert(is_first_key(stripped, menu_item_locations_key(), k));
                let k2 = choose|k2: int| is_first_key(stripped, menu_item_locations_key(), k2)
                    && stripped[k2].1 is Array;
                lemma_first_key_unique(stripped, menu_item_locations_key(), k, k2);
                lemma_kept_len(locations);
            }
        },
        _ => {},
    }
}

/// Lists with no more locations item by item list no more in total.
pub proof fn lemma_total_locations_pointwise(a: Seq<PlistValue>, b: Seq<PlistValue>)
    requires
        a.len() == b.len(),
        forall|i: int| 0 <= i < a.len() ==> location_count(#[trigger] b[i]) <= location_count(a[i]),
    ensures
        total_locations(b) <= total_locations(a),
    decreases a.len(),
{
    if a.len() > 0 {
        assert forall|i: int| 0 <= i < a.drop_last().len() implies location_count(#[trigger] b.drop_last()[i])
            <= location_count(a.drop_last()[i]) by {
            assert(b.drop_last()[i] == b[i]);
            assert(a.drop_last()[i] == a[i]);
        }
        lemma_total_locations_pointwise(a.drop_last(), b.drop_last());
        assert(location_count(b[a.len() - 1]) <= location_count(a[a.len() - 1]));
    }
}

/// The kept items list no more locations than all items.
pub proof fn lemma_total_locations_kept(s: Seq<PlistValue>)
    ensures
        total_locations(kept_without_paneru(s)) <= total_locations(s),
    decreases s.len(),
{
    if s.len() > 0 {
        lemma_total_locations_kept(s.drop_last());
        let rest = kept_without_paneru(s.drop_last());
        if !mentions_paneru(s.last()) {
            assert(rest.push(s.last()).drop_last() =~= rest);
        }
        assert(location_count(s.last()) >= 0);
    }
}

/// Cleaning keeps the counts within a `usize`, so the cleaned value may be
/// cleaned again without a new check.
pub proof fn law_cleaning_keeps_counts_fitting(before: PlistValue, after: PlistValue, removed: int)
    requires
        application_count_fits(before),
        applications_cleaned(before, after, removed),
    ensures
        application_count_fits(after),
{
    if before is Array {
        let items = before->Array_0@;
        let out = after->Array_0;
        let (stripped, counts) = choose|stripped: Seq<PlistValue>, counts: Seq<int>|
            cleaning_witnessed(items, out@, removed, stripped, counts);
        assert forall|i: int| 0 <= i < items.len() implies location_count(#[trigger] stripped[i])
            <= location_count(items[i]) by {
            lemma_strip_location_count(items[i], stripped[i], counts[i]);
        }
        lemma_total_locations_pointwise(items, stripped);
        lemma_total_locations_kept(stripped);
        lemma_kept_len(stripped);
    }
}

} // verus!
