//! Machine labels and the rule by which the `rv.*` labels are updated.

use crate::text::same_text;
use vstd::prelude::*;
use vstd::string::*;

verus! {

/// Whether a label key belongs to rack validation: it starts with `rv.`.
pub open spec fn is_rv(key: Seq<char>) -> bool {
    seq!['r', 'v', '.'].is_prefix_of(key)
}

/// The map that results from entering `pairs` one after the other: of two pairs
/// with the same key the later one stays.
pub open spec fn collect(pairs: Seq<(Seq<char>, Seq<char>)>) -> Map<Seq<char>, Seq<char>>
    decreases pairs.len(),
{
    if pairs.len() == 0 {
        Map::empty()
    } else {
        collect(pairs.drop_last()).insert(pairs.last().0, pairs.last().1)
    }
}

/// Whether no key occurs twice in `pairs`.
pub open spec fn distinct_keys(pairs: Seq<(Seq<char>, Seq<char>)>) -> bool {
    forall|i: int, j: int|
        0 <= i < j < pairs.len() ==> (#[trigger] pairs[i]).0 != (#[trigger] pairs[j]).0
}

/// The texts of a sequence of key and value strings.
pub open spec fn pair_texts(entries: Seq<(String, String)>) -> Seq<(Seq<char>, Seq<char>)> {
    entries.map_values(|e: (String, String)| (e.0@, e.1@))
}

/// The keys of a collected map are the keys of the pairs.
pub(crate) proof fn lemma_collect_keys(pairs: Seq<(Seq<char>, Seq<char>)>, k: Seq<char>)
    ensures
        collect(pairs).contains_key(k) <==> exists|i: int|
            0 <= i < pairs.len() && (#[trigger] pairs[i]).0 == k,
    decreases pairs.len(),
{
    if pairs.len() > 0 {
        let rest = pairs.drop_last();
        lemma_collect_keys(rest, k);
        if collect(pairs).contains_key(k) {
            if k == pairs.last().0 {
                assert(pairs[pairs.len() - 1].0 == k);
            } else {
                let i = choose|i: int| 0 <= i < rest.len() && (#[trigger] rest[i]).0 == k;
                assert(pairs[i].0 == k);
            }
        }
        if exists|i: int| 0 <= i < pairs.len() && (#[trigger] pairs[i]).0 == k {
            let i = choose|i: int| 0 <= i < pairs.len() && (#[trigger] pairs[i]).0 == k;
            if i < rest.len() {
                assert(rest[i].0 == k);
            }
        }
    }
}

/// Without the last pair distinct keys stay distinct.
proof fn lemma_distinct_drop_last(pairs: Seq<(Seq<char>, Seq<char>)>)
    requires
        distinct_keys(pairs),
        pairs.len() > 0,
    ensures
        distinct_keys(pairs.drop_last()),
{
    let rest = pairs.drop_last();
    assert forall|a: int, b: int| 0 <= a < b < rest.len() implies (#[trigger] rest[a]).0 != (
    #[trigger] rest[b]).0 by {
        assert(pairs[a].0 != pairs[b].0);
    }
}

/// With distinct keys every pair is an entry of the collected map.
pub(crate) proof fn lemma_collect_entry(pairs: Seq<(Seq<char>, Seq<char>)>, i: int)
    requires
        distinct_keys(pairs),
        0 <= i < pairs.len(),
    ensures
        collect(pairs).contains_key(pairs[i].0),
        collect(pairs)[pairs[i].0] == pairs[i].1,
    decreases pairs.len(),
{
    let rest = pairs.drop_last();
    if i < rest.len() {
        lemma_distinct_drop_last(pairs);
        lemma_collect_entry(rest, i);
        assert(rest[i] == pairs[i]);
        assert(pairs[i].0 != pairs[pairs.len() - 1].0);
    }
}

/// With distinct keys the collected map has as many entries as there are pairs.
proof fn lemma_collect_len(pairs: Seq<(Seq<char>, Seq<char>)>)
    requires
        distinct_keys(pairs),
    ensures
        collect(pairs).dom().finite(),
        collect(pairs).len() == pairs.len(),
    decreases pairs.len(),
{
    if pairs.len() > 0 {
        let rest = pairs.drop_last();
        lemma_distinct_drop_last(pairs);
        lemma_collect_len(rest);
        lemma_collect_keys(rest, pairs.last().0);
        assert(!collect(rest).contains_key(pairs.last().0)) by {
            assert forall|i: int| 0 <= i < rest.len() implies (#[trigger] rest[i]).0
                != pairs.last().0 by {
                assert(pairs[i].0 != pairs[pairs.len() - 1].0);
            }
        }
    }
}

/// Replacing the value of one pair replaces the value of its key.
proof fn lemma_collect_update(pairs: Seq<(Seq<char>, Seq<char>)>, i: int, v: Seq<char>)
    requires
        distinct_keys(pairs),
        0 <= i < pairs.len(),
    ensures
        distinct_keys(pairs.update(i, (pairs[i].0, v))),
        collect(pairs.update(i, (pairs[i].0, v))) == collect(pairs).insert(pairs[i].0, v),
{
    let k = pairs[i].0;
    let after = pairs.update(i, (k, v));
    assert forall|a: int, b: int| 0 <= a < b < after.len() implies (#[trigger] after[a]).0 != (
    #[trigger] after[b]).0 by {
        assert(pairs[a].0 != pairs[b].0);
    }
    assert forall|key: Seq<char>| #[trigger]
        collect(after).contains_key(key) == collect(pairs).insert(k, v).contains_key(key) by {
        lemma_collect_keys(after, key);
        lemma_collect_keys(pairs, key);
        if collect(after).contains_key(key) {
            let j = choose|j: int| 0 <= j < after.len() && (#[trigger] after[j]).0 == key;
            assert(pairs[j].0 == key);
        }
        if collect(pairs).contains_key(key) {
            let j = choose|j: int| 0 <= j < pairs.len() && (#[trigger] pairs[j]).0 == key;
            assert(after[j].0 == key);
        }
        if key == k {
            assert(after[i].0 == key);
        }
    }
    assert forall|key: Seq<char>| #[trigger] collect(after).contains_key(key) implies collect(
        after,
    )[key] == collect(pairs).insert(k, v)[key] by {
        lemma_collect_keys(after, key);
        let j = choose|j: int| 0 <= j < after.len() && (#[trigger] after[j]).0 == key;
        lemma_collect_entry(after, j);
        lemma_collect_entry(pairs, j);
        if j != i {
            if j < i {
                assert(pairs[j].0 != pairs[i].0);
            } else {
                assert(pairs[i].0 != pairs[j].0);
            }
        }
    }
    assert(collect(after) =~= collect(pairs).insert(k, v));
}

/// A map from label key to label value.
#[derive(Debug)]
pub struct LabelMap {
    entries: Vec<(String, String)>,
}

impl View for LabelMap {
    type V = Map<Seq<char>, Seq<char>>;

    closed spec fn view(&self) -> Map<Seq<char>, Seq<char>> {
        collect(pair_texts(self.entries@))
    }
}

impl LabelMap {
    #[verifier::type_invariant]
    spec fn no_key_twice(self) -> bool {
        distinct_keys(pair_texts(self.entries@))
    }

    /// An empty map.
    pub fn new() -> (m: LabelMap)
        ensures
            m@ == Map::<Seq<char>, Seq<char>>::empty(),
    {
        LabelMap { entries: Vec::new() }
    }

    /// Where `key` stands among the entries.
    fn position(&self, key: &str) -> (at: Option<usize>)
        ensures
            at matches Some(i) ==> i < self.entries@.len() && self.entries@[i as int].0@ == key@,
            at is None ==> !self@.contains_key(key@),
    {
        let mut i: usize = 0;
        while i < self.entries.len()
            invariant
                i <= self.entries@.len(),
                forall|j: int| 0 <= j < i ==> (#[trigger] self.entries@[j]).0@ != key@,
            decreases self.entries@.len() - i,
        {
            if same_text(self.entries[i].0.as_str(), key) {
                return Some(i);
            }
            i = i + 1;
        }
        proof {
            let pairs = pair_texts(self.entries@);
            lemma_collect_keys(pairs, key@);
            assert forall|j: int| 0 <= j < pairs.len() implies (#[trigger] pairs[j]).0 != key@ by {
                assert(self.entries@[j].0@ != key@);
            }
        }
        None
    }

    /// Sets the value of `key`.
    pub fn insert(&mut self, key: String, value: String)
        ensures
            final(self)@ == old(self)@.insert(key@, value@),
    {
        proof {
            use_type_invariant(&*self);
        }
        let at = self.position(key.as_str());
        let mut entries: Vec<(String, String)> = Vec::new();
        std::mem::swap(&mut entries, &mut self.entries);
        let ghost before = pair_texts(entries@);
        match at {
            Some(i) => {
                proof {
                    lemma_collect_update(before, i as int, value@);
                }
                entries.set(i, (key, value));
                assert(pair_texts(entries@) =~= before.update(i as int, (key@, value@)));
            },
            None => {
                entries.push((key, value));
                let ghost after = pair_texts(entries@);
                assert(after.drop_last() =~= before);
                assert(after.last() == (key@, value@));
                proof {
                    lemma_collect_keys(before, key@);
                    assert forall|a: int, b: int| 0 <= a < b < after.len() implies (
                    #[trigger] after[a]).0 != (#[trigger] after[b]).0 by {
                        if b < before.len() {
                            assert(before[a].0 != before[b].0);
                        } else {
                            assert(before[a].0 != key@);
                        }
                    }
                }
            },
        }
        self.entries = entries;
    }

    /// The value of `key`.
    pub fn get(&self, key: &str) -> (value: Option<&String>)
        ensures
            value is Some <==> self@.contains_key(key@),
            value matches Some(v) ==> v@ == self@[key@],
    {
        proof {
            use_type_invariant(self);
        }
        match self.position(key) {
            Some(i) => {
                proof {
                    lemma_collect_entry(pair_texts(self.entries@), i as int);
                }
                Some(&self.entries[i].1)
            },
            None => None,
        }
    }

    /// Whether `key` has a value.
    pub fn contains_key(&self, key: &str) -> (found: bool)
        ensures
            found == self@.contains_key(key@),
    {
        self.get(key).is_some()
    }

    /// The number of keys.
    pub fn len(&self) -> (n: usize)
        ensures
            self@.dom().finite(),
            n == self@.len(),
    {
        proof {
            use_type_invariant(self);
            lemma_collect_len(pair_texts(self.entries@));
        }
        self.entries.len()
    }

    /// The entries, each key once.
    pub fn entries(&self) -> (entries: &Vec<(String, String)>)
        ensures
            distinct_keys(pair_texts(entries@)),
            collect(pair_texts(entries@)) == self@,
    {
        proof {
            use_type_invariant(self);
        }
        &self.entries
    }
}

impl PartialEq for LabelMap {
    fn eq(&self, other: &LabelMap) -> (same: bool) {
        let same = self.within(other) && other.within(self);
        proof {
            self@.lemma_submap_eq_iff(other@);
        }
        same
    }
}

impl vstd::std_specs::cmp::PartialEqSpecImpl for LabelMap {
    open spec fn obeys_eq_spec() -> bool {
        true
    }

    open spec fn eq_spec(&self, other: &LabelMap) -> bool {
        self@ == other@
    }
}

impl LabelMap {
    /// Whether every entry is an entry of `other` too.
    fn within(&self, other: &LabelMap) -> (within: bool)
        ensures
            within == self@.submap_of(other@),
    {
        proof {
            use_type_invariant(self);
        }
        let ghost pairs = pair_texts(self.entries@);
        let mut i: usize = 0;
        while i < self.entries.len()
            invariant
                i <= self.entries@.len(),
                pairs == pair_texts(self.entries@),
                distinct_keys(pairs),
                self@ == collect(pairs),
                forall|j: int|
                    0 <= j < i ==> other@.contains_key((#[trigger] pairs[j]).0)
                        && other@[pairs[j].0] == pairs[j].1,
            decreases self.entries@.len() - i,
        {
            let found = match other.get(self.entries[i].0.as_str()) {
                Some(v) => same_text(v.as_str(), self.entries[i].1.as_str()),
                None => false,
            };
            assert(pairs[i as int] == (self.entries@[i as int].0@, self.entries@[i as int].1@));
            if !found {
                proof {
                    lemma_collect_entry(pairs, i as int);
                    assert(self@.dom().contains(pairs[i as int].0));
                }
                return false;
            }
            i = i + 1;
        }
        proof {
            assert forall|k: Seq<char>| #[trigger] self@.dom().contains(k) implies other@.dom().contains(k)
                && self@[k] == other@[k] by {
                lemma_collect_keys(pairs, k);
                let j = choose|j: int| 0 <= j < pairs.len() && (#[trigger] pairs[j]).0 == k;
                lemma_collect_entry(pairs, j);
            }
        }
        true
    }
}

/// Whether a label key starts with `rv.`.
pub fn is_rv_key(key: &str) -> (rv: bool)
    ensures
        rv == is_rv(key@),
{
    if key.unicode_len() < 3 {
        return false;
    }
    let rv = key.get_char(0) == 'r' && key.get_char(1) == 'v' && key.get_char(2) == '.';
    proof {
        let prefix = seq!['r', 'v', '.'];
        if rv {
            assert(prefix =~= key@.subrange(0, 3));
        } else {
            assert(key@.subrange(0, 3)[0] == key@[0]);
            assert(key@.subrange(0, 3)[1] == key@[1]);
            assert(key@.subrange(0, 3)[2] == key@[2]);
        }
    }
    rv
}

/// The entries of `labels` whose keys do not start with `rv.`.
pub open spec fn others(labels: Map<Seq<char>, Seq<char>>) -> Map<Seq<char>, Seq<char>> {
    Map::new(|k: Seq<char>| labels.contains_key(k) && !is_rv(k), |k: Seq<char>| labels[k])
}

/// The entries of `labels` whose keys start with `rv.`.
pub open spec fn rv_only(labels: Map<Seq<char>, Seq<char>>) -> Map<Seq<char>, Seq<char>> {
    Map::new(|k: Seq<char>| labels.contains_key(k) && is_rv(k), |k: Seq<char>| labels[k])
}

/// Whether every key of `labels` starts with `rv.`.
pub open spec fn all_rv(labels: Map<Seq<char>, Seq<char>>) -> bool {
    forall|k: Seq<char>| #[trigger] labels.contains_key(k) ==> is_rv(k)
}

/// The label map after an update: the labels outside `rv.*` and, over them, the
/// updates.
pub open spec fn merged(
    existing: Map<Seq<char>, Seq<char>>,
    updates: Map<Seq<char>, Seq<char>>,
) -> Map<Seq<char>, Seq<char>> {
    others(existing).union_prefer_right(updates)
}

/// Merges `rv.*` label updates into the full label map of a machine.
///
/// Keeps the keys outside `rv.*`, sets every key of `updates`, and drops the
/// `rv.*` keys that `updates` does not hold.
pub fn merge_rv_labels(existing: &LabelMap, updates: &LabelMap) -> (result: LabelMap)
    ensures
        result@ == merged(existing@, updates@),
{
    let mut result = LabelMap::new();
    let kept = existing.entries();
    let ghost old_pairs = pair_texts(kept@);
    let mut i: usize = 0;
    assert(result@ =~= others(collect(old_pairs.take(0))));
    while i < kept.len()
        invariant
            i <= kept@.len(),
            old_pairs == pair_texts(kept@),
            result@ == others(collect(old_pairs.take(i as int))),
        decreases kept@.len() - i,
    {
        assert(old_pairs.take(i + 1).drop_last() =~= old_pairs.take(i as int));
        assert(old_pairs.take(i + 1).last() == (kept@[i as int].0@, kept@[i as int].1@));
        if !is_rv_key(kept[i].0.as_str()) {
            result.insert(kept[i].0.clone(), kept[i].1.clone());
        }
        i = i + 1;
        assert(result@ =~= others(collect(old_pairs.take(i as int))));
    }
    assert(old_pairs.take(kept@.len() as int) =~= old_pairs);
    let added = updates.entries();
    let ghost new_pairs = pair_texts(added@);
    let mut j: usize = 0;
    assert(result@ =~= others(existing@).union_prefer_right(collect(new_pairs.take(0))));
    while j < added.len()
        invariant
            j <= added@.len(),
            new_pairs == pair_texts(added@),
            result@ == others(existing@).union_prefer_right(collect(new_pairs.take(j as int))),
        decreases added@.len() - j,
    {
        assert(new_pairs.take(j + 1).drop_last() =~= new_pairs.take(j as int));
        assert(new_pairs.take(j + 1).last() == (added@[j as int].0@, added@[j as int].1@));
        result.insert(added[j].0.clone(), added[j].1.clone());
        j = j + 1;
        assert(result@ =~= others(existing@).union_prefer_right(
            collect(new_pairs.take(j as int)),
        ));
    }
    assert(new_pairs.take(added@.len() as int) =~= new_pairs);
    result
}

/// A merge leaves every label outside `rv.*` as it was, where the updates hold
/// `rv.*` keys alone.
pub proof fn law_merge_keeps_other_labels(
    existing: Map<Seq<char>, Seq<char>>,
    updates: Map<Seq<char>, Seq<char>>,
)
    requires
        all_rv(updates),
    ensures
        others(merged(existing, updates)) == others(existing),
{
    assert(others(merged(existing, updates)) =~= others(existing));
}

/// After a merge the `rv.*` labels are the `rv.*` labels of the updates: new keys
/// are there, known keys have their new value, and stale keys are gone.
pub proof fn law_merge_replaces_rv_labels(
    existing: Map<Seq<char>, Seq<char>>,
    updates: Map<Seq<char>, Seq<char>>,
)
    ensures
        rv_only(merged(existing, updates)) == rv_only(updates),
        all_rv(updates) ==> rv_only(merged(existing, updates)) == updates,
{
    assert(rv_only(merged(existing, updates)) =~= rv_only(updates));
    if all_rv(updates) {
        assert(rv_only(updates) =~= updates);
    }
}

/// Every key of the updates has the value of the updates after a merge.
pub proof fn law_merge_applies_every_update(
    existing: Map<Seq<char>, Seq<char>>,
    updates: Map<Seq<char>, Seq<char>>,
)
    ensures
        updates.submap_of(merged(existing, updates)),
{
}

/// Merging the same updates a second time changes nothing.
pub proof fn law_merge_is_idempotent(
    existing: Map<Seq<char>, Seq<char>>,
    updates: Map<Seq<char>, Seq<char>>,
)
    ensures
        merged(merged(existing, updates), updates) == merged(existing, updates),
{
    assert(merged(merged(existing, updates), updates) =~= merged(existing, updates));
}

/// Of two merges of `rv.*` labels only the second one shows.
pub proof fn law_last_merge_wins(
    existing: Map<Seq<char>, Seq<char>>,
    first: Map<Seq<char>, Seq<char>>,
    second: Map<Seq<char>, Seq<char>>,
)
    requires
        all_rv(first),
    ensures
        merged(merged(existing, first), second) == merged(existing, second),
{
    assert(merged(merged(existing, first), second) =~= merged(existing, second));
}

/// The keys of rack validation are the texts that consist of `rv.` and anything
/// after it, however long, and no others.
pub proof fn law_rv_keys_are_rv_dot_and_any_text(key: Seq<char>, rest: Seq<char>)
    ensures
        is_rv("rv."@ + rest),
        is_rv(key) ==> key.len() >= 3 && key == "rv."@ + key.skip(3),
{
    reveal_strlit("rv.");
    let prefix = seq!['r', 'v', '.'];
    assert((prefix + rest).subrange(0, 3) =~= prefix);
    assert("rv."@ =~= prefix);
    if is_rv(key) {
        assert(key =~= prefix + key.skip(3));
    }
}

/// After a merge a key that consists of `rv.` and any text is there if and only if
/// the updates hold it, with the value of the updates: a stale one is gone.
pub proof fn law_merge_leaves_no_stale_rv_key(
    existing: Map<Seq<char>, Seq<char>>,
    updates: Map<Seq<char>, Seq<char>>,
    rest: Seq<char>,
)
    ensures
        merged(existing, updates).contains_key("rv."@ + rest) <==> updates.contains_key(
            "rv."@ + rest,
        ),
        updates.contains_key("rv."@ + rest) ==> merged(existing, updates)["rv."@ + rest]
            == updates["rv."@ + rest],
{
    law_rv_keys_are_rv_dot_and_any_text("rv."@ + rest, rest);
}

/// After a merge a key that does not start with `rv.` is there if and only if it was
/// there or the updates hold it; the value of the updates comes first, then the one
/// that it had.
pub proof fn law_merge_keeps_every_key_outside_rv(
    existing: Map<Seq<char>, Seq<char>>,
    updates: Map<Seq<char>, Seq<char>>,
    key: Seq<char>,
)
    requires
        key.len() < 3 || key.take(3) != "rv."@,
    ensures
        merged(existing, updates).contains_key(key) <==> existing.contains_key(key)
            || updates.contains_key(key),
        updates.contains_key(key) ==> merged(existing, updates)[key] == updates[key],
        existing.contains_key(key) && !updates.contains_key(key) ==> merged(existing, updates)[key]
            == existing[key],
{
    law_rv_keys_are_rv_dot_and_any_text(key, Seq::empty());
    if is_rv(key) {
        reveal_strlit("rv.");
        assert(("rv."@ + key.skip(3)).take(3) =~= "rv."@);
    }
}

/// The labels outside `rv.*` and the `rv.*` labels of a map share it out: every entry
/// is in exactly one of the two, with its value.
pub proof fn law_labels_are_rv_or_other(labels: Map<Seq<char>, Seq<char>>)
    ensures
        others(labels).dom().disjoint(rv_only(labels).dom()),
        others(labels).union_prefer_right(rv_only(labels)) == labels,
        all_rv(labels) <==> rv_only(labels) == labels,
        forall|rest: Seq<char>|
            labels.contains_key(#[trigger] ("rv."@ + rest)) ==> rv_only(labels).contains_key(
                "rv."@ + rest,
            ),
{
    assert(others(labels).union_prefer_right(rv_only(labels)) =~= labels);
    if all_rv(labels) {
        assert(rv_only(labels) =~= labels);
    } else {
        let k = choose|k: Seq<char>| #[trigger] labels.contains_key(k) && !is_rv(k);
        assert(!rv_only(labels).contains_key(k));
    }
    assert forall|rest: Seq<char>| labels.contains_key(#[trigger] ("rv."@ + rest)) implies rv_only(
        labels,
    ).contains_key("rv."@ + rest) by {
        law_rv_keys_are_rv_dot_and_any_text("rv."@ + rest, rest);
    }
}

/// A collected map has exactly the keys of the pairs.
pub proof fn law_collected_keys_are_those_of_the_pairs(
    pairs: Seq<(Seq<char>, Seq<char>)>,
    key: Seq<char>,
)
    ensures
        collect(pairs).contains_key(key) <==> exists|i: int|
            0 <= i < pairs.len() && (#[trigger] pairs[i]).0 == key,
{
    lemma_collect_keys(pairs, key);
}

/// Of the pairs with one key the last one stays.
pub proof fn law_the_last_pair_of_a_key_stays(pairs: Seq<(Seq<char>, Seq<char>)>, i: int)
    requires
        0 <= i < pairs.len(),
        forall|j: int| i < j < pairs.len() ==> (#[trigger] pairs[j]).0 != pairs[i].0,
    ensures
        collect(pairs).contains_key(pairs[i].0),
        collect(pairs)[pairs[i].0] == pairs[i].1,
    decreases pairs.len(),
{
    let rest = pairs.drop_last();
    if i < rest.len() {
        assert forall|j: int| i < j < rest.len() implies (#[trigger] rest[j]).0 != rest[i].0 by {
            assert(pairs[j].0 != pairs[i].0);
        }
        law_the_last_pair_of_a_key_stays(rest, i);
        assert(pairs[pairs.len() - 1].0 != pairs[i].0);
    }
}

/// The texts of entries are the texts of their keys and values, place by place; keys
/// are distinct where no two places have the same one.
pub proof fn law_pair_texts_are_those_of_the_entries(
    entries: Seq<(String, String)>,
    i: int,
    j: int,
)
    requires
        0 <= i < j < entries.len(),
    ensures
        pair_texts(entries).len() == entries.len(),
        pair_texts(entries)[i] == (entries[i].0@, entries[i].1@),
        pair_texts(entries)[j] == (entries[j].0@, entries[j].1@),
        distinct_keys(pair_texts(entries)) ==> entries[i].0@ != entries[j].0@,
{
    assert(pair_texts(entries)[i].0 == entries[i].0@);
    assert(pair_texts(entries)[j].0 == entries[j].0@);
}

/// Two maps are equal if and only if they have the same keys with the same values.
pub proof fn law_equal_maps_have_equal_entries(a: LabelMap, b: LabelMap)
    ensures
        vstd::std_specs::cmp::PartialEqSpec::eq_spec(&a, &b) <==> (forall|k: Seq<char>|
            #[trigger] a@.contains_key(k) == b@.contains_key(k)) && (forall|k: Seq<char>|
            #[trigger] a@.contains_key(k) ==> a@[k] == b@[k]),
{
    if (forall|k: Seq<char>| #[trigger] a@.contains_key(k) == b@.contains_key(k)) && (forall|
        k: Seq<char>,
    | #[trigger] a@.contains_key(k) ==> a@[k] == b@[k]) {
        assert(a@ =~= b@);
    }
}

} // verus!
