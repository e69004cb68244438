//! A table from asset symbols to amounts, with at most one entry per asset.

use vstd::prelude::*;

verus! {

/// One row of an [`AssetTable`].
pub struct Entry {
    pub asset: String,
    pub amount: i64,
}

/// The symbol held at row `i`.
pub open spec fn key_at(rows: Seq<Entry>, i: int) -> Seq<char> {
    rows[i].asset@
}

/// No symbol stands in two rows.
pub open spec fn distinct_keys(rows: Seq<Entry>) -> bool {
    forall|i: int, j: int|
        0 <= i < j < rows.len() ==> #[trigger] key_at(rows, i) != #[trigger] key_at(rows, j)
}

/// Some row holds `key`.
pub open spec fn holds(rows: Seq<Entry>, key: Seq<char>) -> bool {
    exists|i: int| 0 <= i < rows.len() && #[trigger] key_at(rows, i) == key
}

/// A row that holds `key`, where one does.
pub open spec fn row_of(rows: Seq<Entry>, key: Seq<char>) -> int {
    choose|i: int| 0 <= i < rows.len() && #[trigger] key_at(rows, i) == key
}

/// The map that the rows stand for.
pub open spec fn rows_map(rows: Seq<Entry>) -> Map<Seq<char>, int> {
    Map::new(|key: Seq<char>| holds(rows, key), |key: Seq<char>| rows[row_of(rows, key)].amount as int)
}

/// Some pair of the list is for `asset`.
pub open spec fn listed(pairs: Seq<(Seq<char>, int)>, asset: Seq<char>) -> bool {
    exists|i: int| 0 <= i < pairs.len() && (#[trigger] pairs[i]).0 == asset
}

/// The list once `asset` has `amount`: the pair of the asset is replaced
/// where it stands, or a new pair joins at the end.
pub open spec fn pairs_with(pairs: Seq<(Seq<char>, int)>, asset: Seq<char>, amount: int) -> Seq<
    (Seq<char>, int),
> {
    if listed(pairs, asset) {
        Seq::new(
            pairs.len(),
            |i: int|
                if pairs[i].0 == asset {
                    (asset, amount)
                } else {
                    pairs[i]
                },
        )
    } else {
        pairs.push((asset, amount))
    }
}

/// With distinct symbols, the row of a symbol is the one that holds it.
pub proof fn lemma_row_of(rows: Seq<Entry>, i: int)
    requires
        distinct_keys(rows),
        0 <= i < rows.len(),
    ensures
        holds(rows, key_at(rows, i)),
        row_of(rows, key_at(rows, i)) == i,
        rows_map(rows).contains_key(key_at(rows, i)),
        rows_map(rows)[key_at(rows, i)] == rows[i].amount,
{
    let key = key_at(rows, i);
    let j = row_of(rows, key);
    assert(0 <= j < rows.len() && key_at(rows, j) == key);
    if j < i {
        assert(key_at(rows, j) != key_at(rows, i));
    } else if i < j {
        assert(key_at(rows, i) != key_at(rows, j));
    }
}

/// Amounts by asset symbol. An absent symbol has no amount.
pub struct AssetTable {
    rows: Vec<Entry>,
}

impl View for AssetTable {
    type V = Map<Seq<char>, int>;

    closed spec fn view(&self) -> Map<Seq<char>, int> {
        rows_map(self.rows@)
    }
}

impl AssetTable {
    /// The table's invariant: each symbol has at most one row.
    pub closed spec fn wf(&self) -> bool {
        distinct_keys(self.rows@)
    }

    /// Every amount in the table fits the machine type that stores it.
    pub proof fn lemma_amounts_in_range(&self, asset: Seq<char>)
        requires
            self@.contains_key(asset),
        ensures
            i64::MIN <= self@[asset] <= i64::MAX,
    {
    }

    /// The entries one by one, each asset once, in the order in which the
    /// table holds them.
    pub closed spec fn pairs(&self) -> Seq<(Seq<char>, int)> {
        Seq::new(self.rows@.len(), |i: int| (self.rows@[i].asset@, self.rows@[i].amount as int))
    }

    /// The entries one by one are the entries of the map: each pair is in the
    /// map, each asset of the map has a pair, and no asset has two.
    pub proof fn lemma_pairs_are_entries(&self)
        requires
            self.wf(),
        ensures
            forall|i: int|
                0 <= i < self.pairs().len() ==> self@.contains_key((#[trigger] self.pairs()[i]).0)
                    && self@[self.pairs()[i].0] == self.pairs()[i].1,
            forall|asset: Seq<char>| #[trigger]
                self@.contains_key(asset) ==> exists|i: int|
                    0 <= i < self.pairs().len() && (#[trigger] self.pairs()[i]).0 == asset,
            forall|i: int, j: int|
                0 <= i < j < self.pairs().len() ==> (#[trigger] self.pairs()[i]).0 != (
                #[trigger] self.pairs()[j]).0,
    {
        let rows = self.rows@;
        assert forall|i: int| 0 <= i < self.pairs().len() implies self@.contains_key(
            (#[trigger] self.pairs()[i]).0,
        ) && self@[self.pairs()[i].0] == self.pairs()[i].1 by {
            lemma_row_of(rows, i);
        }
        assert forall|asset: Seq<char>| #[trigger] self@.contains_key(asset) implies exists|i: int|
            0 <= i < self.pairs().len() && (#[trigger] self.pairs()[i]).0 == asset by {
            let i = row_of(rows, asset);
            assert(key_at(rows, i) == asset);
            assert(self.pairs()[i].0 == asset);
        }
        assert forall|i: int, j: int| 0 <= i < j < self.pairs().len() implies (
        #[trigger] self.pairs()[i]).0 != (#[trigger] self.pairs()[j]).0 by {
            assert(key_at(rows, i) != key_at(rows, j));
        }
    }

    /// The number of entries.
    pub fn len(&self) -> (n: usize)
        ensures
            n == self.pairs().len(),
    {
        self.rows.len()
    }

    /// The asset of the entry at `i`.
    pub fn asset_at(&self, i: usize) -> (asset: &String)
        requires
            i < self.pairs().len(),
        ensures
            asset@ == self.pairs()[i as int].0,
    {
        &self.rows[i].asset
    }

    /// The amount of the entry at `i`.
    pub fn amount_at(&self, i: usize) -> (amount: i64)
        requires
            i < self.pairs().len(),
        ensures
            amount == self.pairs()[i as int].1,
    {
        self.rows[i].amount
    }

    /// The empty table.
    pub fn new() -> (table: AssetTable)
        ensures
            table.wf(),
            table@ == Map::<Seq<char>, int>::empty(),
            table.pairs() == Seq::<(Seq<char>, int)>::empty(),
    {
        let table = AssetTable { rows: Vec::new() };
        assert(table@ =~= Map::<Seq<char>, int>::empty());
        assert(table.pairs() =~= Seq::<(Seq<char>, int)>::empty());
        table
    }

    /// The row that holds `asset`, if any.
    fn find(&self, asset: &String) -> (found: Option<usize>)
        requires
            self.wf(),
        ensures
            match found {
                Some(i) => i < self.rows@.len() && key_at(self.rows@, i as int) == asset@,
                None => !holds(self.rows@, asset@),
            },
    {
        let mut i: usize = 0;
        while i < self.rows.len()
            invariant
                i <= self.rows@.len(),
                forall|j: int| 0 <= j < i ==> #[trigger] key_at(self.rows@, j) != asset@,
            decreases self.rows@.len() - i,
        {
            if self.rows[i].asset == *asset {
                return Some(i);
            }
            i += 1;
        }
        None
    }

    /// Looks up the amount of `asset`.
    pub fn get(&self, asset: &String) -> (found: Option<i64>)
        requires
            self.wf(),
        ensures
            match found {
                Some(amount) => self@.contains_key(asset@) && self@[asset@] == amount,
                None => !self@.contains_key(asset@),
            },
    {
        match self.find(asset) {
            Some(i) => {
                proof {
                    lemma_row_of(self.rows@, i as int);
                }
                Some(self.rows[i].amount)
            },
            None => None,
        }
    }

    /// Sets the amount of `asset`, replacing the one it had.
    pub fn put(&mut self, asset: String, amount: i64)
        requires
            old(self).wf(),
        ensures
            final(self).wf(),
            final(self)@ == old(self)@.insert(asset@, amount as int),
            final(self).pairs() == pairs_with(old(self).pairs(), asset@, amount as int),
    {
        let ghost before = self.rows@;
        let ghost key = asset@;
        let ghost pairs = self.pairs();
        proof {
            if listed(pairs, key) {
                let j = choose|j: int| 0 <= j < pairs.len() && (#[trigger] pairs[j]).0 == key;
                assert(key_at(before, j) == key);
            }
            if holds(before, key) {
                let j = row_of(before, key);
                assert(pairs[j].0 == key);
            }
            assert(listed(pairs, key) == holds(before, key));
        }
        match self.find(&asset) {
            Some(i) => {
                self.rows.set(i, Entry { asset, amount });
                proof {
                    let after = self.rows@;
                    assert forall|j: int| 0 <= j < after.len() implies key_at(after, j) == key_at(
                        before,
                        j,
                    ) by {}
                    assert(distinct_keys(after)) by {
                        assert forall|a: int, b: int| 0 <= a < b < after.len() implies key_at(
                            after,
                            a,
                        ) != key_at(after, b) by {
                            assert(key_at(before, a) != key_at(before, b));
                        }
                    }
                    assert forall|k: Seq<char>| holds(after, k) == holds(before, k) by {
                        if holds(before, k) {
                            let j = row_of(before, k);
                            assert(key_at(after, j) == k);
                        }
                        if holds(after, k) {
                            let j = row_of(after, k);
                            assert(key_at(before, j) == k);
                        }
                    }
                    assert forall|k: Seq<char>| holds(after, k) implies rows_map(after)[k] == (
                    if k == key {
                        amount as int
                    } else {
                        rows_map(before)[k]
                    }) by {
                        let j = row_of(after, k);
                        lemma_row_of(after, j);
                        lemma_row_of(before, j);
                    }
                    lemma_row_of(before, i as int);
                    assert(rows_map(after) =~= rows_map(before).insert(key, amount as int));
                    assert forall|j: int| 0 <= j < after.len() implies #[trigger] self.pairs()[j]
                        == pairs_with(pairs, key, amount as int)[j] by {
                        if j < i {
                            assert(key_at(before, j) != key_at(before, i as int));
                        } else if j > i {
                            assert(key_at(before, i as int) != key_at(before, j));
                        }
                    }
                    assert(self.pairs() =~= pairs_with(pairs, key, amount as int));
                }
            },
            None => {
                self.rows.push(Entry { asset, amount });
                proof {
                    let after = self.rows@;
                    let last = before.len() as int;
                    assert forall|j: int| 0 <= j < before.len() implies key_at(after, j)
                        == key_at(before, j) by {}
                    assert(key_at(after, last) == key);
                    assert(distinct_keys(after)) by {
                        assert forall|a: int, b: int| 0 <= a < b < after.len() implies key_at(
                            after,
                            a,
                        ) != key_at(after, b) by {
                            if b < last {
                                assert(key_at(before, a) != key_at(before, b));
                            } else {
                                assert(key_at(before, a) == key_at(after, a));
                            }
                        }
                    }
                    assert forall|k: Seq<char>| holds(after, k) == (holds(before, k) || k
                        == key) by {
                        if holds(before, k) {
                            let j = row_of(before, k);
                            assert(key_at(after, j) == k);
                        }
                        if holds(after, k) {
                            let j = row_of(after, k);
                            if j < last {
                                assert(key_at(before, j) == k);
                            }
                        }
                    }
                    assert forall|k: Seq<char>| holds(after, k) implies rows_map(after)[k] == (
                    if k == key {
                        amount as int
                    } else {
                        rows_map(before)[k]
                    }) by {
                        let j = row_of(after, k);
                        lemma_row_of(after, j);
                        if j < last {
                            lemma_row_of(before, j);
                        }
                    }
                    assert(rows_map(after) =~= rows_map(before).insert(key, amount as int));
                    assert(self.pairs() =~= pairs_with(pairs, key, amount as int));
                }
            },
        }
    }

    /// Removes every entry.
    pub fn clear(&mut self)
        ensures
            final(self).wf(),
            final(self)@ == Map::<Seq<char>, int>::empty(),
            final(self).pairs() == Seq::<(Seq<char>, int)>::empty(),
    {
        self.rows = Vec::new();
        assert(self@ =~= Map::<Seq<char>, int>::empty());
        assert(self.pairs() =~= Seq::<(Seq<char>, int)>::empty());
    }

    /// An independent copy with the same entries.
    pub fn duplicate(&self) -> (copy: AssetTable)
        ensures
            copy.wf() == self.wf(),
            copy@ == self@,
            copy.pairs() == self.pairs(),
    {
        let mut rows: Vec<Entry> = Vec::new();
        let mut i: usize = 0;
        while i < self.rows.len()
            invariant
                i <= self.rows@.len(),
                rows@.len() == i,
                forall|j: int| 0 <= j < i ==> #[trigger] rows@[j] == self.rows@[j],
            decreases self.rows@.len() - i,
        {
            let row = &self.rows[i];
            rows.push(Entry { asset: row.asset.clone(), amount: row.amount });
            i += 1;
        }
        assert(rows@ =~= self.rows@);
        AssetTable { rows }
    }
}

} // verus!
