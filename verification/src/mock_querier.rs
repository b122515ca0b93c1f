//! Lookup tables of the mock queriers that the contracts are tested
//! against: terraswap pairs by their two asset names, and oracle feeders by
//! asset. A table maps strings to strings; an insertion overrides an
//! earlier one for the same key.
use vstd::prelude::*;
use vstd::string::StringExecFns;

verus! {

/// The map that a list of `(key, value)` insertions leaves, later entries
/// overriding earlier ones.
pub open spec fn map_of(entries: Seq<(String, String)>) -> Map<Seq<char>, Seq<char>>
    decreases entries.len(),
{
    if entries.len() == 0 {
        Map::empty()
    } else {
        map_of(entries.drop_last()).insert(entries.last().0@, entries.last().1@)
    }
}

/// A string-to-string table.
pub struct AddressMap {
    entries: Vec<(String, String)>,
}

impl View for AddressMap {
    type V = Map<Seq<char>, Seq<char>>;

    closed spec fn view(&self) -> Map<Seq<char>, Seq<char>> {
        map_of(self.entries@)
    }
}

/// Entries after position `j` do not touch key `k`, so the map of the
/// whole list agrees with the map of its first `j` entries on `k`.
proof fn lemma_map_of_untouched_suffix(s: Seq<(String, String)>, j: int, k: Seq<char>)
    requires
        0 <= j <= s.len(),
        forall|i: int| j <= i < s.len() ==> (#[trigger] s[i]).0@ != k,
    ensures
        map_of(s).contains_key(k) == map_of(s.take(j)).contains_key(k),
        map_of(s).contains_key(k) ==> map_of(s)[k] == map_of(s.take(j))[k],
    decreases s.len() - j,
{
    if j == s.len() {
        assert(s.take(j) =~= s);
    } else {
        let t = s.drop_last();
        assert forall|i: int| j <= i < t.len() implies (#[trigger] t[i]).0@ != k by {
            assert(t[i] == s[i]);
        }
        lemma_map_of_untouched_suffix(t, j, k);
        assert(t.take(j) =~= s.take(j));
        assert(s.last().0@ != k);
    }
}

impl AddressMap {
    /// An empty table.
    pub fn new() -> (m: AddressMap)
        ensures
            m@ == Map::<Seq<char>, Seq<char>>::empty(),
    {
        AddressMap { entries: Vec::new() }
    }

    /// Sets the value of a key.
    pub fn insert(&mut self, key: String, value: String)
        ensures
            final(self)@ == old(self)@.insert(key@, value@),
    {
        let ghost before = self.entries@;
        self.entries.push((key, value));
        assert(self.entries@.drop_last() =~= before);
    }

    /// The value of a key, if it has one.
    pub fn get(&self, key: &String) -> (r: Option<&String>)
        ensures
            match r {
                Some(v) => self@.contains_key(key@) && self@[key@] == v@,
                None => !self@.contains_key(key@),
            },
    {
        let mut j: usize = self.entries.len();
        while j > 0
            invariant
                j <= self.entries.len(),
                forall|i: int|
                    j <= i < self.entries@.len() ==> (#[trigger] self.entries@[i]).0@ != key@,
            decreases j,
        {
            let e = &self.entries[j - 1];
            if e.0.eq(key) {
                proof {
                    let s = self.entries@;
                    lemma_map_of_untouched_suffix(s, j as int, key@);
                    assert(s.take(j as int).drop_last() =~= s.take(j as int - 1));
                    assert(s.take(j as int).last() == s[j as int - 1]);
                }
                return Some(&e.1);
            }
            j = j - 1;
        }
        proof {
            lemma_map_of_untouched_suffix(self.entries@, 0, key@);
            assert(self.entries@.take(0) =~= Seq::<(String, String)>::empty());
        }
        None
    }
}

/// The map built from `(asset1, asset2, pair)` triples: `asset1 ++ asset2`
/// to `pair`, later triples overriding earlier ones.
pub open spec fn pairs_map(pairs: Seq<(&String, &String, &String)>) -> Map<Seq<char>, Seq<char>>
    decreases pairs.len(),
{
    if pairs.len() == 0 {
        Map::empty()
    } else {
        let t = pairs.last();
        pairs_map(pairs.drop_last()).insert(t.0@ + t.1@, t.2@)
    }
}

/// The pair table in closed form: its keys are exactly the concatenated
/// asset names of the triples, each key maps to the pair of the last triple
/// that has it, and the table has at most as many keys as there are
/// triples.
pub proof fn lemma_pairs_map_closed_form(pairs: Seq<(&String, &String, &String)>, k: Seq<char>)
    ensures
        pairs_map(pairs).contains_key(k) <==> exists|i: int|
            0 <= i < pairs.len() && (#[trigger] pairs[i]).0@ + pairs[i].1@ == k,
        pairs_map(pairs).contains_key(k) ==> exists|i: int|
            0 <= i < pairs.len() && (#[trigger] pairs[i]).0@ + pairs[i].1@ == k && pairs_map(pairs)[k]
                == pairs[i].2@ && forall|j: int|
                i < j < pairs.len() ==> (#[trigger] pairs[j]).0@ + pairs[j].1@ != k,
        pairs_map(pairs).dom().finite(),
        pairs_map(pairs).dom().len() <= pairs.len(),
    decreases pairs.len(),
{
    if pairs.len() > 0 {
        let t = pairs.drop_last();
        let last = pairs.last();
        lemma_pairs_map_closed_form(t, k);
        let n = pairs.len() - 1;
        assert(pairs[n] == last);
        assert forall|i: int| 0 <= i < t.len() implies #[trigger] t[i] == pairs[i] by {}
        if last.0@ + last.1@ == k {
            assert(pairs_map(pairs)[k] == last.2@);
        } else {
            if pairs_map(t).contains_key(k) {
                let i = choose|i: int|
                    0 <= i < t.len() && (#[trigger] t[i]).0@ + t[i].1@ == k && pairs_map(t)[k]
                        == t[i].2@ && forall|j: int|
                        i < j < t.len() ==> (#[trigger] t[j]).0@ + t[j].1@ != k;
                assert(pairs[i] == t[i]);
                assert forall|j: int| i < j < pairs.len() implies (#[trigger] pairs[j]).0@
                    + pairs[j].1@ != k by {
                    if j < t.len() {
                        assert(t[j] == pairs[j]);
                    }
                }
            }
            if exists|i: int| 0 <= i < pairs.len() && (#[trigger] pairs[i]).0@ + pairs[i].1@ == k {
                let i = choose|i: int|
                    0 <= i < pairs.len() && (#[trigger] pairs[i]).0@ + pairs[i].1@ == k;
                assert(i < t.len());
                assert(t[i] == pairs[i]);
            }
        }
    }
}

/// Builds the pair table: each pair is found under the concatenation of its
/// two asset names.
pub fn paris_to_map(pairs: &[(&String, &String, &String)]) -> (m: AddressMap)
    ensures
        m@ == pairs_map(pairs@),
{
    let mut m = AddressMap::new();
    let mut i: usize = 0;
    while i < pairs.len()
        invariant
            i <= pairs.len(),
            m@ == pairs_map(pairs@.take(i as int)),
        decreases pairs.len() - i,
    {
        let (asset1, asset2, pair) = pairs[i];
        let key = asset1.clone().concat(asset2.as_str());
        proof {
            assert(pairs@.take(i as int + 1).drop_last() =~= pairs@.take(i as int));
        }
        m.insert(key, pair.clone());
        i = i + 1;
    }
    assert(pairs@.take(pairs@.len() as int) =~= pairs@);
    m
}

/// The map built from `(address, address)` pairs, later pairs overriding
/// earlier ones.
pub open spec fn address_pairs_map(pairs: Seq<(&String, &String)>) -> Map<Seq<char>, Seq<char>>
    decreases pairs.len(),
{
    if pairs.len() == 0 {
        Map::empty()
    } else {
        let t = pairs.last();
        address_pairs_map(pairs.drop_last()).insert(t.0@, t.1@)
    }
}

/// The table of address pairs in closed form: its keys are exactly the
/// first addresses of the pairs, each key maps to the second address of the
/// last pair that has it, and the table has at most as many keys as there
/// are pairs.
pub proof fn lemma_address_pairs_map_closed_form(pairs: Seq<(&String, &String)>, k: Seq<char>)
    ensures
        address_pairs_map(pairs).contains_key(k) <==> exists|i: int|
            0 <= i < pairs.len() && (#[trigger] pairs[i]).0@ == k,
        address_pairs_map(pairs).contains_key(k) ==> exists|i: int|
            0 <= i < pairs.len() && (#[trigger] pairs[i]).0@ == k && address_pairs_map(pairs)[k]
                == pairs[i].1@ && forall|j: int| i < j < pairs.len() ==> (#[trigger] pairs[j]).0@ != k,
        address_pairs_map(pairs).dom().finite(),
        address_pairs_map(pairs).dom().len() <= pairs.len(),
    decreases pairs.len(),
{
    if pairs.len() > 0 {
        let t = pairs.drop_last();
        let last = pairs.last();
        lemma_address_pairs_map_closed_form(t, k);
        let n = pairs.len() - 1;
        assert(pairs[n] == last);
        assert forall|i: int| 0 <= i < t.len() implies #[trigger] t[i] == pairs[i] by {}
        if last.0@ == k {
            assert(address_pairs_map(pairs)[k] == last.1@);
        } else {
            if address_pairs_map(t).contains_key(k) {
                let i = choose|i: int|
                    0 <= i < t.len() && (#[trigger] t[i]).0@ == k && address_pairs_map(t)[k]
                        == t[i].1@ && forall|j: int| i < j < t.len() ==> (#[trigger] t[j]).0@ != k;
                assert(pairs[i] == t[i]);
                assert forall|j: int| i < j < pairs.len() implies (#[trigger] pairs[j]).0@ != k by {
                    if j < t.len() {
                        assert(t[j] == pairs[j]);
                    }
                }
            }
            if exists|i: int| 0 <= i < pairs.len() && (#[trigger] pairs[i]).0@ == k {
                let i = choose|i: int| 0 <= i < pairs.len() && (#[trigger] pairs[i]).0@ == k;
                assert(i < t.len());
                assert(t[i] == pairs[i]);
            }
        }
    }
}

/// Builds a table from address pairs.
pub fn address_pair_to_map(address_pair: &[(&String, &String)]) -> (m: AddressMap)
    ensures
        m@ == address_pairs_map(address_pair@),
{
    let mut m = AddressMap::new();
    let mut i: usize = 0;
    while i < address_pair.len()
        invariant
            i <= address_pair.len(),
            m@ == address_pairs_map(address_pair@.take(i as int)),
        decreases address_pair.len() - i,
    {
        let (addr1, addr2) = address_pair[i];
        proof {
            assert(address_pair@.take(i as int + 1).drop_last() =~= address_pair@.take(i as int));
        }
        m.insert(addr1.clone(), addr2.clone());
        i = i + 1;
    }
    assert(address_pair@.take(address_pair@.len() as int) =~= address_pair@);
    m
}

/// Terraswap pairs by the concatenated names of their assets.
pub struct TerraswapPairQuerier {
    pub pairs: AddressMap,
}

impl TerraswapPairQuerier {
    pub fn new(pairs: &[(&String, &String, &String)]) -> (q: TerraswapPairQuerier)
        ensures
            q.pairs@ == pairs_map(pairs@),
    {
        TerraswapPairQuerier { pairs: paris_to_map(pairs) }
    }
}

/// Oracle feeders by asset.
pub struct OracleQuerier {
    pub feeders: AddressMap,
}

impl OracleQuerier {
    pub fn new(feeders: &[(&String, &String)]) -> (q: OracleQuerier)
        ensures
            q.feeders@ == address_pairs_map(feeders@),
    {
        OracleQuerier { feeders: address_pair_to_map(feeders) }
    }
}

} // verus!
