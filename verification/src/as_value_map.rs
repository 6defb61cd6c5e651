//! Converting maps: a `BTreeMap` or `HashMap` of convertible keys and values
//! is a SQL map of the values of its entries (in key order for a
//! `BTreeMap`, in the order the map hands them out for a `HashMap`).
use vstd::prelude::*;
use std::collections::{BTreeMap, HashMap};
use std::hash::Hash;
use vstd::std_specs::hash::obeys_key_model;
use vstd::laws_cmp::obeys_cmp;
use vstd::std_specs::btree::increasing_seq;
use crate::as_value::AsValue;
use crate::as_value_list::{converts_to_some, reversed};
use crate::parse_int::ConversionError;
use crate::value::Value;

verus! {

/// Whether the order of `K` behaves as vstd's model of ordered maps
/// requires (true of the integer types, among others); what is known of a
/// map's contents rests on it.
pub open spec fn ordered_keys<K: Ord>() -> bool {
    obeys_cmp::<K>()
}

/// The keys of the pairs, in order.
pub open spec fn keys_of<K, V>(ps: Seq<(K, V)>) -> Seq<K> {
    ps.map_values(|kv: (K, V)| kv.0)
}

/// Whether `es` holds the entries of `m`, each once.
pub open spec fn map_entries<K, V>(m: Map<K, V>, es: Seq<(K, V)>) -> bool {
    &&& es.len() == m.len()
    &&& forall|i: int| 0 <= i < es.len() ==> #[trigger] m.contains_key(es[i].0) && m[es[i].0] == es[i].1
    &&& keys_of(es).no_duplicates()
}

/// Whether `es` holds the entries of `m`, each once, in increasing key order.
pub open spec fn sorted_entries<K, V>(m: Map<K, V>, es: Seq<(K, V)>) -> bool {
    map_entries(m, es) && increasing_seq(keys_of(es))
}

/// Whether hashing and comparing `K` behave as vstd's model of hash maps
/// requires (true of the integer types, among others); what is known of a
/// hash map's contents rests on it.
pub open spec fn hashed_keys<K>() -> bool {
    obeys_key_model::<K>()
}

/// `Vec::from_iter` on a hash map: its entries, in the order the map hands
/// them out (which the hasher's random state decides).
#[verifier::external_body]
fn hash_entries<K, V>(m: HashMap<K, V>) -> (r: Vec<(K, V)>)
    ensures
        hashed_keys::<K>() ==> map_entries(m@, r@),
{
    Vec::from_iter(m)
}

/// `Vec::from_iter` on a map: its entries, sorted by key.
#[verifier::external_body]
fn btree_entries<K: Ord, V>(m: BTreeMap<K, V>) -> (r: Vec<(K, V)>)
    ensures
        ordered_keys::<K>() ==> sorted_entries(m@, r@),
{
    Vec::from_iter(m)
}

/// Whether `entries` are the SQL values of the keys and values of `es`,
/// one for one.
pub open spec fn entries_valued<K: AsValue, V: AsValue>(es: Seq<(K, V)>, entries: Seq<(Value, Value)>) -> bool {
    es.len() == entries.len() && forall|i: int|
        0 <= i < es.len() ==> #[trigger] es[i].0.valued(entries[i].0) && es[i].1.valued(entries[i].1)
}

/// Whether each of the first `k` entries converts, key and value.
pub open spec fn entry_prefix_converts<K: AsValue, V: AsValue>(entries: Seq<(Value, Value)>, k: int) -> bool {
    forall|j: int|
        0 <= j < k ==> #[trigger] converts_to_some::<K>(entries[j].0) && converts_to_some::<V>(
            entries[j].1,
        )
}

/// Whether `result` is what converting the entries one by one gives, the
/// key of each before its value: every entry converted, or the error of the
/// first key or value that does not convert.
pub open spec fn entries_convert<K: AsValue, V: AsValue>(
    entries: Seq<(Value, Value)>,
    result: Result<Seq<(K, V)>, ConversionError>,
) -> bool {
    match result {
        Ok(ps) => ps.len() == entries.len() && forall|i: int|
            0 <= i < entries.len() ==> K::converts(entries[i].0, Ok(#[trigger] ps[i].0)) && V::converts(
                entries[i].1,
                Ok(ps[i].1),
            ),
        Err(e) => exists|k: int|
            0 <= k < entries.len() && entry_prefix_converts::<K, V>(entries, k) && (K::converts(
                #[trigger] entries[k].0,
                Err(e),
            ) || (converts_to_some::<K>(entries[k].0) && V::converts(entries[k].1, Err(e)))),
    }
}

/// The map that inserting the pairs in order into an empty map gives (a
/// later key replaces an equal earlier one).
pub open spec fn map_of<K, V>(ps: Seq<(K, V)>) -> Map<K, V>
    decreases ps.len(),
{
    if ps.len() == 0 {
        Map::empty()
    } else {
        map_of(ps.drop_last()).insert(ps.last().0, ps.last().1)
    }
}

impl<K: AsValue + Ord, V: AsValue> AsValue for BTreeMap<K, V> {
    /// Converting each key and value of a map must complete.
    open spec fn readable(value: Value) -> bool {
        value matches Value::Dict(Some(entries), _, _) ==> forall|i: int|
            0 <= i < entries@.len() ==> K::readable(#[trigger] entries@[i].0) && V::readable(
                entries@[i].1,
            )
    }

    /// A map value converts entry by entry, each entry inserted in turn.
    open spec fn converts(value: Value, result: Result<BTreeMap<K, V>, ConversionError>) -> bool {
        match value {
            Value::Dict(Some(entries), _, _) => match result {
                Ok(m) => exists|ps: Seq<(K, V)>|
                    #[trigger] entries_convert::<K, V>(entries@, Ok(ps)) && (ordered_keys::<K>()
                        ==> m@ == map_of(ps)),
                Err(e) => entries_convert::<K, V>(entries@, Err(e)),
            },
            _ => result == Err::<BTreeMap<K, V>, ConversionError>(ConversionError::Incompatible),
        }
    }

    open spec fn spec_empty() -> Value {
        Value::Dict(None, Box::new(K::spec_empty()), Box::new(V::spec_empty()))
    }

    /// A map value of the values of the entries, in key order, with the
    /// prototypes of `K` and `V`.
    open spec fn valued(self, v: Value) -> bool {
        &&& v matches Value::Dict(Some(entries), kp, vp)
        &&& *kp == K::spec_empty()
        &&& *vp == V::spec_empty()
        &&& ordered_keys::<K>() ==> exists|es: Seq<(K, V)>|
            #[trigger] sorted_entries(self@, es) && entries_valued(es, entries@)
    }

    open spec fn extract_readable(s: Seq<char>) -> bool {
        true
    }

    /// A map is not read from text directly.
    open spec fn extracts(s: Seq<char>, result: Result<BTreeMap<K, V>, ConversionError>, rest: Seq<char>) -> bool {
        result == Err::<BTreeMap<K, V>, ConversionError>(ConversionError::Unparsable) && rest == s
    }

    fn as_empty_value() -> (r: Value) {
        Value::Dict(None, Box::new(K::as_empty_value()), Box::new(V::as_empty_value()))
    }

    fn as_value(self) -> (r: Value) {
        let ghost m = self@;
        let es = btree_entries(self);
        let ghost orig = es@;
        let n = es.len();
        let mut rev = reversed(es);
        let mut entries: Vec<(Value, Value)> = Vec::new();
        while rev.len() > 0
            invariant
                rev@.len() + entries@.len() == n,
                n == orig.len(),
                forall|j: int| 0 <= j < rev@.len() ==> #[trigger] rev@[j] == orig[n - 1 - j],
                forall|j: int|
                    0 <= j < entries@.len() ==> #[trigger] orig[j].0.valued(entries@[j].0)
                        && orig[j].1.valued(entries@[j].1),
            decreases rev@.len(),
        {
            let ghost i = entries@.len();
            let ghost last = rev@.len() - 1;
            match rev.pop() {
                Some(kv) => {
                    assert(kv == orig[n - 1 - last]);
                    let (k, v) = kv;
                    let kval = k.as_value();
                    let vval = v.as_value();
                    let ghost before = entries@;
                    entries.push((kval, vval));
                    assert forall|j: int| 0 <= j < entries@.len() implies #[trigger] orig[j].0.valued(
                        entries@[j].0,
                    ) && orig[j].1.valued(entries@[j].1) by {
                        if j < i {
                            assert(entries@[j] == before[j]);
                        }
                    }
                },
                None => {},
            }
        }
        proof {
            if ordered_keys::<K>() {
                assert(sorted_entries(m, orig));
                assert(entries_valued(orig, entries@));
            }
        }
        Value::Dict(Some(entries), Box::new(K::as_empty_value()), Box::new(V::as_empty_value()))
    }

    fn try_from_value(value: Value) -> (r: Result<BTreeMap<K, V>, ConversionError>) {
        match value {
            Value::Dict(Some(entries), _, _) => {
                let ghost orig = entries@;
                let n = entries.len();
                let mut rev = reversed(entries);
                let mut m: BTreeMap<K, V> = BTreeMap::new();
                let ghost mut ps: Seq<(K, V)> = Seq::empty();
                while rev.len() > 0
                    invariant
                        rev@.len() + ps.len() == n,
                        n == orig.len(),
                        forall|j: int| 0 <= j < rev@.len() ==> #[trigger] rev@[j] == orig[n - 1 - j],
                        forall|i: int|
                            0 <= i < orig.len() ==> K::readable(#[trigger] orig[i].0) && V::readable(
                                orig[i].1,
                            ),
                        forall|j: int|
                            0 <= j < ps.len() ==> K::converts(orig[j].0, Ok(#[trigger] ps[j].0))
                                && V::converts(orig[j].1, Ok(ps[j].1)),
                        ordered_keys::<K>() ==> m@ == map_of(ps),
                        value matches Value::Dict(Some(es), _, _) && es@ == orig,
                    decreases rev@.len(),
                {
                    let ghost i = ps.len() as int;
                    let ghost last = rev@.len() - 1;
                    match rev.pop() {
                        Some(entry) => {
                            assert(entry == orig[n - 1 - last]);
                            assert(n - 1 - last == i);
                            assert(K::readable(orig[i].0));
                            let (kv, vv) = entry;
                            match K::try_from_value(kv) {
                                Ok(k) => match V::try_from_value(vv) {
                                    Ok(v) => {
                                        let ghost before = ps;
                                        proof {
                                            ps = ps.push((k, v));
                                            assert(ps.drop_last() =~= before);
                                        }
                                        m.insert(k, v);
                                        assert(K::converts(orig[i].0, Ok(ps[i].0)));
                                        assert(V::converts(orig[i].1, Ok(ps[i].1)));
                                        assert forall|j: int| 0 <= j < ps.len() implies K::converts(
                                            orig[j].0,
                                            Ok(#[trigger] ps[j].0),
                                        ) && V::converts(orig[j].1, Ok(ps[j].1)) by {
                                            if j < i {
                                                assert(ps[j] == before[j]);
                                                assert(K::converts(orig[j].0, Ok(before[j].0)));
                                            }
                                        }
                                    },
                                    Err(e) => {
                                        proof {
                                            self::lemma_prefix_converts::<K, V>(orig, ps);
                                            assert(converts_to_some::<K>(orig[i].0));
                                        }
                                        assert(entries_convert::<K, V>(orig, Err(e)));
                                        return Err(e);
                                    },
                                },
                                Err(e) => {
                                    proof {
                                        self::lemma_prefix_converts::<K, V>(orig, ps);
                                        assert(K::converts(orig[i].0, Err(e)));
                                    }
                                    assert(entries_convert::<K, V>(orig, Err(e)));
                                    return Err(e);
                                },
                            }
                        },
                        None => {},
                    }
                }
                assert(entries_convert::<K, V>(orig, Ok(ps)));
                Ok(m)
            },
            _ => Err(ConversionError::Incompatible),
        }
    }

    fn extract(input: &mut &str) -> (r: Result<BTreeMap<K, V>, ConversionError>) {
        Err(ConversionError::Unparsable)
    }
}

impl<K: AsValue + Eq + Hash, V: AsValue> AsValue for HashMap<K, V> {
    /// Converting each key and value of a map must complete.
    open spec fn readable(value: Value) -> bool {
        value matches Value::Dict(Some(entries), _, _) ==> forall|i: int|
            0 <= i < entries@.len() ==> K::readable(#[trigger] entries@[i].0) && V::readable(
                entries@[i].1,
            )
    }

    /// A map value converts entry by entry, each entry inserted in turn.
    open spec fn converts(value: Value, result: Result<HashMap<K, V>, ConversionError>) -> bool {
        match value {
            Value::Dict(Some(entries), _, _) => match result {
                Ok(m) => exists|ps: Seq<(K, V)>|
                    #[trigger] entries_convert::<K, V>(entries@, Ok(ps)) && (hashed_keys::<K>()
                        ==> m@ == map_of(ps)),
                Err(e) => entries_convert::<K, V>(entries@, Err(e)),
            },
            _ => result == Err::<HashMap<K, V>, ConversionError>(ConversionError::Incompatible),
        }
    }

    open spec fn spec_empty() -> Value {
        Value::Dict(None, Box::new(K::spec_empty()), Box::new(V::spec_empty()))
    }

    /// A map value of the values of the entries, in the order the map
    /// hands them out, with the prototypes of `K` and `V`.
    open spec fn valued(self, v: Value) -> bool {
        &&& v matches Value::Dict(Some(entries), kp, vp)
        &&& *kp == K::spec_empty()
        &&& *vp == V::spec_empty()
        &&& hashed_keys::<K>() ==> exists|es: Seq<(K, V)>|
            #[trigger] map_entries(self@, es) && entries_valued(es, entries@)
    }

    open spec fn extract_readable(s: Seq<char>) -> bool {
        true
    }

    /// A map is not read from text directly.
    open spec fn extracts(s: Seq<char>, result: Result<HashMap<K, V>, ConversionError>, rest: Seq<char>) -> bool {
        result == Err::<HashMap<K, V>, ConversionError>(ConversionError::Unparsable) && rest == s
    }

    fn as_empty_value() -> (r: Value) {
        Value::Dict(None, Box::new(K::as_empty_value()), Box::new(V::as_empty_value()))
    }

    fn as_value(self) -> (r: Value) {
        let ghost m = self@;
        let es = hash_entries(self);
        let ghost orig = es@;
        let n = es.len();
        let mut rev = reversed(es);
        let mut entries: Vec<(Value, Value)> = Vec::new();
        while rev.len() > 0
            invariant
                rev@.len() + entries@.len() == n,
                n == orig.len(),
                forall|j: int| 0 <= j < rev@.len() ==> #[trigger] rev@[j] == orig[n - 1 - j],
                forall|j: int|
                    0 <= j < entries@.len() ==> #[trigger] orig[j].0.valued(entries@[j].0)
                        && orig[j].1.valued(entries@[j].1),
            decreases rev@.len(),
        {
            let ghost i = entries@.len();
            let ghost last = rev@.len() - 1;
            match rev.pop() {
                Some(kv) => {
                    assert(kv == orig[n - 1 - last]);
                    let (k, v) = kv;
                    let kval = k.as_value();
                    let vval = v.as_value();
                    let ghost before = entries@;
                    entries.push((kval, vval));
                    assert forall|j: int| 0 <= j < entries@.len() implies #[trigger] orig[j].0.valued(
                        entries@[j].0,
                    ) && orig[j].1.valued(entries@[j].1) by {
                        if j < i {
                            assert(entries@[j] == before[j]);
                        }
                    }
                },
                None => {},
            }
        }
        proof {
            if hashed_keys::<K>() {
                assert(map_entries(m, orig));
                assert(entries_valued(orig, entries@));
            }
        }
        Value::Dict(Some(entries), Box::new(K::as_empty_value()), Box::new(V::as_empty_value()))
    }

    fn try_from_value(value: Value) -> (r: Result<HashMap<K, V>, ConversionError>) {
        match value {
            Value::Dict(Some(entries), _, _) => {
                let ghost orig = entries@;
                let n = entries.len();
                let mut rev = reversed(entries);
                let mut m: HashMap<K, V> = HashMap::new();
                let ghost mut ps: Seq<(K, V)> = Seq::empty();
                while rev.len() > 0
                    invariant
                        rev@.len() + ps.len() == n,
                        n == orig.len(),
                        forall|j: int| 0 <= j < rev@.len() ==> #[trigger] rev@[j] == orig[n - 1 - j],
                        forall|i: int|
                            0 <= i < orig.len() ==> K::readable(#[trigger] orig[i].0) && V::readable(
                                orig[i].1,
                            ),
                        forall|j: int|
                            0 <= j < ps.len() ==> K::converts(orig[j].0, Ok(#[trigger] ps[j].0))
                                && V::converts(orig[j].1, Ok(ps[j].1)),
                        hashed_keys::<K>() ==> m@ == map_of(ps),
                        value matches Value::Dict(Some(es), _, _) && es@ == orig,
                    decreases rev@.len(),
                {
                    let ghost i = ps.len() as int;
                    let ghost last = rev@.len() - 1;
                    match rev.pop() {
                        Some(entry) => {
                            assert(entry == orig[n - 1 - last]);
                            assert(n - 1 - last == i);
                            assert(K::readable(orig[i].0));
                            let (kv, vv) = entry;
                            match K::try_from_value(kv) {
                                Ok(k) => match V::try_from_value(vv) {
                                    Ok(v) => {
                                        let ghost before = ps;
                                        proof {
                                            ps = ps.push((k, v));
                                            assert(ps.drop_last() =~= before);
                                        }
                                        m.insert(k, v);
                                        assert(K::converts(orig[i].0, Ok(ps[i].0)));
                                        assert(V::converts(orig[i].1, Ok(ps[i].1)));
                                        assert forall|j: int| 0 <= j < ps.len() implies K::converts(
                                            orig[j].0,
                                            Ok(#[trigger] ps[j].0),
                                        ) && V::converts(orig[j].1, Ok(ps[j].1)) by {
                                            if j < i {
                                                assert(ps[j] == before[j]);
                                                assert(K::converts(orig[j].0, Ok(before[j].0)));
                                            }
                                        }
                                    },
                                    Err(e) => {
                                        proof {
                                            self::lemma_prefix_converts::<K, V>(orig, ps);
                                            assert(converts_to_some::<K>(orig[i].0));
                                        }
                                        assert(entries_convert::<K, V>(orig, Err(e)));
                                        return Err(e);
                                    },
                                },
                                Err(e) => {
                                    proof {
                                        self::lemma_prefix_converts::<K, V>(orig, ps);
                                        assert(K::converts(orig[i].0, Err(e)));
                                    }
                                    assert(entries_convert::<K, V>(orig, Err(e)));
                                    return Err(e);
                                },
                            }
                        },
                        None => {},
                    }
                }
                assert(entries_convert::<K, V>(orig, Ok(ps)));
                Ok(m)
            },
            _ => Err(ConversionError::Incompatible),
        }
    }

    fn extract(input: &mut &str) -> (r: Result<HashMap<K, V>, ConversionError>) {
        Err(ConversionError::Unparsable)
    }
}

/// Entries converted so far show each of them converts to something.
proof fn lemma_prefix_converts<K: AsValue, V: AsValue>(entries: Seq<(Value, Value)>, ps: Seq<(K, V)>)
    requires
        ps.len() <= entries.len(),
        forall|j: int|
            0 <= j < ps.len() ==> K::converts(entries[j].0, Ok(#[trigger] ps[j].0)) && V::converts(
                entries[j].1,
                Ok(ps[j].1),
            ),
    ensures
        entry_prefix_converts::<K, V>(entries, ps.len() as int),
{
    assert forall|j: int| 0 <= j < ps.len() implies #[trigger] converts_to_some::<K>(entries[j].0)
        && converts_to_some::<V>(entries[j].1) by {
        assert(K::converts(entries[j].0, Ok(ps[j].0)));
        assert(V::converts(entries[j].1, Ok(ps[j].1)));
    }
}

/// The map that pairs with distinct keys give holds their keys, each with
/// its value.
proof fn lemma_map_of_distinct<K, V>(ps: Seq<(K, V)>)
    requires
        keys_of(ps).no_duplicates(),
    ensures
        map_of(ps).dom() == keys_of(ps).to_set(),
        forall|i: int| 0 <= i < ps.len() ==> #[trigger] map_of(ps)[ps[i].0] == ps[i].1,
    decreases ps.len(),
{
    if ps.len() > 0 {
        let init = ps.drop_last();
        let n = ps.len() - 1;
        assert(keys_of(init) =~= keys_of(ps).drop_last());
        assert(keys_of(init).no_duplicates()) by {
            assert forall|i: int, j: int|
                0 <= i < keys_of(init).len() && 0 <= j < keys_of(init).len() && i != j implies keys_of(
                init,
            )[i] != keys_of(init)[j] by {
                assert(keys_of(init)[i] == keys_of(ps)[i]);
                assert(keys_of(init)[j] == keys_of(ps)[j]);
            }
        }
        lemma_map_of_distinct(init);
        assert(keys_of(ps) =~= keys_of(init).push(ps[n].0));
        assert(keys_of(ps).to_set() =~= keys_of(init).to_set().insert(ps[n].0)) by {
            assert forall|k: K| keys_of(ps).to_set().contains(k) implies keys_of(init).to_set().insert(
                ps[n].0,
            ).contains(k) by {
                let i = choose|i: int| 0 <= i < keys_of(ps).len() && keys_of(ps)[i] == k;
                if i < n {
                    assert(keys_of(init)[i] == k);
                }
            }
            assert forall|k: K| keys_of(init).to_set().insert(ps[n].0).contains(k) implies keys_of(
                ps,
            ).to_set().contains(k) by {
                if k != ps[n].0 {
                    let i = choose|i: int| 0 <= i < keys_of(init).len() && keys_of(init)[i] == k;
                    assert(keys_of(ps)[i] == k);
                } else {
                    assert(keys_of(ps)[n] == k);
                }
            }
        }
        assert forall|i: int| 0 <= i < ps.len() implies #[trigger] map_of(ps)[ps[i].0] == ps[i].1 by {
            if i < n {
                assert(init[i] == ps[i]);
                assert(keys_of(ps)[i] != keys_of(ps)[n]);
                assert(map_of(init)[init[i].0] == init[i].1);
            }
        }
    }
}

/// Pairs that hold the entries of a finite map, each once, give that map.
proof fn lemma_entries_map<K, V>(m: Map<K, V>, es: Seq<(K, V)>)
    requires
        map_entries(m, es),
        m.dom().finite(),
    ensures
        map_of(es) == m,
{
    lemma_map_of_distinct(es);
    keys_of(es).unique_seq_to_set();
    assert(keys_of(es).to_set().subset_of(m.dom())) by {
        assert forall|k: K| keys_of(es).to_set().contains(k) implies m.dom().contains(k) by {
            let i = choose|i: int| 0 <= i < keys_of(es).len() && keys_of(es)[i] == k;
            assert(m.contains_key(es[i].0));
        }
    }
    vstd::set_lib::lemma_subset_equality(keys_of(es).to_set(), m.dom());
    assert(map_of(es) =~= m) by {
        assert forall|k: K| #[trigger] map_of(es).contains_key(k) implies map_of(es)[k] == m[k] by {
            let i = choose|i: int| 0 <= i < keys_of(es).len() && keys_of(es)[i] == k;
            assert(map_of(es)[es[i].0] == es[i].1);
            assert(m.contains_key(es[i].0) && m[es[i].0] == es[i].1);
        }
    }
}

/// Converting the values of the entries gives the entries back, when keys
/// and values convert back from their own values.
proof fn lemma_entries_convert_back<K: AsValue, V: AsValue>(es: Seq<(K, V)>, entries: Seq<(Value, Value)>)
    requires
        forall|k: K, w: Value| #[trigger] k.valued(w) ==> K::converts(w, Ok(k)),
        forall|x: V, w: Value| #[trigger] x.valued(w) ==> V::converts(w, Ok(x)),
        entries_valued(es, entries),
    ensures
        entries_convert::<K, V>(entries, Ok(es)),
{
    assert forall|i: int| 0 <= i < entries.len() implies K::converts(
        entries[i].0,
        Ok(#[trigger] es[i].0),
    ) && V::converts(entries[i].1, Ok(es[i].1)) by {
        assert(entries_valued(es, entries));
        assert(es[i].0.valued(entries[i].0));
    }
}

/// A map converts back, from the value it gives, to any map with the same
/// entries, when its keys and values convert back from their own values
/// and its keys obey the ordering model.
pub proof fn law_map_round_trip<K: AsValue + Ord, V: AsValue>(m: BTreeMap<K, V>, v: Value, r: BTreeMap<K, V>)
    requires
        ordered_keys::<K>(),
        forall|k: K, w: Value| #[trigger] k.valued(w) ==> K::converts(w, Ok(k)),
        forall|x: V, w: Value| #[trigger] x.valued(w) ==> V::converts(w, Ok(x)),
        m.valued(v),
        r@ == m@,
    ensures
        BTreeMap::<K, V>::converts(v, Ok(r)),
{
    if let Value::Dict(Some(entries), _, _) = v {
        let es = choose|es: Seq<(K, V)>| #[trigger] sorted_entries(m@, es) && entries_valued(es, entries@);
        lemma_entries_convert_back(es, entries@);
        lemma_entries_map(m@, es);
    }
}

/// A hash map converts back, from the value it gives, to any map with the
/// same entries, when its keys and values convert back from their own
/// values and its keys obey the hashing model.
pub proof fn law_hash_map_round_trip<K: AsValue + Eq + Hash, V: AsValue>(
    m: HashMap<K, V>,
    v: Value,
    r: HashMap<K, V>,
)
    requires
        hashed_keys::<K>(),
        forall|k: K, w: Value| #[trigger] k.valued(w) ==> K::converts(w, Ok(k)),
        forall|x: V, w: Value| #[trigger] x.valued(w) ==> V::converts(w, Ok(x)),
        m.valued(v),
        r@ == m@,
    ensures
        HashMap::<K, V>::converts(v, Ok(r)),
{
    if let Value::Dict(Some(entries), _, _) = v {
        let es = choose|es: Seq<(K, V)>| #[trigger] map_entries(m@, es) && entries_valued(es, entries@);
        lemma_entries_convert_back(es, entries@);
        lemma_entries_map(m@, es);
    }
}

} // verus!
