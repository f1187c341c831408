use vstd::prelude::*;
use vstd::multiset::Multiset;
use crate::codec::{key_of, key_seq};
use crate::model::ConfigItem;
use crate::order::{lemma_lt_irreflexive, lemma_lt_total, lemma_lt_transitive, seq_lt, str_lt};
use crate::text::contains_seq;

verus! {

broadcast use vstd::seq_lib::group_to_multiset_ensures;

/// The view of an optional string pattern.
pub open spec fn opt_view(f: Option<&str>) -> Option<Seq<char>> {
    match f {
        Some(s) => Some(s@),
        None => None,
    }
}

/// `item` lies in `namespace` and, when a filter is given, its data id contains it.
pub open spec fn listed(item: ConfigItem, namespace: Seq<char>, filter: Option<Seq<char>>) -> bool {
    &&& item.key.namespace@ == namespace
    &&& match filter {
        Some(f) => contains_seq(item.key.data_id@, f),
        None => true,
    }
}

/// A value that carries a time stamp to order by.
pub trait Dated {
    spec fn stamp(&self) -> i64;

    fn stamp_of(&self) -> (r: i64)
        ensures
            r == self.stamp(),
    ;
}

/// Items ordered by stamp, most recent first.
pub open spec fn newest_first<T: Dated>(s: Seq<T>) -> bool {
    forall|i: int, j: int| 0 <= i < j < s.len() ==> s[i].stamp() >= s[j].stamp()
}

/// `all` holds, each once and in any order, exactly the items of `m` that
/// match `namespace` and `filter`.
pub open spec fn enumerates(
    m: Map<Seq<char>, ConfigItem>,
    namespace: Seq<char>,
    filter: Option<Seq<char>>,
    all: Seq<ConfigItem>,
) -> bool {
    &&& all.no_duplicates()
    &&& forall|i: int| 0 <= i < all.len() ==> {
        &&& listed(#[trigger] all[i], namespace, filter)
        &&& m.contains_key(key_seq(all[i].key))
        &&& m[key_seq(all[i].key)] == all[i]
    }
    &&& forall|k: Seq<char>| #[trigger] m.contains_key(k) && listed(m[k], namespace, filter)
        ==> all.contains(m[k])
}

/// `a` may be listed before `b`: it was updated later, or at the same time
/// and its key does not come after `b`'s in character order.
pub open spec fn listed_before(a: ConfigItem, b: ConfigItem) -> bool {
    a.updated_at > b.updated_at || (a.updated_at == b.updated_at && !seq_lt(
        key_seq(b.key),
        key_seq(a.key),
    ))
}

/// Items in listing order: most recently updated first, ties by key.
pub open spec fn in_listing_order(s: Seq<ConfigItem>) -> bool {
    forall|i: int, j: int| 0 <= i < j < s.len() ==> listed_before(s[i], s[j])
}

proof fn lemma_before_total(a: ConfigItem, b: ConfigItem)
    ensures
        listed_before(a, b) || listed_before(b, a),
{
    if key_seq(a.key) != key_seq(b.key) {
        lemma_lt_total(key_seq(a.key), key_seq(b.key));
        if seq_lt(key_seq(a.key), key_seq(b.key)) && seq_lt(key_seq(b.key), key_seq(a.key)) {
            lemma_lt_transitive(key_seq(a.key), key_seq(b.key), key_seq(a.key));
            lemma_lt_irreflexive(key_seq(a.key));
        }
    } else {
        lemma_lt_irreflexive(key_seq(a.key));
    }
}

proof fn lemma_before_transitive(a: ConfigItem, b: ConfigItem, c: ConfigItem)
    requires
        listed_before(a, b),
        listed_before(b, c),
    ensures
        listed_before(a, c),
{
    let (ka, kb, kc) = (key_seq(a.key), key_seq(b.key), key_seq(c.key));
    if a.updated_at == c.updated_at && seq_lt(kc, ka) {
        // then all three times are equal and kc < ka, kb does not come before ka
        // nor kc before kb
        lemma_lt_total_or_eq(ka, kb);
        lemma_lt_total_or_eq(kb, kc);
        if kb == ka {
        } else if seq_lt(ka, kb) {
            if kc == kb {
                lemma_lt_transitive(ka, kb, ka);
                lemma_lt_irreflexive(ka);
            } else {
                lemma_lt_transitive(kc, ka, kb);
            }
        }
    }
}

proof fn lemma_lt_total_or_eq(a: Seq<char>, b: Seq<char>)
    ensures
        a == b || seq_lt(a, b) || seq_lt(b, a),
{
    if a != b {
        lemma_lt_total(a, b);
    }
}

/// Two items each listed before the other share their key.
proof fn lemma_before_antisymmetric(a: ConfigItem, b: ConfigItem)
    requires
        listed_before(a, b),
        listed_before(b, a),
    ensures
        key_seq(a.key) == key_seq(b.key),
{
    lemma_lt_total_or_eq(key_seq(a.key), key_seq(b.key));
}

/// `all` lists, in listing order and each once, exactly the items of `m`
/// that match `namespace` and `filter`.
pub open spec fn is_listing(
    m: Map<Seq<char>, ConfigItem>,
    namespace: Seq<char>,
    filter: Option<Seq<char>>,
    all: Seq<ConfigItem>,
) -> bool {
    &&& in_listing_order(all)
    &&& enumerates(m, namespace, filter, all)
}

/// Whether `a` may be listed before `b`.
pub fn listed_before_exec(a: &ConfigItem, b: &ConfigItem) -> (r: bool)
    ensures
        r == listed_before(*a, *b),
{
    if a.updated_at != b.updated_at {
        a.updated_at > b.updated_at
    } else {
        let ka = key_of(&a.key);
        let kb = key_of(&b.key);
        !str_lt(kb.as_str(), ka.as_str())
    }
}

/// Sorts into listing order: most recently updated first, ties by key.
pub fn sort_listing(v: Vec<ConfigItem>) -> (r: Vec<ConfigItem>)
    ensures
        in_listing_order(r@),
        r@.to_multiset() == v@.to_multiset(),
{
    let mut rest = v;
    let mut r: Vec<ConfigItem> = Vec::new();
    while rest.len() > 0
        invariant
            in_listing_order(r@),
            r@.to_multiset().add(rest@.to_multiset()) == v@.to_multiset(),
        decreases rest.len(),
    {
        let ghost before = rest@;
        let x = rest.pop().unwrap();
        proof {
            assert(before == rest@.push(x));
        }
        let mut j: usize = 0;
        while j < r.len() && listed_before_exec(&r[j], &x)
            invariant
                j <= r.len(),
                forall|t: int| 0 <= t < j ==> listed_before(r@[t], x),
            decreases r.len() - j,
        {
            j = j + 1;
        }
        let ghost old_r = r@;
        proof {
            if j < old_r.len() {
                lemma_before_total(old_r[j as int], x);
            }
        }
        r.insert(j, x);
        proof {
            assert(r@ == old_r.insert(j as int, x));
            assert forall|a: int, b: int| 0 <= a < b < r@.len() implies listed_before(
                r@[a],
                r@[b],
            ) by {
                if b < j {
                } else if b == j {
                } else if a < j {
                    assert(r@[b] == old_r[b - 1]);
                } else if a == j {
                    assert(r@[b] == old_r[b - 1]);
                    if b - 1 > j {
                        lemma_before_transitive(x, old_r[j as int], old_r[b - 1]);
                    }
                } else {
                    assert(r@[a] == old_r[a - 1]);
                    assert(r@[b] == old_r[b - 1]);
                }
            }
            assert(r@.to_multiset() == old_r.to_multiset().insert(x));
            assert(before.to_multiset() == rest@.to_multiset().insert(x));
            assert(r@.to_multiset().add(rest@.to_multiset()) =~= old_r.to_multiset().add(
                before.to_multiset(),
            ));
        }
    }
    proof {
        assert(rest@.to_multiset() =~= Multiset::<ConfigItem>::empty());
        assert(r@.to_multiset().add(rest@.to_multiset()) =~= r@.to_multiset());
    }
    r
}

/// Two sequences in listing order, each without repeats, holding the same
/// items, where items with one key are one item, are the same sequence.
proof fn lemma_ordered_unique(s1: Seq<ConfigItem>, s2: Seq<ConfigItem>)
    requires
        in_listing_order(s1),
        in_listing_order(s2),
        s1.no_duplicates(),
        s2.no_duplicates(),
        forall|x: ConfigItem| s1.contains(x) <==> s2.contains(x),
        forall|x: ConfigItem, y: ConfigItem| s1.contains(x) && s1.contains(y) && key_seq(x.key)
            == key_seq(y.key) ==> x == y,
    ensures
        s1 == s2,
    decreases s1.len(),
{
    if s1.len() == 0 {
        if s2.len() > 0 {
            assert(s2.contains(s2[0]));
        }
        assert(s1 =~= s2);
    } else {
        assert(s1.contains(s1[0]));
        assert(s2.len() > 0);
        let (x1, x2) = (s1[0], s2[0]);
        assert(s2.contains(x2));
        let i = choose|i: int| 0 <= i < s1.len() && s1[i] == x2;
        let j = choose|j: int| 0 <= j < s2.len() && s2[j] == x1;
        if x1 != x2 {
            assert(i != 0);
            assert(j != 0);
            assert(listed_before(s1[0], s1[i]));
            assert(listed_before(s2[0], s2[j]));
            lemma_before_antisymmetric(x1, x2);
        }
        let (t1, t2) = (s1.drop_first(), s2.drop_first());
        assert forall|y: ConfigItem| t1.contains(y) <==> t2.contains(y) by {
            if t1.contains(y) {
                let k = choose|k: int| 0 <= k < t1.len() && t1[k] == y;
                assert(s1[k + 1] == y);
                assert(y != x1);
                assert(s2.contains(y));
                let l = choose|l: int| 0 <= l < s2.len() && s2[l] == y;
                assert(l != 0);
                assert(t2[l - 1] == y);
            }
            if t2.contains(y) {
                let k = choose|k: int| 0 <= k < t2.len() && t2[k] == y;
                assert(s2[k + 1] == y);
                assert(y != x2);
                assert(s1.contains(y));
                let l = choose|l: int| 0 <= l < s1.len() && s1[l] == y;
                assert(l != 0);
                assert(t1[l - 1] == y);
            }
        }
        assert forall|x: ConfigItem, y: ConfigItem| t1.contains(x) && t1.contains(y) && key_seq(x.key)
            == key_seq(y.key) implies x == y by {
            let a = choose|a: int| 0 <= a < t1.len() && t1[a] == x;
            let b = choose|b: int| 0 <= b < t1.len() && t1[b] == y;
            assert(s1[a + 1] == x);
            assert(s1[b + 1] == y);
            assert(s1.contains(x));
            assert(s1.contains(y));
        }
        lemma_ordered_unique(t1, t2);
        assert(s1 =~= seq![x1] + t1);
        assert(s2 =~= seq![x2] + t2);
    }
}

/// A listing is determined by the store, the namespace and the filter: two
/// listings of the same store agree item for item.
pub proof fn lemma_listing_unique(
    m: Map<Seq<char>, ConfigItem>,
    namespace: Seq<char>,
    filter: Option<Seq<char>>,
    s1: Seq<ConfigItem>,
    s2: Seq<ConfigItem>,
)
    requires
        is_listing(m, namespace, filter, s1),
        is_listing(m, namespace, filter, s2),
    ensures
        s1 == s2,
{
    assert forall|x: ConfigItem| s1.contains(x) <==> s2.contains(x) by {
        if s1.contains(x) {
            let i = choose|i: int| 0 <= i < s1.len() && s1[i] == x;
            assert(listed(s1[i], namespace, filter));
            assert(m.contains_key(key_seq(x.key)));
        }
        if s2.contains(x) {
            let i = choose|i: int| 0 <= i < s2.len() && s2[i] == x;
            assert(listed(s2[i], namespace, filter));
            assert(m.contains_key(key_seq(x.key)));
        }
    }
    assert forall|x: ConfigItem, y: ConfigItem| s1.contains(x) && s1.contains(y) && key_seq(x.key)
        == key_seq(y.key) implies x == y by {
        let a = choose|a: int| 0 <= a < s1.len() && s1[a] == x;
        let b = choose|b: int| 0 <= b < s1.len() && s1[b] == y;
        assert(m[key_seq(s1[a].key)] == s1[a]);
        assert(m[key_seq(s1[b].key)] == s1[b]);
    }
    lemma_ordered_unique(s1, s2);
}

/// Sorts by stamp, most recent first; items with equal stamps keep no
/// particular order.
pub fn sort_newest_first<T: Dated>(v: Vec<T>) -> (r: Vec<T>)
    ensures
        newest_first(r@),
        r@.to_multiset() == v@.to_multiset(),
{
    let mut rest = v;
    let mut r: Vec<T> = Vec::new();
    while rest.len() > 0
        invariant
            newest_first(r@),
            r@.to_multiset().add(rest@.to_multiset()) == v@.to_multiset(),
        decreases rest.len(),
    {
        let ghost before = rest@;
        let x = rest.pop().unwrap();
        proof {
            assert(before == rest@.push(x));
        }
        let mut j: usize = 0;
        while j < r.len() && r[j].stamp_of() >= x.stamp_of()
            invariant
                j <= r.len(),
                forall|t: int| 0 <= t < j ==> r@[t].stamp() >= x.stamp(),
            decreases r.len() - j,
        {
            j = j + 1;
        }
        let ghost old_r = r@;
        r.insert(j, x);
        proof {
            assert(r@ == old_r.insert(j as int, x));
            assert forall|a: int, b: int| 0 <= a < b < r@.len() implies r@[a].stamp()
                >= r@[b].stamp() by {
                if b < j {
                } else if b == j {
                } else if a < j {
                    assert(r@[b] == old_r[b - 1]);
                    assert(old_r[j as int].stamp() < x.stamp());
                } else if a == j {
                    assert(old_r[j as int].stamp() < x.stamp());
                    assert(r@[b] == old_r[b - 1]);
                } else {
                    assert(r@[a] == old_r[a - 1]);
                    assert(r@[b] == old_r[b - 1]);
                }
            }
            assert(r@.to_multiset() == old_r.to_multiset().insert(x));
            assert(before.to_multiset() == rest@.to_multiset().insert(x));
            assert(r@.to_multiset().add(rest@.to_multiset()) =~= old_r.to_multiset().add(
                before.to_multiset(),
            ));
        }
    }
    proof {
        assert(rest@.to_multiset() =~= Multiset::<T>::empty());
        assert(r@.to_multiset().add(rest@.to_multiset()) =~= r@.to_multiset());
    }
    r
}

} // verus!
