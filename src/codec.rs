use vstd::prelude::*;
use vstd::string::StringExecFns;
use crate::model::ConfigKey;

verus! {

/// `s` with every `from` replaced by `to`, the other characters kept in order.
pub open spec fn replace_char(s: Seq<char>, from: char, to: Seq<char>) -> Seq<char>
    decreases s.len(),
{
    if s.len() == 0 {
        Seq::empty()
    } else {
        (if s[0] == from {
            to
        } else {
            seq![s[0]]
        }) + replace_char(s.drop_first(), from, to)
    }
}

/// Relies on str::replace with a `char` pattern: every occurrence of `from`
/// is replaced by `to`, and the rest of `s` is kept as it was.
#[verifier::external_body]
fn str_replace_char(s: &str, from: char, to: &str) -> (r: String)
    ensures
        r@ == replace_char(s@, from, to@),
{
    s.replace(from, to)
}

/// One part of a key: every `+` doubled, so that a single `+` followed by
/// `|` can only be a separator.
pub open spec fn escaped(s: Seq<char>) -> Seq<char> {
    replace_char(s, '+', seq!['+', '+'])
}

/// The separator between the parts of a key.
pub open spec fn key_sep() -> Seq<char> {
    seq!['+', '|']
}

/// The three escaped parts joined by `+|`.
pub open spec fn joined_key(namespace: Seq<char>, group: Seq<char>, data_id: Seq<char>) -> Seq<char> {
    escaped(namespace) + key_sep() + escaped(group) + key_sep() + escaped(data_id)
}

/// The canonical store key of a configuration key.
pub open spec fn key_seq(k: ConfigKey) -> Seq<char> {
    joined_key(k.namespace@, k.group@, k.data_id@)
}

/// One step of `escaped`: the first character's code, then the rest.
proof fn lemma_escaped_unfold(x: Seq<char>)
    requires
        x.len() > 0,
    ensures
        escaped(x) == (if x[0] == '+' {
            seq!['+', '+']
        } else {
            seq![x[0]]
        }) + escaped(x.drop_first()),
        escaped(x)[0] == x[0],
        x[0] == '+' ==> escaped(x)[1] == '+',
{
    let e = if x[0] == '+' { seq!['+', '+'] } else { seq![x[0]] };
    assert(escaped(x) == e + escaped(x.drop_first()));
    assert((e + escaped(x.drop_first()))[0] == e[0]);
    if x[0] == '+' {
        assert((e + escaped(x.drop_first()))[1] == e[1]);
    }
}

/// An escaped part followed by the separator can be read back: the part and
/// what follows the separator are determined.
proof fn lemma_escaped_prefix(x1: Seq<char>, x2: Seq<char>, r1: Seq<char>, r2: Seq<char>)
    requires
        escaped(x1) + key_sep() + r1 == escaped(x2) + key_sep() + r2,
    ensures
        x1 == x2,
        r1 == r2,
    decreases x1.len() + x2.len(),
{
    let a = escaped(x1) + key_sep() + r1;
    if x1.len() == 0 || x2.len() == 0 {
        if x1.len() == 0 && x2.len() == 0 {
            assert(escaped(x1) =~= Seq::<char>::empty());
            assert(escaped(x2) =~= Seq::<char>::empty());
            assert(r1 =~= a.subrange(2, a.len() as int));
            assert(r2 =~= a.subrange(2, a.len() as int));
        } else {
            let (x, y) = if x1.len() == 0 { (x2, x1) } else { (x1, x2) };
            let (rx, ry) = if x1.len() == 0 { (r2, r1) } else { (r1, r2) };
            assert(escaped(y) =~= Seq::<char>::empty());
            assert(a =~= key_sep() + ry);
            assert(a =~= escaped(x) + key_sep() + rx);
            lemma_escaped_unfold(x);
            assert(a[0] == escaped(x)[0]);
            assert(a[0] == '+');
            assert(escaped(x).len() >= 2);
            assert(a[1] == escaped(x)[1]);
            assert(a[1] == '|');
        }
    } else {
        lemma_escaped_unfold(x1);
        lemma_escaped_unfold(x2);
        let t1 = escaped(x1.drop_first()) + key_sep() + r1;
        let t2 = escaped(x2.drop_first()) + key_sep() + r2;
        let e1 = if x1[0] == '+' { seq!['+', '+'] } else { seq![x1[0]] };
        let e2 = if x2[0] == '+' { seq!['+', '+'] } else { seq![x2[0]] };
        assert(a =~= e1 + t1);
        assert(a =~= e2 + t2);
        assert(a[0] == e1[0]);
        assert(a[0] == e2[0]);
        assert(x1[0] == x2[0]);
        assert(t1 =~= a.subrange(e1.len() as int, a.len() as int));
        assert(t2 =~= a.subrange(e2.len() as int, a.len() as int));
        lemma_escaped_prefix(x1.drop_first(), x2.drop_first(), r1, r2);
        assert(x1 =~= seq![x1[0]] + x1.drop_first());
        assert(x2 =~= seq![x2[0]] + x2.drop_first());
    }
}

/// The key encoding is injective: two configuration keys get the same store
/// key exactly when their namespaces, groups and data ids are equal.
pub proof fn lemma_key_seq_injective(k1: ConfigKey, k2: ConfigKey)
    ensures
        key_seq(k1) == key_seq(k2) <==> (k1.namespace@ == k2.namespace@ && k1.group@ == k2.group@
            && k1.data_id@ == k2.data_id@),
{
    if key_seq(k1) == key_seq(k2) {
        let s1 = escaped(k1.group@) + key_sep() + escaped(k1.data_id@);
        let s2 = escaped(k2.group@) + key_sep() + escaped(k2.data_id@);
        assert(key_seq(k1) =~= escaped(k1.namespace@) + key_sep() + s1);
        assert(key_seq(k2) =~= escaped(k2.namespace@) + key_sep() + s2);
        lemma_escaped_prefix(k1.namespace@, k2.namespace@, s1, s2);
        lemma_escaped_prefix(k1.group@, k2.group@, escaped(k1.data_id@), escaped(k2.data_id@));
        let e = Seq::<char>::empty();
        assert(escaped(k1.data_id@) + key_sep() + e =~= escaped(k2.data_id@) + key_sep() + e);
        lemma_escaped_prefix(k1.data_id@, k2.data_id@, e, e);
    }
}

/// The three parts of `k`, each with `+` doubled, joined by `+|` into one
/// string key; distinct keys give distinct strings.
pub fn key_of(k: &ConfigKey) -> (r: String)
    ensures
        r@ == key_seq(*k),
        forall|k2: ConfigKey| #[trigger] key_seq(k2) == r@ <==> (k2.namespace@ == k.namespace@
            && k2.group@ == k.group@ && k2.data_id@ == k.data_id@),
{
    proof {
        assert forall|k2: ConfigKey| #[trigger] key_seq(k2) == key_seq(*k) <==> (k2.namespace@
            == k.namespace@ && k2.group@ == k.group@ && k2.data_id@ == k.data_id@) by {
            lemma_key_seq_injective(k2, *k);
        }
        reveal_strlit("++");
        reveal_strlit("+|");
    }
    let mut s = str_replace_char(k.namespace.as_str(), '+', "++");
    s.append("+|");
    let g = str_replace_char(k.group.as_str(), '+', "++");
    s.append(g.as_str());
    s.append("+|");
    let d = str_replace_char(k.data_id.as_str(), '+', "++");
    s.append(d.as_str());
    proof {
        assert("++"@ =~= seq!['+', '+']);
        assert("+|"@ =~= key_sep());
        assert(s@ =~= key_seq(*k));
    }
    s
}

} // verus!
