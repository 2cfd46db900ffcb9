use vstd::prelude::*;
use vstd::seq_lib::lemma_multiset_commutative;
use vstd::multiset::Multiset;

verus! {

broadcast use vstd::seq_lib::group_to_multiset_ensures, vstd::multiset::group_multiset_axioms;

/// One unspent output as the upstream `listunspent` method reports it. Only
/// the recognised fields are kept; anything else on the wire is ignored.
#[derive(Debug, Clone, PartialEq, Eq)]
pub struct Unspent {
    pub txid: String,
    pub vout: u32,
    pub value: u64,
    pub atomicals: Vec<String>,
}

/// One unspent output as callers see it: the same essential fields after
/// normalisation, enough to reconstruct the outpoint `(txid, vout)`.
#[derive(Debug, Clone, PartialEq, Eq)]
pub struct Utxo {
    pub txid: String,
    pub vout: u32,
    pub value: u64,
    pub atomicals: Vec<String>,
}

/// The normalisation of one wire-shape output into the domain shape.
pub open spec fn utxo_of(u: Unspent) -> Utxo {
    Utxo { txid: u.txid, vout: u.vout, value: u.value, atomicals: u.atomicals }
}

/// The outpoint a wire-shape output refers to.
pub open spec fn unspent_outpoint(u: Unspent) -> (Seq<char>, u32) {
    (u.txid@, u.vout)
}

/// The outpoint a domain-shape output refers to.
pub open spec fn utxo_outpoint(u: Utxo) -> (Seq<char>, u32) {
    (u.txid@, u.vout)
}

/// Non-decreasing in `value`.
pub open spec fn sorted_by_value(s: Seq<Utxo>) -> bool {
    forall|i: int, j: int| 0 <= i < j < s.len() ==> #[trigger] s[i].value <= #[trigger] s[j].value
}

/// A UTXO is spendable for a caller who needs `min` satoshis when it carries
/// no Atomicals payload and its value suffices. An output with a non-empty
/// `atomicals` list is already spoken for by the token protocol and must not
/// be spent as plain coin.
pub open spec fn spendable(u: Utxo, min: u64) -> bool {
    u.atomicals@.len() == 0 && u.value >= min
}

impl From<Unspent> for Utxo {
    fn from(u: Unspent) -> Self {
        Utxo { txid: u.txid, vout: u.vout, value: u.value, atomicals: u.atomicals }
    }
}

impl vstd::std_specs::convert::FromSpecImpl<Unspent> for Utxo {
    open spec fn obeys_from_spec() -> bool {
        true
    }

    open spec fn from_spec(u: Unspent) -> Utxo {
        utxo_of(u)
    }
}

/// Normalises each wire-shape output into the domain shape, in order.
pub fn normalize(us: Vec<Unspent>) -> (r: Vec<Utxo>)
    ensures
        r@ == us@.map_values(|u: Unspent| utxo_of(u)),
{
    let ghost orig = us@;
    let mut rest = us;
    let mut r: Vec<Utxo> = Vec::new();
    while rest.len() > 0
        invariant
            r@.len() + rest@.len() == orig.len(),
            r@ == orig.subrange(0, r@.len() as int).map_values(|u: Unspent| utxo_of(u)),
            rest@ == orig.subrange(r@.len() as int, orig.len() as int),
        decreases rest@.len(),
    {
        let ghost k = r@.len() as int;
        let u = rest.remove(0);
        r.push(Utxo::from(u));
        proof {
            assert(orig.subrange(k, orig.len() as int)[0] == orig[k]);
            assert(orig.subrange(k, orig.len() as int).remove(0) =~= orig.subrange(
                k + 1,
                orig.len() as int,
            ));
            assert(orig.subrange(0, k + 1).map_values(|u: Unspent| utxo_of(u)) =~= orig.subrange(
                0,
                k,
            ).map_values(|u: Unspent| utxo_of(u)).push(utxo_of(orig[k])));
        }
    }
    proof {
        assert(orig.subrange(0, orig.len() as int) =~= orig);
    }
    r
}

/// Inserting anywhere in a sequence adds exactly that element to the
/// sequence's multiset.
proof fn lemma_to_multiset_insert<A>(s: Seq<A>, i: int, v: A)
    requires
        0 <= i <= s.len(),
    ensures
        s.insert(i, v).to_multiset() == s.to_multiset().insert(v),
{
    let left = s.subrange(0, i);
    let right = s.subrange(i, s.len() as int);
    assert(s.insert(i, v) =~= left.push(v) + right);
    assert(s =~= left + right);
    lemma_multiset_commutative(left.push(v), right);
    lemma_multiset_commutative(left, right);
    assert(s.insert(i, v).to_multiset() =~= s.to_multiset().insert(v));
}

/// Picks the outputs of one value, in their order of appearance: the
/// subsequence a stable sort must keep.
pub open spec fn with_value(w: u64) -> spec_fn(Utxo) -> bool {
    |u: Utxo| u.value == w
}

proof fn lemma_filter_singleton(x: Utxo, p: spec_fn(Utxo) -> bool)
    ensures
        seq![x].filter(p) == if p(x) {
            seq![x]
        } else {
            Seq::<Utxo>::empty()
        },
{
    reveal(Seq::filter);
    assert(Seq::<Utxo>::empty().filter(p) =~= Seq::<Utxo>::empty());
    assert(seq![x].drop_last() =~= Seq::<Utxo>::empty());
    assert(seq![x].drop_last().filter(p) == Seq::<Utxo>::empty().filter(p));
    assert(seq![x].last() == x);
    if p(x) {
        assert(seq![x].filter(p) =~= seq![x]);
    } else {
        assert(seq![x].filter(p) =~= Seq::<Utxo>::empty());
    }
}

/// Inserting `u` after everything of its value and before everything above
/// it appends `u` to its value's subsequence and leaves every other value's
/// subsequence unchanged.
proof fn lemma_stable_insert_filter(out0: Seq<Utxo>, j: int, u: Utxo, w: u64)
    requires
        0 <= j <= out0.len(),
        forall|k: int| 0 <= k < j ==> (#[trigger] out0[k]).value <= u.value,
        forall|k: int| j <= k < out0.len() ==> (#[trigger] out0[k]).value > u.value,
    ensures
        out0.insert(j, u).filter(with_value(w)) == if u.value == w {
            out0.filter(with_value(w)).push(u)
        } else {
            out0.filter(with_value(w))
        },
{
    let p = with_value(w);
    let left = out0.subrange(0, j);
    let right = out0.subrange(j, out0.len() as int);
    assert(out0.insert(j, u) =~= left + seq![u] + right);
    assert(out0 =~= left + right);
    Seq::filter_distributes_over_add(left, seq![u], p);
    Seq::filter_distributes_over_add(left + seq![u], right, p);
    Seq::filter_distributes_over_add(left, right, p);
    lemma_filter_singleton(u, p);
    if u.value == w {
        assert(right.all(|x: Utxo| !p(x)));
        right.lemma_all_neg_filter_empty(p);
        assert(right.filter(p) =~= Seq::<Utxo>::empty());
        assert(out0.insert(j, u).filter(p) =~= left.filter(p) + seq![u]);
        assert(out0.filter(p) =~= left.filter(p));
        assert(left.filter(p) + seq![u] =~= left.filter(p).push(u));
    } else {
        assert(out0.insert(j, u).filter(p) =~= left.filter(p) + right.filter(p));
        assert(out0.filter(p) =~= left.filter(p) + right.filter(p));
    }
}

/// Orders a list of UTXOs by ascending `value`, keeping exactly the same
/// elements; outputs of equal value keep their order (each value's
/// subsequence of the result is that of the input).
pub fn sort_by_value(input: Vec<Utxo>) -> (r: Vec<Utxo>)
    ensures
        sorted_by_value(r@),
        r@.to_multiset() == input@.to_multiset(),
        r@.len() == input@.len(),
        forall|w: u64| #[trigger] r@.filter(with_value(w)) == input@.filter(with_value(w)),
{
    let ghost orig = input@;
    let mut rest = input;
    let mut out: Vec<Utxo> = Vec::new();
    proof {
        reveal(Seq::filter);
        assert forall|w: u64|
            #[trigger] out@.filter(with_value(w)) + rest@.filter(with_value(w)) == orig.filter(
                with_value(w),
            ) by {
            assert(out@.filter(with_value(w)) =~= Seq::<Utxo>::empty());
            assert(Seq::<Utxo>::empty() + rest@.filter(with_value(w)) =~= rest@.filter(
                with_value(w),
            ));
        }
    }
    while rest.len() > 0
        invariant
            sorted_by_value(out@),
            out@.to_multiset().add(rest@.to_multiset()) == orig.to_multiset(),
            out@.len() + rest@.len() == orig.len(),
            forall|w: u64|
                #[trigger] out@.filter(with_value(w)) + rest@.filter(with_value(w)) == orig.filter(
                    with_value(w),
                ),
        decreases rest@.len(),
    {
        let ghost rest0 = rest@;
        let ghost out0 = out@;
        let u = rest.remove(0);
        let mut j: usize = 0;
        while j < out.len() && out[j].value <= u.value
            invariant
                j <= out@.len(),
                forall|k: int| 0 <= k < j ==> #[trigger] out@[k].value <= u.value,
            decreases out@.len() - j,
        {
            j += 1;
        }
        out.insert(j, u);
        proof {
            lemma_to_multiset_insert(out0, j as int, u);
            assert(rest0.to_multiset().contains(rest0[0]));
            assert(out@.to_multiset().add(rest@.to_multiset()) =~= orig.to_multiset());
            assert forall|a: int, b: int| 0 <= a < b < out@.len() implies #[trigger] out@[a].value
                <= #[trigger] out@[b].value by {
                if b > j {
                    assert(out@[b] == out0[b - 1]);
                }
                if a > j {
                    assert(out@[a] == out0[a - 1]);
                }
                if a < j && b == j {
                    assert(out@[a] == out0[a]);
                }
                if a == j && b > j {
                    // the scan stopped because this element exceeds u's value
                    assert(out0[j as int].value > u.value);
                }
            }
            assert forall|k: int| j <= k < out0.len() implies (#[trigger] out0[k]).value
                > u.value by {
                if k > j {
                    assert(out0[j as int].value <= out0[k].value);
                }
            }
            assert(rest0 =~= seq![u] + rest@);
            assert forall|w: u64|
                #[trigger] out@.filter(with_value(w)) + rest@.filter(with_value(w)) == orig.filter(
                    with_value(w),
                ) by {
                let p = with_value(w);
                lemma_stable_insert_filter(out0, j as int, u, w);
                Seq::filter_distributes_over_add(seq![u], rest@, p);
                lemma_filter_singleton(u, p);
                if u.value == w {
                    assert(out0.filter(p).push(u) =~= out0.filter(p) + seq![u]);
                }
                assert(out@.filter(p) + rest@.filter(p) =~= out0.filter(p) + rest0.filter(p));
            }
        }
    }
    proof {
        assert(rest@.to_multiset() =~= Multiset::empty());
        assert(out@.to_multiset() =~= orig.to_multiset());
        reveal(Seq::filter);
        assert forall|w: u64|
            #[trigger] out@.filter(with_value(w)) == orig.filter(with_value(w)) by {
            assert(rest@.filter(with_value(w)) =~= Seq::<Utxo>::empty());
            assert(out@.filter(with_value(w)) + Seq::<Utxo>::empty() =~= out@.filter(
                with_value(w),
            ));
        }
    }
    out
}

/// The domain view of one upstream `listunspent` reply: every output
/// normalised, then ordered by ascending value, equal values keeping the
/// upstream order. Exactly the upstream outputs appear, no more and no less.
pub fn utxos_from_unspents(us: Vec<Unspent>) -> (r: Vec<Utxo>)
    ensures
        sorted_by_value(r@),
        r@.to_multiset() == us@.map_values(|u: Unspent| utxo_of(u)).to_multiset(),
        r@.len() == us@.len(),
        forall|w: u64|
            #[trigger] r@.filter(with_value(w)) == us@.map_values(
                |u: Unspent| utxo_of(u),
            ).filter(with_value(w)),
{
    let n = normalize(us);
    sort_by_value(n)
}

/// Mapping a function over two sequences with the same multiset of elements
/// yields the same multiset of results.
proof fn lemma_map_to_multiset_congruent<A, B>(s: Seq<A>, t: Seq<A>, f: spec_fn(A) -> B)
    requires
        s.to_multiset() == t.to_multiset(),
    ensures
        s.map_values(f).to_multiset() == t.map_values(f).to_multiset(),
    decreases s.len(),
{
    if s.len() == 0 {
        assert(s.to_multiset().len() == s.len());
        assert(t.to_multiset().len() == t.len());
        assert(s.map_values(f) =~= t.map_values(f));
    } else {
        let x = s[0];
        assert(s.to_multiset().contains(x));
        assert(t.to_multiset().contains(x));
        assert(t.contains(x));
        let i = choose|i: int| 0 <= i < t.len() && t[i] == x;
        let s1 = s.remove(0);
        let t1 = t.remove(i);
        assert(s1.to_multiset() == s.to_multiset().remove(x));
        assert(t1.to_multiset() == t.to_multiset().remove(x));
        lemma_map_to_multiset_congruent(s1, t1, f);
        let sm = s.map_values(f).to_multiset();
        let tm = t.map_values(f).to_multiset();
        assert(s.map_values(f).remove(0) =~= s1.map_values(f));
        assert(t.map_values(f).remove(i) =~= t1.map_values(f));
        assert(s.map_values(f)[0] == f(x));
        assert(t.map_values(f)[i] == f(x));
        assert(s1.map_values(f).to_multiset() == sm.remove(f(x)));
        assert(t1.map_values(f).to_multiset() == tm.remove(f(x)));
        assert(s.map_values(f).contains(f(x)));
        assert(t.map_values(f).contains(f(x)));
        assert forall|b: B| sm.count(b) == tm.count(b) by {
            if b == f(x) {
                assert(sm.remove(f(x)).count(b) == sm.count(b) - 1);
                assert(tm.remove(f(x)).count(b) == tm.count(b) - 1);
            } else {
                assert(sm.remove(f(x)).count(b) == sm.count(b));
                assert(tm.remove(f(x)).count(b) == tm.count(b));
            }
        }
        assert(sm =~= tm);
    }
}

/// The sorted domain view refers to exactly the outpoints of the upstream
/// reply: the multiset of `(txid, vout)` pairs is unchanged by
/// normalisation and ordering.
pub proof fn lemma_same_outpoints(us: Seq<Unspent>, r: Seq<Utxo>)
    requires
        r.to_multiset() == us.map_values(|u: Unspent| utxo_of(u)).to_multiset(),
    ensures
        r.map_values(|u: Utxo| utxo_outpoint(u)).to_multiset() == us.map_values(
            |u: Unspent| unspent_outpoint(u),
        ).to_multiset(),
{
    let norm = us.map_values(|u: Unspent| utxo_of(u));
    lemma_map_to_multiset_congruent(r, norm, |u: Utxo| utxo_outpoint(u));
    assert(norm.map_values(|u: Utxo| utxo_outpoint(u)) =~= us.map_values(
        |u: Unspent| unspent_outpoint(u),
    ));
}

/// A sequence drawn from the same multiset as a normalised upstream reply
/// has a spendable element exactly when the reply has one.
proof fn lemma_spendable_carries_over(us: Seq<Unspent>, v: Seq<Utxo>, min: u64)
    requires
        v.to_multiset() == us.map_values(|u: Unspent| utxo_of(u)).to_multiset(),
    ensures
        (exists|i: int| 0 <= i < v.len() && spendable(#[trigger] v[i], min)) <==> (exists|j: int|
            0 <= j < us.len() && spendable(utxo_of(#[trigger] us[j]), min)),
{
    let norm = us.map_values(|u: Unspent| utxo_of(u));
    if exists|i: int| 0 <= i < v.len() && spendable(#[trigger] v[i], min) {
        let i = choose|i: int| 0 <= i < v.len() && spendable(#[trigger] v[i], min);
        assert(v.contains(v[i]));
        assert(v.to_multiset().contains(v[i]));
        assert(norm.contains(v[i]));
        let j = choose|j: int| 0 <= j < norm.len() && norm[j] == v[i];
        assert(spendable(utxo_of(us[j]), min));
    }
    if exists|j: int| 0 <= j < us.len() && spendable(utxo_of(#[trigger] us[j]), min) {
        let j = choose|j: int| 0 <= j < us.len() && spendable(utxo_of(#[trigger] us[j]), min);
        assert(norm[j] == utxo_of(us[j]));
        assert(norm.contains(norm[j]));
        assert(norm.to_multiset().contains(norm[j]));
        assert(v.contains(norm[j]));
        let i = choose|i: int| 0 <= i < v.len() && v[i] == norm[j];
        assert(spendable(v[i], min));
    }
}

/// One iteration of the wait-for-a-spendable-UTXO poll, everything but the
/// fetch and the sleep: normalise and order the reply, then pick the first
/// clean output worth at least `min` satoshis — the smallest sufficient one.
///
/// `None` says exactly that the reply holds no clean, sufficient output and
/// the poll must sleep and try again; a returned UTXO always carries no
/// Atomicals payload, holds at least `min` satoshis, and comes from the
/// reply. The last clause pins the choice completely: the result is the
/// first spendable element of the value-sorted view of the reply — the view
/// being the unique ordering that is sorted and keeps each value's outputs
/// in upstream order.
pub fn poll_step(us: Vec<Unspent>, min: u64) -> (r: Option<Utxo>)
    ensures
        r matches Some(u) ==> spendable(u, min) && exists|j: int|
            0 <= j < us@.len() && utxo_of(#[trigger] us@[j]) == u,
        exists|v: Seq<Utxo>|
            {
                &&& #[trigger] sorted_by_value(v)
                &&& forall|w: u64|
                    #[trigger] v.filter(with_value(w)) == us@.map_values(
                        |q: Unspent| utxo_of(q),
                    ).filter(with_value(w))
                &&& r == match first_spendable_index(v, min) {
                    Some(i) => Some(v[i]),
                    None => None::<Utxo>,
                }
            },
        r matches Some(u) ==> forall|j: int|
            0 <= j < us@.len() && spendable(utxo_of(#[trigger] us@[j]), min) ==> u.value
                <= utxo_of(us@[j]).value,
        r is None <==> forall|j: int|
            0 <= j < us@.len() ==> !spendable(utxo_of(#[trigger] us@[j]), min),
{
    let v = utxos_from_unspents(us);
    let ghost vs = v@;
    let r = select_spendable(v, min);
    proof {
        assert(sorted_by_value(vs));
        lemma_spendable_carries_over(us@, vs, min);
        if r is Some {
            let u = r->Some_0;
            let i = first_spendable_index(vs, min)->Some_0;
            lemma_first_spendable_in_bounds(vs, min);
            assert(vs.contains(vs[i]));
            assert(vs.to_multiset().contains(u));
            let norm = us@.map_values(|q: Unspent| utxo_of(q));
            assert(norm.contains(u));
            let j = choose|j: int| 0 <= j < norm.len() && norm[j] == u;
            assert(utxo_of(us@[j]) == u);
            lemma_smallest_sufficient(vs, min);
            assert forall|j2: int|
                0 <= j2 < us@.len() && spendable(utxo_of(#[trigger] us@[j2]), min) implies u.value
                <= utxo_of(us@[j2]).value by {
                assert(norm[j2] == utxo_of(us@[j2]));
                assert(norm.contains(norm[j2]));
                assert(norm.to_multiset().contains(norm[j2]));
                assert(vs.contains(norm[j2]));
                let k = choose|k: int| 0 <= k < vs.len() && vs[k] == norm[j2];
                assert(spendable(vs[k], min));
                assert(vs[i].value <= vs[k].value);
            }
        } else {
            assert(first_spendable_index(vs, min) is None);
            assert(forall|i: int| 0 <= i < vs.len() ==> !spendable(#[trigger] vs[i], min));
        }
    }
    r
}

/// Everything before the first spendable position is unspendable.
proof fn lemma_first_spendable_is_first(s: Seq<Utxo>, min: u64)
    ensures
        first_spendable_index(s, min) matches Some(i) ==> forall|k: int|
            0 <= k < i ==> !spendable(#[trigger] s[k], min),
    decreases s.len(),
{
    lemma_first_spendable_in_bounds(s, min);
    if s.len() > 0 && !spendable(s[0], min) {
        lemma_first_spendable_is_first(s.drop_first(), min);
        lemma_first_spendable_in_bounds(s.drop_first(), min);
        if first_spendable_index(s, min) is Some {
            let i = first_spendable_index(s, min)->Some_0;
            assert(first_spendable_index(s.drop_first(), min) == Some(i - 1));
            assert forall|k: int| 0 <= k < i implies !spendable(#[trigger] s[k], min) by {
                if k > 0 {
                    assert(s.drop_first() =~= s.subrange(1, s.len() as int));
                    assert(s[k] == s.drop_first()[k - 1]);
                    assert(!spendable(s.drop_first()[k - 1], min));
                }
            }
        }
    }
}

/// On a value-sorted list, the first spendable UTXO is the smallest
/// sufficient one: no spendable UTXO on the list is worth less.
pub proof fn lemma_smallest_sufficient(s: Seq<Utxo>, min: u64)
    requires
        sorted_by_value(s),
    ensures
        first_spendable_index(s, min) matches Some(i) ==> forall|j: int|
            0 <= j < s.len() && spendable(#[trigger] s[j], min) ==> s[i].value <= s[j].value,
{
    lemma_first_spendable_in_bounds(s, min);
    lemma_first_spendable_is_first(s, min);
    if first_spendable_index(s, min) is Some {
        let i = first_spendable_index(s, min)->Some_0;
        assert forall|j: int|
            0 <= j < s.len() && spendable(#[trigger] s[j], min) implies s[i].value
            <= s[j].value by {
            if j < i {
                assert(!spendable(s[j], min));
            }
        }
    }
}

/// A first spendable position lies inside the sequence.
proof fn lemma_first_spendable_in_bounds(s: Seq<Utxo>, min: u64)
    ensures
        first_spendable_index(s, min) matches Some(i) ==> 0 <= i < s.len() && spendable(
            s[i],
            min,
        ),
    decreases s.len(),
{
    if s.len() > 0 && !spendable(s[0], min) {
        lemma_first_spendable_in_bounds(s.drop_first(), min);
    }
}

/// The position of the first spendable UTXO for minimum `min`, if any.
pub open spec fn first_spendable_index(s: Seq<Utxo>, min: u64) -> Option<int>
    decreases s.len(),
{
    if s.len() == 0 {
        None::<int>
    } else if spendable(s[0], min) {
        Some(0)
    } else {
        match first_spendable_index(s.drop_first(), min) {
            Some(i) => Some(i + 1),
            None => None,
        }
    }
}

/// Scans in order for the position of the first spendable UTXO, or `None`
/// when no listed output is clean and large enough.
pub fn find_spendable(utxos: &Vec<Utxo>, min: u64) -> (r: Option<usize>)
    ensures
        r matches Some(i) ==> first_spendable_index(utxos@, min) == Some(i as int),
        r is None <==> first_spendable_index(utxos@, min) is None,
        r matches Some(i) ==> i < utxos@.len() && spendable(utxos@[i as int], min),
        r is None ==> forall|i: int| 0 <= i < utxos@.len() ==> !spendable(#[trigger] utxos@[i], min),
{
    let mut i: usize = 0;
    while i < utxos.len()
        invariant
            i <= utxos@.len(),
            forall|k: int| 0 <= k < i ==> !spendable(#[trigger] utxos@[k], min),
        decreases utxos@.len() - i,
    {
        if utxos[i].atomicals.len() == 0 && utxos[i].value >= min {
            proof {
                lemma_first_spendable_prefix(utxos@, min, i as int);
            }
            return Some(i);
        }
        i += 1;
    }
    proof {
        lemma_no_spendable(utxos@, min);
    }
    None
}

/// Hands out the first spendable UTXO in scan order, or `None` when no
/// listed output is clean and large enough. On a value-sorted list this is
/// the smallest sufficient clean output.
pub fn select_spendable(utxos: Vec<Utxo>, min: u64) -> (r: Option<Utxo>)
    ensures
        r == match first_spendable_index(utxos@, min) {
            Some(i) => Some(utxos@[i]),
            None => None::<Utxo>,
        },
        r matches Some(u) ==> spendable(u, min),
        r is None ==> forall|i: int| 0 <= i < utxos@.len() ==> !spendable(#[trigger] utxos@[i], min),
{
    let found = find_spendable(&utxos, min);
    match found {
        Some(i) => {
            let mut rem = utxos;
            let u = rem.remove(i);
            Some(u)
        },
        None => None,
    }
}

/// If everything before position `i` is unspendable and position `i` is
/// spendable, then `i` is the first spendable position.
proof fn lemma_first_spendable_prefix(s: Seq<Utxo>, min: u64, i: int)
    requires
        0 <= i < s.len(),
        spendable(s[i], min),
        forall|k: int| 0 <= k < i ==> !spendable(#[trigger] s[k], min),
    ensures
        first_spendable_index(s, min) == Some(i),
    decreases s.len(),
{
    if i > 0 {
        lemma_first_spendable_prefix(s.drop_first(), min, i - 1);
    }
}

/// A list with no spendable element has no first spendable position.
proof fn lemma_no_spendable(s: Seq<Utxo>, min: u64)
    requires
        forall|k: int| 0 <= k < s.len() ==> !spendable(#[trigger] s[k], min),
    ensures
        first_spendable_index(s, min) is None,
    decreases s.len(),
{
    if s.len() > 0 {
        lemma_no_spendable(s.drop_first(), min);
    }
}

} // verus!
