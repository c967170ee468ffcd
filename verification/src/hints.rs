//! Hint labels: the key sequences a user types to pick an on-screen element.
//!
//! Element `i` gets the base-`b` digits of `i` (least significant first,
//! exactly `hint_length` of them) written with the characters of the
//! alphabet, where `b` is the alphabet's length. The label length itself is
//! `ceil(log_b(n))` computed in floating point by the caller.

use vstd::prelude::*;
use vstd::arithmetic::power::pow;
use vstd::arithmetic::div_mod::{lemma_breakdown, lemma_div_denominator, lemma_small_mod};
use vstd::arithmetic::mul::lemma_mul_is_commutative;
use crate::text::{chars_of, push_char, str_eq};

verus! {

/// What remains of `index` after `steps` digits of base `base` were taken.
pub open spec fn remaining_after(index: nat, base: nat, steps: nat) -> nat
    decreases steps,
{
    if steps == 0 {
        index
    } else {
        remaining_after(index, base, (steps - 1) as nat) / base
    }
}

/// The label of element `index`: its first `len` base-`b` digits, least
/// significant first, each written as the alphabet character it selects.
pub open spec fn hint_label(alphabet: Seq<char>, index: nat, len: nat) -> Seq<char>
    decreases len,
{
    if len == 0 {
        Seq::empty()
    } else {
        let b = alphabet.len();
        hint_label(alphabet, index, (len - 1) as nat).push(
            alphabet[(remaining_after(index, b, (len - 1) as nat) % b) as int],
        )
    }
}

/// The labels of a list of pairs, with their elements.
pub open spec fn pairs_view<T>(v: Seq<(String, T)>) -> Seq<(Seq<char>, T)> {
    v.map_values(|p: (String, T)| (p.0@, p.1))
}

/// The position of the last pair with a label, `-1` where there is none.
pub open spec fn label_index<T>(m: Seq<(Seq<char>, T)>, label: Seq<char>) -> int
    decreases m.len(),
{
    if m.len() == 0 {
        -1
    } else if m.last().0 == label {
        m.len() - 1
    } else {
        label_index(m.drop_last(), label)
    }
}

/// A pair put into a map kept as a list: it replaces the element under its
/// label where there is one, and is appended otherwise.
pub open spec fn insert_pair<T>(m: Seq<(Seq<char>, T)>, p: (Seq<char>, T)) -> Seq<(Seq<char>, T)> {
    let j = label_index(m, p.0);
    if j >= 0 {
        m.update(j, p)
    } else {
        m.push(p)
    }
}

/// The map that inserting pairs in order builds, kept as a list in the
/// order labels first appear: each label once, with the element of its
/// last pair.
pub open spec fn map_of_pairs<T>(ps: Seq<(Seq<char>, T)>) -> Seq<(Seq<char>, T)>
    decreases ps.len(),
{
    if ps.len() == 0 {
        Seq::empty()
    } else {
        insert_pair(map_of_pairs(ps.drop_last()), ps.last())
    }
}

/// The element `i` pairs with its label, for each element in order.
pub open spec fn labelled<T>(alphabet: Seq<char>, children: Seq<T>, len: nat) -> Seq<(Seq<char>, T)> {
    Seq::new(children.len(), |i: int| (hint_label(alphabet, i as nat, len), children[i]))
}

/// Whether no two pairs share a label.
pub open spec fn labels_distinct<T>(m: Seq<(Seq<char>, T)>) -> bool {
    forall|i: int, j: int| 0 <= i < j < m.len() ==> m[i].0 != m[j].0
}

proof fn lemma_label_index<T>(m: Seq<(Seq<char>, T)>, label: Seq<char>)
    ensures
        -1 <= label_index(m, label) < m.len(),
        label_index(m, label) >= 0 ==> m[label_index(m, label)].0 == label,
        label_index(m, label) == -1 ==> forall|k: int| 0 <= k < m.len() ==> m[k].0 != label,
    decreases m.len(),
{
    if m.len() > 0 {
        let q = m.drop_last();
        lemma_label_index(q, label);
        assert forall|k: int| 0 <= k < q.len() implies q[k] == m[k] by {}
        assert(m[m.len() - 1] == m.last());
    }
}

proof fn lemma_map_of_pairs_distinct<T>(ps: Seq<(Seq<char>, T)>)
    ensures
        labels_distinct(map_of_pairs(ps)),
    decreases ps.len(),
{
    if ps.len() > 0 {
        let m = map_of_pairs(ps.drop_last());
        lemma_map_of_pairs_distinct(ps.drop_last());
        lemma_label_index(m, ps.last().0);
        let r = map_of_pairs(ps);
        if label_index(m, ps.last().0) >= 0 {
            assert forall|i: int, j: int| 0 <= i < j < r.len() implies r[i].0 != r[j].0 by {
                assert(r[i].0 == m[i].0 && r[j].0 == m[j].0);
            }
        } else {
            assert forall|i: int, j: int| 0 <= i < j < r.len() implies r[i].0 != r[j].0 by {
                if j < m.len() {
                    assert(r[i] == m[i] && r[j] == m[j]);
                } else {
                    assert(r[i] == m[i]);
                }
            }
        }
    }
}

/// Where no two pairs share a label, the map keeps every pair, in order.
pub proof fn distinct_labels_keep_every_pair<T>(ps: Seq<(Seq<char>, T)>)
    requires
        labels_distinct(ps),
    ensures
        map_of_pairs(ps) == ps,
    decreases ps.len(),
{
    if ps.len() > 0 {
        let q = ps.drop_last();
        assert(labels_distinct(q)) by {
            assert forall|i: int, j: int| 0 <= i < j < q.len() implies q[i].0 != q[j].0 by {
                assert(q[i] == ps[i] && q[j] == ps[j]);
            }
        }
        distinct_labels_keep_every_pair(q);
        lemma_label_index(q, ps.last().0);
        if label_index(q, ps.last().0) >= 0 {
            let k = label_index(q, ps.last().0);
            assert(ps[k] == q[k]);
            assert(ps[ps.len() - 1] == ps.last());
        }
        assert(q.push(ps.last()) =~= ps);
    }
}

/// The position of the last pair labelled `label`.
fn find_label<T>(hints: &Vec<(String, T)>, label: &str) -> (r: Option<usize>)
    ensures
        match r {
            Some(j) => j as int == label_index(pairs_view(hints@), label@),
            None => label_index(pairs_view(hints@), label@) == -1,
        },
{
    let ghost v = pairs_view(hints@);
    let mut k: usize = hints.len();
    assert(v.take(k as int) =~= v);
    while k > 0
        invariant
            k <= hints@.len(),
            v == pairs_view(hints@),
            label_index(v, label@) == label_index(v.take(k as int), label@),
        decreases k,
    {
        let ghost t = v.take(k as int);
        assert(t.drop_last() =~= v.take(k - 1));
        assert(t.last() == v[k - 1]);
        assert(v[k - 1] == (hints@[k - 1].0@, hints@[k - 1].1));
        if str_eq(hints[k - 1].0.as_str(), label) {
            return Some(k - 1);
        }
        k -= 1;
    }
    assert(v.take(0) =~= Seq::<(Seq<char>, T)>::empty());
    None
}

/// Assigns labels to elements as a map from label to element: element `i`
/// gets `hint_label(alphabet, i, hint_length)`, and where two labels
/// coincide the later element is the one kept under it. The map is kept as
/// a list in the order labels first appear; no label occurs twice.
pub fn get_hints<T: Copy>(children: &[T], alphabet: &str, hint_length: usize) -> (r: Vec<
    (String, T),
>)
    requires
        children@.len() > 0 && hint_length > 0 ==> alphabet@.len() > 0,
    ensures
        pairs_view(r@) == map_of_pairs(labelled(alphabet@, children@, hint_length as nat)),
        labels_distinct(pairs_view(r@)),
{
    let n = children.len();
    let ghost all = labelled(alphabet@, children@, hint_length as nat);
    let mut hints: Vec<(String, T)> = Vec::new();
    if n == 0 {
        assert(all =~= Seq::<(Seq<char>, T)>::empty());
        proof {
            lemma_map_of_pairs_distinct(all);
        }
        return hints;
    }
    let chars = chars_of(alphabet);
    let alphabet_len = chars.len();
    let mut index: usize = 0;
    while index < n
        invariant
            n == children@.len(),
            index <= n,
            chars@ == alphabet@,
            alphabet_len == chars@.len(),
            hint_length > 0 ==> alphabet_len > 0,
            all == labelled(alphabet@, children@, hint_length as nat),
            pairs_view(hints@) == map_of_pairs(all.take(index as int)),
        decreases n - index,
    {
        let mut label = String::new();
        let mut remaining = index;
        let mut k: usize = 0;
        while k < hint_length
            invariant
                k <= hint_length,
                hint_length > 0 ==> alphabet_len > 0,
                alphabet_len == chars@.len(),
                chars@ == alphabet@,
                remaining == remaining_after(index as nat, alphabet_len as nat, k as nat),
                label@ == hint_label(alphabet@, index as nat, k as nat),
            decreases hint_length - k,
        {
            let char_index = remaining % alphabet_len;
            push_char(&mut label, chars[char_index]);
            remaining = remaining / alphabet_len;
            k += 1;
        }
        let ghost before = pairs_view(hints@);
        let ghost p = (label@, children@[index as int]);
        assert(all.take(index + 1).drop_last() =~= all.take(index as int));
        assert(all.take(index + 1).last() == p);
        proof {
            lemma_label_index(before, label@);
        }
        match find_label(&hints, label.as_str()) {
            Some(j) => {
                hints.set(j, (label, children[index]));
                assert(pairs_view(hints@) =~= before.update(j as int, p));
            },
            None => {
                hints.push((label, children[index]));
                assert(pairs_view(hints@) =~= before.push(p));
            },
        }
        index += 1;
    }
    assert(all.take(n as int) =~= all);
    proof {
        lemma_map_of_pairs_distinct(all);
    }
    hints
}

// ---------------------------------------------------------------------------
// Laws
// ---------------------------------------------------------------------------

/// Whether no character occurs twice.
pub open spec fn distinct_chars(s: Seq<char>) -> bool {
    forall|p: int, q: int| 0 <= p < q < s.len() ==> s[p] != s[q]
}

proof fn lemma_remaining_is_quotient(index: nat, b: nat, k: nat)
    requires
        b > 0,
    ensures
        pow(b as int, k) > 0,
        remaining_after(index, b, k) == index as int / pow(b as int, k),
    decreases k,
{
    reveal(pow);
    vstd::arithmetic::power::lemma_pow_positive(b as int, k);
    if k > 0 {
        let km = (k - 1) as nat;
        lemma_remaining_is_quotient(index, b, km);
        let p = pow(b as int, km);
        lemma_div_denominator(index as int, p, b as int);
        lemma_mul_is_commutative(p, b as int);
        assert(pow(b as int, k) == b * p);
    }
}

/// Every label has the requested length and consists of alphabet characters.
pub proof fn hint_label_shape(alphabet: Seq<char>, index: nat, len: nat)
    requires
        alphabet.len() > 0,
    ensures
        hint_label(alphabet, index, len).len() == len,
        forall|k: int|
            0 <= k < len ==> alphabet.contains(#[trigger] hint_label(alphabet, index, len)[k]),
    decreases len,
{
    if len > 0 {
        let l = (len - 1) as nat;
        hint_label_shape(alphabet, index, l);
        let b = alphabet.len();
        let d = (remaining_after(index, b, l) % b) as int;
        assert(alphabet[d] == alphabet[d]);
        assert forall|k: int| 0 <= k < len implies alphabet.contains(
            #[trigger] hint_label(alphabet, index, len)[k],
        ) by {
            if k < l {
                assert(hint_label(alphabet, index, len)[k] == hint_label(alphabet, index, l)[k]);
            } else {
                assert(hint_label(alphabet, index, len)[k] == alphabet[d]);
            }
        }
    }
}

proof fn lemma_equal_labels_agree_mod(alphabet: Seq<char>, i: nat, j: nat, len: nat)
    requires
        alphabet.len() > 0,
        distinct_chars(alphabet),
        hint_label(alphabet, i, len) == hint_label(alphabet, j, len),
    ensures
        pow(alphabet.len() as int, len) > 0,
        i as int % pow(alphabet.len() as int, len) == j as int % pow(alphabet.len() as int, len),
    decreases len,
{
    reveal(pow);
    let b = alphabet.len();
    vstd::arithmetic::power::lemma_pow_positive(b as int, len);
    if len == 0 {
        assert(pow(b as int, 0) == 1);
        assert(i as int % 1 == 0) by (nonlinear_arith);
        assert(j as int % 1 == 0) by (nonlinear_arith);
    } else {
        let l = (len - 1) as nat;
        let li = hint_label(alphabet, i, len);
        let lj = hint_label(alphabet, j, len);
        assert(li.drop_last() =~= hint_label(alphabet, i, l));
        assert(lj.drop_last() =~= hint_label(alphabet, j, l));
        lemma_equal_labels_agree_mod(alphabet, i, j, l);
        let di = (remaining_after(i, b, l) % b) as int;
        let dj = (remaining_after(j, b, l) % b) as int;
        assert(li.last() == alphabet[di]);
        assert(lj.last() == alphabet[dj]);
        assert(di == dj);
        lemma_remaining_is_quotient(i, b, l);
        lemma_remaining_is_quotient(j, b, l);
        let p = pow(b as int, l);
        lemma_breakdown(i as int, p, b as int);
        lemma_breakdown(j as int, p, b as int);
        lemma_mul_is_commutative(p, b as int);
        assert(pow(b as int, len) == b * p);
    }
}

/// With an alphabet of distinct characters and labels long enough to count
/// every element (`n <= b^len`), different elements get different labels.
pub proof fn hint_labels_are_distinct(alphabet: Seq<char>, len: nat, i: nat, j: nat)
    requires
        alphabet.len() > 0,
        distinct_chars(alphabet),
        i < pow(alphabet.len() as int, len),
        j < pow(alphabet.len() as int, len),
        i != j,
    ensures
        hint_label(alphabet, i, len) != hint_label(alphabet, j, len),
{
    if hint_label(alphabet, i, len) == hint_label(alphabet, j, len) {
        lemma_equal_labels_agree_mod(alphabet, i, j, len);
        let p = pow(alphabet.len() as int, len);
        lemma_small_mod(i, p as nat);
        lemma_small_mod(j, p as nat);
    }
}

/// With an alphabet of distinct characters and labels long enough to count
/// every element, no element is lost: the hints are every element with its
/// label, in order.
pub proof fn every_element_keeps_its_label<T>(alphabet: Seq<char>, children: Seq<T>, len: nat)
    requires
        alphabet.len() > 0,
        distinct_chars(alphabet),
        children.len() <= pow(alphabet.len() as int, len),
    ensures
        map_of_pairs(labelled(alphabet, children, len)) == labelled(alphabet, children, len),
{
    let ps = labelled(alphabet, children, len);
    assert forall|i: int, j: int| 0 <= i < j < ps.len() implies ps[i].0 != ps[j].0 by {
        hint_labels_are_distinct(alphabet, len, i as nat, j as nat);
    }
    distinct_labels_keep_every_pair(ps);
}

} // verus!
