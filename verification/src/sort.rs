//! Stable sorting by a text-and-rank key, the ordering every list in the
//! planner is presented in.

use vstd::prelude::*;
use vstd::string::StrSliceExecFns;

verus! {

/// Lexicographic order on character sequences, character by character on their
/// code points (the order `String`'s `Ord` gives).
pub open spec fn text_le(a: Seq<char>, b: Seq<char>) -> bool
    decreases a.len(),
{
    if a.len() == 0 {
        true
    } else if b.len() == 0 {
        false
    } else if a[0] != b[0] {
        a[0] < b[0]
    } else {
        text_le(a.drop_first(), b.drop_first())
    }
}

/// A sort key: a number first, then a text, then a second number for ties.
pub struct SortKey {
    pub major: u64,
    pub text: String,
    pub minor: u64,
}

impl View for SortKey {
    type V = (u64, Seq<char>, u64);

    open spec fn view(&self) -> (u64, Seq<char>, u64) {
        (self.major, self.text@, self.minor)
    }
}

/// The order on sort keys: by the first number, then the text, then the second number.
pub open spec fn key_le(a: (u64, Seq<char>, u64), b: (u64, Seq<char>, u64)) -> bool {
    a.0 < b.0 || (a.0 == b.0 && ((text_le(a.1, b.1) && a.1 != b.1) || (a.1 == b.1 && a.2 <= b.2)))
}

pub proof fn lemma_text_le_refl(a: Seq<char>)
    ensures
        text_le(a, a),
    decreases a.len(),
{
    if a.len() > 0 {
        lemma_text_le_refl(a.drop_first());
    }
}

pub proof fn lemma_text_le_total(a: Seq<char>, b: Seq<char>)
    ensures
        text_le(a, b) || text_le(b, a),
    decreases a.len(),
{
    if a.len() > 0 && b.len() > 0 && a[0] == b[0] {
        lemma_text_le_total(a.drop_first(), b.drop_first());
    }
}

pub proof fn lemma_text_le_antisym(a: Seq<char>, b: Seq<char>)
    requires
        text_le(a, b),
        text_le(b, a),
    ensures
        a == b,
    decreases a.len(),
{
    if a.len() == 0 {
        assert(a =~= b);
    } else {
        lemma_text_le_antisym(a.drop_first(), b.drop_first());
        assert(a =~= seq![a[0]] + a.drop_first());
        assert(b =~= seq![b[0]] + b.drop_first());
    }
}

pub proof fn lemma_text_le_trans(a: Seq<char>, b: Seq<char>, c: Seq<char>)
    requires
        text_le(a, b),
        text_le(b, c),
    ensures
        text_le(a, c),
    decreases a.len(),
{
    if a.len() > 0 && b.len() > 0 && c.len() > 0 && a[0] == b[0] && b[0] == c[0] {
        lemma_text_le_trans(a.drop_first(), b.drop_first(), c.drop_first());
    }
}

pub proof fn lemma_key_le_refl(a: (u64, Seq<char>, u64))
    ensures
        key_le(a, a),
{
}

pub proof fn lemma_key_le_total(a: (u64, Seq<char>, u64), b: (u64, Seq<char>, u64))
    ensures
        key_le(a, b) || key_le(b, a),
{
    lemma_text_le_total(a.1, b.1);
}

pub proof fn lemma_key_le_trans(a: (u64, Seq<char>, u64), b: (u64, Seq<char>, u64), c: (u64, Seq<char>, u64))
    requires
        key_le(a, b),
        key_le(b, c),
    ensures
        key_le(a, c),
{
    if a.0 == b.0 && b.0 == c.0 && a.1 != b.1 && b.1 != c.1 {
        lemma_text_le_trans(a.1, b.1, c.1);
        if a.1 == c.1 {
            lemma_text_le_antisym(a.1, b.1);
        }
    }
}

proof fn lemma_text_le_skip(a: Seq<char>, b: Seq<char>, i: int)
    requires
        0 <= i <= a.len(),
        i <= b.len(),
        forall|k: int| 0 <= k < i ==> a[k] == b[k],
    ensures
        text_le(a, b) == text_le(a.skip(i), b.skip(i)),
    decreases i,
{
    if i > 0 {
        assert forall|k: int| 0 <= k < i - 1 implies a.drop_first()[k] == b.drop_first()[k] by {
            assert(a[k + 1] == b[k + 1]);
        }
        lemma_text_le_skip(a.drop_first(), b.drop_first(), i - 1);
        assert(a.drop_first().skip(i - 1) =~= a.skip(i));
        assert(b.drop_first().skip(i - 1) =~= b.skip(i));
    } else {
        assert(a.skip(0) =~= a);
        assert(b.skip(0) =~= b);
    }
}

/// Whether `a` sorts before or together with `b` (`a <= b` on `str`).
pub fn text_le_exec(a: &str, b: &str) -> (r: bool)
    ensures
        r == text_le(a@, b@),
{
    let n = a.unicode_len();
    let m = b.unicode_len();
    let mut i: usize = 0;
    while i < n && i < m && a.get_char(i) == b.get_char(i)
        invariant
            n == a@.len(),
            m == b@.len(),
            i <= n,
            i <= m,
            forall|k: int| 0 <= k < i ==> a@[k] == b@[k],
        decreases n - i,
    {
        i = i + 1;
    }
    proof {
        lemma_text_le_skip(a@, b@, i as int);
    }
    if i == n {
        true
    } else if i == m {
        false
    } else {
        a.get_char(i) < b.get_char(i)
    }
}

/// Whether two texts are equal.
fn text_same(a: &str, b: &str) -> (r: bool)
    ensures
        r == (a@ == b@),
{
    crate::text::text_eq(a, b)
}

/// `key_le` on executable keys.
pub fn key_le_exec(a: &SortKey, b: &SortKey) -> (r: bool)
    ensures
        r == key_le(a@, b@),
{
    if a.major != b.major {
        return a.major < b.major;
    }
    let same = text_same(a.text.as_str(), b.text.as_str());
    if same {
        a.minor <= b.minor
    } else {
        text_le_exec(a.text.as_str(), b.text.as_str())
    }
}

/// `output` is `input` reordered by `perm` (output position to input position),
/// sorted by key, and with equal keys kept in their input order.
pub open spec fn is_sort_permutation<T>(
    input: Seq<(SortKey, T)>,
    output: Seq<(SortKey, T)>,
    perm: Seq<int>,
) -> bool {
    &&& perm.len() == input.len()
    &&& output.len() == input.len()
    &&& forall|k: int| 0 <= k < perm.len() ==> 0 <= #[trigger] perm[k] < input.len()
    &&& forall|k: int| 0 <= k < perm.len() ==> #[trigger] output[k] == input[perm[k]]
    &&& forall|k1: int, k2: int|
        0 <= k1 < k2 < perm.len() ==> #[trigger] perm[k1] != #[trigger] perm[k2]
    &&& forall|k1: int, k2: int|
        0 <= k1 < k2 < output.len() ==> key_le(#[trigger] output[k1].0@, #[trigger] output[k2].0@)
    &&& forall|k1: int, k2: int|
        0 <= k1 < k2 < output.len() && #[trigger] output[k1].0@ == #[trigger] output[k2].0@
            ==> perm[k1] < perm[k2]
}

/// `output` is the stable sort of `input` by key.
pub open spec fn is_stable_sort_of<T>(input: Seq<(SortKey, T)>, output: Seq<(SortKey, T)>) -> bool {
    exists|perm: Seq<int>| is_sort_permutation(input, output, perm)
}

/// Sorts the pairs by key; pairs with equal keys keep their input order.
pub fn stable_sort_by_key<T>(items: Vec<(SortKey, T)>) -> (r: Vec<(SortKey, T)>)
    ensures
        is_stable_sort_of(items@, r@),
{
    let ghost orig = items@;
    let n = items.len();
    let mut rest = items;
    let mut out: Vec<(SortKey, T)> = Vec::new();
    let ghost mut perm: Seq<int> = Seq::empty();
    let mut i: usize = 0;
    while i < n
        invariant
            n == orig.len(),
            i <= n,
            rest@ == orig.skip(i as int),
            is_sort_permutation(orig.take(i as int), out@, perm),
            forall|k: int| 0 <= k < perm.len() ==> #[trigger] perm[k] < i,
        decreases n - i,
    {
        assert(rest@.len() > 0);
        let x = rest.remove(0);
        assert(x == orig[i as int]);
        let mut p: usize = 0;
        while p < out.len() && key_le_exec(&out[p].0, &x.0)
            invariant
                p <= out.len(),
                forall|k: int| 0 <= k < p ==> key_le(#[trigger] out@[k].0@, x.0@),
            decreases out.len() - p,
        {
            p = p + 1;
        }
        proof {
            lemma_insert_step(orig, i as int, out@, perm, x, p as int);
        }
        out.insert(p, x);
        proof {
            perm = perm.insert(p as int, i as int);
            assert(rest@ =~= orig.skip(i + 1));
        }
        i = i + 1;
    }
    assert(orig.take(n as int) =~= orig);
    out
}

proof fn lemma_insert_step<T>(
    orig: Seq<(SortKey, T)>,
    i: int,
    out: Seq<(SortKey, T)>,
    perm: Seq<int>,
    x: (SortKey, T),
    p: int,
)
    requires
        0 <= i < orig.len(),
        x == orig[i],
        is_sort_permutation(orig.take(i), out, perm),
        forall|k: int| 0 <= k < perm.len() ==> #[trigger] perm[k] < i,
        0 <= p <= out.len(),
        forall|k: int| 0 <= k < p ==> key_le(#[trigger] out[k].0@, x.0@),
        p == out.len() || !key_le(out[p].0@, x.0@),
    ensures
        is_sort_permutation(orig.take(i + 1), out.insert(p, x), perm.insert(p, i)),
        forall|k: int| 0 <= k < perm.insert(p, i).len() ==> #[trigger] perm.insert(p, i)[k] < i + 1,
{
    let out2 = out.insert(p, x);
    let perm2 = perm.insert(p, i);
    let input2 = orig.take(i + 1);
    // Everything from p on sorts strictly after x.
    assert forall|k: int| p <= k < out.len() implies !key_le(#[trigger] out[k].0@, x.0@) && key_le(x.0@, out[k].0@) by {
        if key_le(out[k].0@, x.0@) {
            if k > p {
                lemma_key_le_trans(out[p].0@, out[k].0@, x.0@);
            }
        }
        lemma_key_le_total(out[k].0@, x.0@);
    }
    assert forall|k: int| 0 <= k < perm2.len() implies 0 <= #[trigger] perm2[k] < input2.len() && out2[k] == input2[perm2[k]] by {
        if k < p {
            assert(perm2[k] == perm[k]);
        } else if k > p {
            assert(perm2[k] == perm[k - 1]);
        }
    }
    assert forall|k1: int, k2: int| 0 <= k1 < k2 < perm2.len() implies #[trigger] perm2[k1] != #[trigger] perm2[k2] by {
        if k1 != p && k2 != p {
            let j1 = if k1 < p { k1 } else { k1 - 1 };
            let j2 = if k2 < p { k2 } else { k2 - 1 };
            assert(perm2[k1] == perm[j1]);
            assert(perm2[k2] == perm[j2]);
        } else if k1 == p {
            assert(perm2[k2] == perm[k2 - 1]);
        } else {
            assert(perm2[k1] == perm[k1]);
        }
    }
    assert forall|k1: int, k2: int| 0 <= k1 < k2 < out2.len() implies key_le(#[trigger] out2[k1].0@, #[trigger] out2[k2].0@) by {
        if k1 != p && k2 != p {
            let j1 = if k1 < p { k1 } else { k1 - 1 };
            let j2 = if k2 < p { k2 } else { k2 - 1 };
            assert(out2[k1] == out[j1]);
            assert(out2[k2] == out[j2]);
        } else if k1 == p {
            assert(out2[k2] == out[k2 - 1]);
        } else {
            assert(out2[k1] == out[k1]);
        }
    }
    assert forall|k1: int, k2: int|
        0 <= k1 < k2 < out2.len() && #[trigger] out2[k1].0@ == #[trigger] out2[k2].0@ implies perm2[k1] < perm2[k2] by {
        if k1 != p && k2 != p {
            let j1 = if k1 < p { k1 } else { k1 - 1 };
            let j2 = if k2 < p { k2 } else { k2 - 1 };
            assert(out2[k1] == out[j1]);
            assert(out2[k2] == out[j2]);
            assert(perm2[k1] == perm[j1]);
            assert(perm2[k2] == perm[j2]);
        } else if k1 == p {
            assert(out2[k2] == out[k2 - 1]);
            lemma_key_le_refl(x.0@);
        } else {
            assert(perm2[k1] == perm[k1]);
        }
    }
    assert forall|k: int| 0 <= k < perm2.len() implies #[trigger] perm2[k] < i + 1 by {
        if k < p {
            assert(perm2[k] == perm[k]);
        } else if k > p {
            assert(perm2[k] == perm[k - 1]);
        }
    }
}


/// `output` is `input` reordered by `perm`, sorted by `key`, with equal keys in input order.
pub open spec fn is_perm_sorted_by<T>(
    input: Seq<T>,
    output: Seq<T>,
    perm: Seq<int>,
    key: spec_fn(T) -> (u64, Seq<char>, u64),
) -> bool {
    &&& perm.len() == input.len()
    &&& output.len() == input.len()
    &&& forall|k: int| 0 <= k < perm.len() ==> 0 <= #[trigger] perm[k] < input.len()
    &&& forall|k: int| 0 <= k < perm.len() ==> #[trigger] output[k] == input[perm[k]]
    &&& forall|k1: int, k2: int|
        0 <= k1 < k2 < perm.len() ==> #[trigger] perm[k1] != #[trigger] perm[k2]
    &&& forall|k1: int, k2: int|
        0 <= k1 < k2 < output.len() ==> key_le(key(#[trigger] output[k1]), key(#[trigger] output[k2]))
    &&& forall|k1: int, k2: int|
        0 <= k1 < k2 < output.len() && key(#[trigger] output[k1]) == key(#[trigger] output[k2])
            ==> perm[k1] < perm[k2]
}

/// `output` is the stable sort of `input` by `key`.
pub open spec fn is_stable_sort_by<T>(input: Seq<T>, output: Seq<T>, key: spec_fn(T) -> (u64, Seq<char>, u64)) -> bool {
    exists|perm: Seq<int>| is_perm_sorted_by(input, output, perm, key)
}

/// Sorts `items` stably by the keys computed for them (`keys[i]` is the key of `items[i]`).
pub(crate) fn sort_by_keys<T>(items: Vec<T>, keys: Vec<SortKey>, Ghost(key): Ghost<spec_fn(T) -> (u64, Seq<char>, u64)>) -> (r: Vec<T>)
    requires
        keys@.len() == items@.len(),
        forall|i: int| 0 <= i < items@.len() ==> #[trigger] keys@[i]@ == key(items@[i]),
    ensures
        is_stable_sort_by(items@, r@, key),
{
    let ghost orig_items = items@;
    let ghost orig_keys = keys@;
    let n = items.len();
    let mut items = items;
    let mut keys = keys;
    let mut pairs: Vec<(SortKey, T)> = Vec::new();
    let mut i: usize = 0;
    while i < n
        invariant
            n == orig_items.len(),
            n == orig_keys.len(),
            i <= n,
            items@ == orig_items.skip(i as int),
            keys@ == orig_keys.skip(i as int),
            pairs@.len() == i,
            forall|j: int| 0 <= j < i ==> #[trigger] pairs@[j].1 == orig_items[j] && pairs@[j].0 == orig_keys[j],
        decreases n - i,
    {
        let it = items.remove(0);
        let k = keys.remove(0);
        pairs.push((k, it));
        i = i + 1;
        assert(items@ =~= orig_items.skip(i as int));
        assert(keys@ =~= orig_keys.skip(i as int));
    }
    let ghost pairs_in = pairs@;
    let mut sorted = stable_sort_by_key(pairs);
    let ghost pairs_out = sorted@;
    let mut out: Vec<T> = Vec::new();
    let mut j: usize = 0;
    while j < n
        invariant
            n == pairs_out.len(),
            j <= n,
            sorted@ == pairs_out.skip(j as int),
            out@.len() == j,
            forall|m: int| 0 <= m < j ==> #[trigger] out@[m] == pairs_out[m].1,
        decreases n - j,
    {
        let (_, it) = sorted.remove(0);
        out.push(it);
        j = j + 1;
        assert(sorted@ =~= pairs_out.skip(j as int));
    }
    proof {
        let perm = choose|perm: Seq<int>| is_sort_permutation(pairs_in, pairs_out, perm);
        assert forall|m: int| 0 <= m < n implies key(#[trigger] out@[m]) == pairs_out[m].0@ && out@[m] == orig_items[perm[m]] by {
            assert(pairs_out[m] == pairs_in[perm[m]]);
            assert(pairs_in[perm[m]].1 == orig_items[perm[m]]);
        }
        assert forall|k1: int, k2: int| 0 <= k1 < k2 < out@.len() implies key_le(key(#[trigger] out@[k1]), key(#[trigger] out@[k2])) by {
            assert(key_le(pairs_out[k1].0@, pairs_out[k2].0@));
        }
        assert forall|k1: int, k2: int| 0 <= k1 < k2 < out@.len() && key(#[trigger] out@[k1]) == key(#[trigger] out@[k2]) implies perm[k1] < perm[k2] by {
            assert(pairs_out[k1].0@ == pairs_out[k2].0@);
        }
        assert(is_perm_sorted_by(orig_items, out@, perm, key));
    }
    out
}


proof fn lemma_increasing_lower(perm: Seq<int>, k: int)
    requires
        0 <= k < perm.len(),
        forall|i: int| 0 <= i < perm.len() ==> 0 <= #[trigger] perm[i],
        forall|i: int, j: int| 0 <= i < j < perm.len() ==> #[trigger] perm[i] < #[trigger] perm[j],
    ensures
        perm[k] >= k,
    decreases k,
{
    if k > 0 {
        lemma_increasing_lower(perm, k - 1);
        assert(perm[k - 1] < perm[k]);
    }
}

proof fn lemma_increasing_upper(perm: Seq<int>, k: int)
    requires
        0 <= k < perm.len(),
        forall|i: int| 0 <= i < perm.len() ==> #[trigger] perm[i] < perm.len(),
        forall|i: int, j: int| 0 <= i < j < perm.len() ==> #[trigger] perm[i] < #[trigger] perm[j],
    ensures
        perm[k] <= k,
    decreases perm.len() - k,
{
    if k + 1 < perm.len() {
        lemma_increasing_upper(perm, k + 1);
        assert(perm[k] < perm[k + 1]);
    }
}

pub proof fn lemma_key_le_antisym(a: (u64, Seq<char>, u64), b: (u64, Seq<char>, u64))
    requires
        key_le(a, b),
        key_le(b, a),
    ensures
        a == b,
{
    if a.1 != b.1 {
        lemma_text_le_antisym(a.1, b.1);
    }
}

/// `output` holds the items of `input` at the distinct positions `perm`.
pub open spec fn picks_distinct<T>(input: Seq<T>, output: Seq<T>, perm: Seq<int>) -> bool {
    &&& perm.len() == output.len()
    &&& output.len() == input.len()
    &&& forall|k: int| 0 <= k < perm.len() ==> 0 <= #[trigger] perm[k] < input.len()
    &&& forall|k: int| 0 <= k < perm.len() ==> #[trigger] output[k] == input[perm[k]]
    &&& forall|k1: int, k2: int| 0 <= k1 < k2 < perm.len() ==> #[trigger] perm[k1] != #[trigger] perm[k2]
}

/// Picking every position once keeps the items: the output is a permutation
/// of the input.
pub proof fn lemma_picks_distinct_same_items<T>(input: Seq<T>, output: Seq<T>, perm: Seq<int>)
    requires
        picks_distinct(input, output, perm),
    ensures
        output.to_multiset() == input.to_multiset(),
    decreases input.len(),
{
    broadcast use vstd::seq_lib::group_to_multiset_ensures;

    let n = input.len();
    if n == 0 {
        assert(output =~= Seq::<T>::empty());
        assert(input =~= Seq::<T>::empty());
        return;
    }
    let p = perm[n - 1];
    let rest_in = input.remove(p);
    let rest_out = output.drop_last();
    let rest_perm = Seq::new((n - 1) as nat, |k: int| if perm[k] > p { perm[k] - 1 } else { perm[k] });
    assert forall|k: int| 0 <= k < rest_perm.len() implies #[trigger] rest_out[k] == rest_in[rest_perm[k]] by {
        assert(perm[k] != perm[n - 1]);
        assert(output[k] == input[perm[k]]);
    }
    assert forall|k1: int, k2: int| 0 <= k1 < k2 < rest_perm.len() implies #[trigger] rest_perm[k1] != #[trigger] rest_perm[k2] by {
        assert(perm[k1] != perm[k2]);
        assert(perm[k1] != perm[n - 1]);
        assert(perm[k2] != perm[n - 1]);
    }
    assert forall|k: int| 0 <= k < rest_perm.len() implies 0 <= #[trigger] rest_perm[k] < rest_in.len() by {
        assert(perm[k] != perm[n - 1]);
    }
    lemma_picks_distinct_same_items(rest_in, rest_out, rest_perm);
    assert(output =~= rest_out.push(output[n - 1]));
    assert(output[n - 1] == input[p]);
    assert(input.to_multiset().count(input[p]) > 0) by {
        assert(input.contains(input[p]));
    }
    assert(rest_in.to_multiset() == input.to_multiset().remove(input[p]));
    assert(output.to_multiset() =~= rest_out.to_multiset().insert(input[p]));
    assert(input.to_multiset() =~= input.to_multiset().remove(input[p]).insert(input[p]));
}

/// The stable sort of a sequence is a permutation of it.
pub proof fn lemma_stable_sort_same_items<T>(input: Seq<T>, output: Seq<T>, key: spec_fn(T) -> (u64, Seq<char>, u64))
    requires
        is_stable_sort_by(input, output, key),
    ensures
        output.to_multiset() == input.to_multiset(),
{
    let perm = choose|perm: Seq<int>| is_perm_sorted_by(input, output, perm, key);
    lemma_picks_distinct_same_items(input, output, perm);
}

/// `s` is ordered by `key`.
pub open spec fn ordered_by<T>(s: Seq<T>, key: spec_fn(T) -> (u64, Seq<char>, u64)) -> bool {
    forall|i: int, j: int| 0 <= i < j < s.len() ==> key_le(key(#[trigger] s[i]), key(#[trigger] s[j]))
}

/// Two orderings of the same items by a key that tells every two different
/// items apart are the same sequence.
pub proof fn lemma_ordered_permutations_equal<T>(s: Seq<T>, t: Seq<T>, key: spec_fn(T) -> (u64, Seq<char>, u64))
    requires
        s.to_multiset() == t.to_multiset(),
        ordered_by(s, key),
        ordered_by(t, key),
        forall|x: T, y: T| #[trigger] key(x) == #[trigger] key(y) ==> x == y,
    ensures
        s == t,
    decreases s.len(),
{
    broadcast use vstd::seq_lib::group_to_multiset_ensures;

    assert(s.len() == s.to_multiset().len());
    assert(t.len() == t.to_multiset().len());
    if s.len() == 0 {
        assert(s =~= t);
        return;
    }
    assert(s.contains(s[0]));
    assert(t.to_multiset().count(s[0]) > 0);
    let j = choose|j: int| 0 <= j < t.len() && t[j] == s[0];
    assert(t.contains(t[0]));
    assert(s.to_multiset().count(t[0]) > 0);
    let i = choose|i: int| 0 <= i < s.len() && s[i] == t[0];
    if j > 0 {
        assert(key_le(key(t[0]), key(t[j])));
    } else {
        lemma_key_le_refl(key(t[0]));
    }
    if i > 0 {
        assert(key_le(key(s[0]), key(s[i])));
    } else {
        lemma_key_le_refl(key(s[0]));
    }
    lemma_key_le_antisym(key(s[0]), key(t[0]));
    assert(s[0] == t[0]);
    let s1 = s.drop_first();
    let t1 = t.drop_first();
    assert(s.remove(0) =~= s1);
    assert(t.remove(0) =~= t1);
    assert(s1.to_multiset() == s.to_multiset().remove(s[0]));
    assert(t1.to_multiset() == t.to_multiset().remove(t[0]));
    assert forall|a: int, b: int| 0 <= a < b < s1.len() implies key_le(key(#[trigger] s1[a]), key(#[trigger] s1[b])) by {
        assert(s1[a] == s[a + 1]);
        assert(s1[b] == s[b + 1]);
    }
    assert forall|a: int, b: int| 0 <= a < b < t1.len() implies key_le(key(#[trigger] t1[a]), key(#[trigger] t1[b])) by {
        assert(t1[a] == t[a + 1]);
        assert(t1[b] == t[b + 1]);
    }
    lemma_ordered_permutations_equal(s1, t1, key);
    assert(s =~= seq![s[0]] + s1);
    assert(t =~= seq![t[0]] + t1);
}

/// A sequence whose keys already count its positions up from zero is its own
/// stable sort.
pub proof fn lemma_sort_of_numbered_is_identity<T>(
    input: Seq<T>,
    output: Seq<T>,
    key: spec_fn(T) -> (u64, Seq<char>, u64),
)
    requires
        is_stable_sort_by(input, output, key),
        forall|i: int| 0 <= i < input.len() ==> #[trigger] key(input[i]).0 == i,
    ensures
        output == input,
{
    let perm = choose|perm: Seq<int>| is_perm_sorted_by(input, output, perm, key);
    assert forall|k: int| 0 <= k < perm.len() implies key(#[trigger] output[k]).0 == perm[k] by {
        assert(output[k] == input[perm[k]]);
    }
    assert forall|i: int, j: int| 0 <= i < j < perm.len() implies #[trigger] perm[i] < #[trigger] perm[j] by {
        assert(key_le(key(output[i]), key(output[j])));
        assert(key(output[i]).0 == perm[i]);
        assert(key(output[j]).0 == perm[j]);
    }
    assert forall|k: int| 0 <= k < perm.len() implies #[trigger] perm[k] == k by {
        lemma_increasing_lower(perm, k);
        lemma_increasing_upper(perm, k);
    }
    assert forall|k: int| 0 <= k < output.len() implies #[trigger] output[k] == input[k] by {
        assert(perm[k] == k);
    }
    assert(output =~= input);
}


/// A stable sort carries over to any view of the items that keeps their keys.
pub proof fn lemma_perm_sorted_map<T, U>(
    input: Seq<T>,
    output: Seq<T>,
    perm: Seq<int>,
    key: spec_fn(T) -> (u64, Seq<char>, u64),
    f: spec_fn(T) -> U,
    key2: spec_fn(U) -> (u64, Seq<char>, u64),
)
    requires
        is_perm_sorted_by(input, output, perm, key),
        forall|t: T| #[trigger] key2(f(t)) == key(t),
    ensures
        is_perm_sorted_by(input.map_values(f), output.map_values(f), perm, key2),
        is_stable_sort_by(input.map_values(f), output.map_values(f), key2),
{
    let mi = input.map_values(f);
    let mo = output.map_values(f);
    assert forall|k: int| 0 <= k < perm.len() implies #[trigger] mo[k] == mi[perm[k]] by {
        assert(output[k] == input[perm[k]]);
    }
    assert forall|k1: int, k2: int| 0 <= k1 < k2 < mo.len() implies key_le(key2(#[trigger] mo[k1]), key2(#[trigger] mo[k2])) by {
        assert(key2(f(output[k1])) == key(output[k1]));
        assert(key2(f(output[k2])) == key(output[k2]));
        assert(key_le(key(output[k1]), key(output[k2])));
    }
    assert forall|k1: int, k2: int|
        0 <= k1 < k2 < mo.len() && key2(#[trigger] mo[k1]) == key2(#[trigger] mo[k2]) implies perm[k1] < perm[k2] by {
        assert(key2(f(output[k1])) == key(output[k1]));
        assert(key2(f(output[k2])) == key(output[k2]));
    }
    assert(is_perm_sorted_by(mi, mo, perm, key2));
}

} // verus!
