use vstd::prelude::*;

verus! {

/// The order key of a single-precision bit pattern. The map is the
/// standard monotone embedding of IEEE 754 order into unsigned integer
/// order: a pattern with the sign bit set (a negative number) is
/// complemented, any other pattern is moved above all of them. On
/// patterns of finite numbers, with the two zeros identified by
/// `normalize_zero`, comparing keys is exactly comparing the numbers.
pub open spec fn sort_key(b: u32) -> u32 {
    if b >= 0x80000000 {
        (0xFFFFFFFF - b) as u32
    } else {
        (b + 0x80000000) as u32
    }
}

/// The two IEEE 754 zeros denote the same value; this sends the
/// negative zero pattern to the positive one, so that value equality
/// on the numbers the pipeline handles is pattern equality.
pub open spec fn normalize_zero(b: u32) -> u32 {
    if b == 0x80000000 {
        0
    } else {
        b
    }
}

/// The order key of a bit pattern.
pub fn key_of(b: u32) -> (k: u32)
    ensures
        k == sort_key(b),
{
    if b >= 0x80000000 {
        0xFFFFFFFF - b
    } else {
        b + 0x80000000
    }
}

/// Send the negative-zero pattern to the positive-zero pattern.
pub fn normalize_zero_bits(b: u32) -> (r: u32)
    ensures
        r == normalize_zero(b),
{
    if b == 0x80000000 {
        0
    } else {
        b
    }
}

/// Insert a value into a sequence just before the first element whose
/// key is at least the key of the value.
pub open spec fn insert_sorted(x: u32, s: Seq<u32>) -> Seq<u32>
    decreases s.len(),
{
    if s.len() == 0 {
        seq![x]
    } else if sort_key(x) <= sort_key(s[0]) {
        seq![x] + s
    } else {
        seq![s[0]] + insert_sorted(x, s.subrange(1, s.len() as int))
    }
}

/// Sort a sequence by key: insert the elements one after another,
/// in order, into an initially empty sequence.
pub open spec fn sort_by_key(s: Seq<u32>) -> Seq<u32>
    decreases s.len(),
{
    if s.len() == 0 {
        Seq::empty()
    } else {
        insert_sorted(s.last(), sort_by_key(s.drop_last()))
    }
}

/// Inserting adds exactly one element.
pub proof fn lemma_insert_sorted_len(x: u32, s: Seq<u32>)
    ensures
        insert_sorted(x, s).len() == s.len() + 1,
    decreases s.len(),
{
    if s.len() > 0 && !(sort_key(x) <= sort_key(s[0])) {
        lemma_insert_sorted_len(x, s.subrange(1, s.len() as int));
    }
}

/// Sorting keeps the length.
pub proof fn lemma_sort_by_key_len(s: Seq<u32>)
    ensures
        sort_by_key(s).len() == s.len(),
    decreases s.len(),
{
    if s.len() > 0 {
        lemma_sort_by_key_len(s.drop_last());
        lemma_insert_sorted_len(s.last(), sort_by_key(s.drop_last()));
    }
}

/// Inserting just before the first element with key at least the key of
/// the inserted value is insertion at that position.
proof fn lemma_insert_sorted_at(x: u32, s: Seq<u32>, p: int)
    requires
        0 <= p <= s.len(),
        forall|k: int| 0 <= k < p ==> sort_key(#[trigger] s[k]) < sort_key(x),
        p < s.len() ==> sort_key(x) <= sort_key(s[p]),
    ensures
        insert_sorted(x, s) == s.insert(p, x),
    decreases s.len(),
{
    if s.len() == 0 {
        assert(insert_sorted(x, s) =~= s.insert(0, x));
    } else if p == 0 {
        assert(seq![x] + s =~= s.insert(0, x));
    } else {
        let rest = s.subrange(1, s.len() as int);
        lemma_insert_sorted_at(x, rest, p - 1);
        assert(seq![s[0]] + rest.insert(p - 1, x) =~= s.insert(p, x));
    }
}

/// Sorted in the key order: no later element has a smaller key.
pub open spec fn sorted_by_key(s: Seq<u32>) -> bool {
    forall|a: int, b: int| 0 <= a < b < s.len() ==> sort_key(s[a]) <= sort_key(s[b])
}

/// Inserting into a sorted sequence keeps it sorted and adds exactly
/// one copy of the inserted element.
pub proof fn lemma_insert_sorted_props(x: u32, s: Seq<u32>)
    requires
        sorted_by_key(s),
    ensures
        sorted_by_key(insert_sorted(x, s)),
        insert_sorted(x, s).to_multiset() == s.to_multiset().insert(x),
    decreases s.len(),
{
    broadcast use vstd::seq_lib::group_seq_properties;
    broadcast use vstd::multiset::group_multiset_axioms;

    lemma_insert_sorted_len(x, s);
    if s.len() == 0 {
        assert(seq![x] =~= Seq::<u32>::empty().push(x));
        assert(insert_sorted(x, s).to_multiset() =~= s.to_multiset().insert(x));
    } else if sort_key(x) <= sort_key(s[0]) {
        let r = seq![x] + s;
        assert forall|a: int, b: int| 0 <= a < b < r.len() implies sort_key(r[a]) <= sort_key(
            r[b],
        ) by {
            if a > 0 {
                assert(r[a] == s[a - 1] && r[b] == s[b - 1]);
            } else {
                assert(r[b] == s[b - 1]);
            }
        }
        vstd::seq_lib::lemma_multiset_commutative(seq![x], s);
        assert(seq![x] =~= Seq::<u32>::empty().push(x));
        assert(r.to_multiset() =~= s.to_multiset().insert(x));
    } else {
        let rest = s.subrange(1, s.len() as int);
        assert(sorted_by_key(rest)) by {
            assert forall|a: int, b: int| 0 <= a < b < rest.len() implies sort_key(rest[a])
                <= sort_key(rest[b]) by {
                assert(rest[a] == s[a + 1] && rest[b] == s[b + 1]);
            }
        }
        lemma_insert_sorted_props(x, rest);
        let ir = insert_sorted(x, rest);
        let r = seq![s[0]] + ir;
        assert forall|a: int, b: int| 0 <= a < b < r.len() implies sort_key(r[a]) <= sort_key(
            r[b],
        ) by {
            if a > 0 {
                assert(r[a] == ir[a - 1] && r[b] == ir[b - 1]);
            } else {
                let e = ir[b - 1];
                assert(ir.contains(e));
                assert(ir.to_multiset().count(e) > 0);
                if e != x {
                    assert(rest.to_multiset().count(e) > 0);
                    assert(rest.contains(e));
                    let k = choose|k: int| 0 <= k < rest.len() && rest[k] == e;
                    assert(rest[k] == s[k + 1]);
                    assert(sort_key(s[0]) <= sort_key(e));
                }
            }
        }
        vstd::seq_lib::lemma_multiset_commutative(seq![s[0]], ir);
        assert(seq![s[0]] =~= Seq::<u32>::empty().push(s[0]));
        assert(s =~= seq![s[0]] + rest);
        vstd::seq_lib::lemma_multiset_commutative(seq![s[0]], rest);
        assert(r.to_multiset() =~= s.to_multiset().insert(x));
    }
}

/// The sort delivers a sequence that is sorted in the key order and is
/// a permutation of its input: the same coefficients, the same number
/// of times, in key order.
pub proof fn lemma_sort_by_key_ensures(s: Seq<u32>)
    ensures
        sorted_by_key(sort_by_key(s)),
        sort_by_key(s).to_multiset() == s.to_multiset(),
    decreases s.len(),
{
    broadcast use vstd::seq_lib::group_seq_properties;
    broadcast use vstd::multiset::group_multiset_axioms;

    if s.len() > 0 {
        lemma_sort_by_key_ensures(s.drop_last());
        lemma_insert_sorted_props(s.last(), sort_by_key(s.drop_last()));
        assert(s =~= s.drop_last().push(s.last()));
        assert(sort_by_key(s).to_multiset() =~= s.to_multiset());
    }
}

/// Sort a vector of bit patterns by their order keys.
pub fn sort_keys(v: &Vec<u32>) -> (r: Vec<u32>)
    ensures
        r@ == sort_by_key(v@),
        r@.len() == v@.len(),
{
    let mut r: Vec<u32> = Vec::new();
    let mut i: usize = 0;
    while i < v.len()
        invariant
            i <= v@.len(),
            r@.len() == i,
            r@ == sort_by_key(v@.take(i as int)),
        decreases v@.len() - i,
    {
        let x = v[i];
        let mut p: usize = 0;
        while p < r.len() && key_of(r[p]) < key_of(x)
            invariant
                p <= r@.len(),
                forall|k: int| 0 <= k < p ==> sort_key(#[trigger] r@[k]) < sort_key(x),
            decreases r@.len() - p,
        {
            p = p + 1;
        }
        proof {
            lemma_insert_sorted_at(x, r@, p as int);
            assert(v@.take(i + 1).drop_last() =~= v@.take(i as int));
            assert(v@.take(i + 1).last() == v@[i as int]);
        }
        r.insert(p, x);
        i = i + 1;
    }
    proof {
        assert(v@.take(v@.len() as int) =~= v@);
        lemma_sort_by_key_len(v@);
    }
    r
}

/// The two middle elements of the sequence sorted by key: for an odd
/// count the middle element twice, for an even count the two elements
/// either side of the midpoint. The median of the standard ordering
/// rule is the first for an odd count, and the mean of the two for an
/// even count.
pub fn median_pair(v: &Vec<u32>) -> (r: (u32, u32))
    requires
        v@.len() >= 1,
    ensures
        r.0 == sort_by_key(v@)[((v@.len() - 1) / 2) as int],
        v@.len() % 2 == 0 ==> r.1 == sort_by_key(v@)[((v@.len() - 1) / 2 + 1) as int],
        v@.len() % 2 == 1 ==> r.1 == r.0,
{
    let s = sort_keys(v);
    let mid = (v.len() - 1) / 2;
    if v.len() % 2 == 0 {
        (s[mid], s[mid + 1])
    } else {
        (s[mid], s[mid])
    }
}

} // verus!
