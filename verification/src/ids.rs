//! Ascending lists of ids: the ordered maps and sets keyed by id that the
//! planning and matching steps hand out.
use vstd::prelude::*;

verus! {

/// The ids are strictly ascending (so each occurs once).
pub open spec fn ascending(s: Seq<u64>) -> bool {
    forall|i: int, j: int| 0 <= i < j < s.len() ==> s[i] < s[j]
}

/// `s` lists the members of `set` in ascending order.
pub open spec fn lists_ascending(s: Seq<u64>, set: Set<u64>) -> bool {
    ascending(s) && s.to_set() == set
}

/// An ascending list has no duplicates, so it is as long as the set it lists.
pub proof fn lemma_ascending_len(s: Seq<u64>)
    requires
        ascending(s),
    ensures
        s.no_duplicates(),
        s.to_set().len() == s.len(),
        s.to_set().finite(),
{
    assert forall|i: int, j: int| 0 <= i < s.len() && 0 <= j < s.len() && i != j implies s[i]
        != s[j] by {
        if i < j {
            assert(s[i] < s[j]);
        } else {
            assert(s[j] < s[i]);
        }
    }
    s.unique_seq_to_set();
    vstd::seq_lib::seq_to_set_is_finite(s);
}

/// Two ascending lists of the same set are the same list.
pub proof fn lemma_ascending_unique(a: Seq<u64>, b: Seq<u64>)
    requires
        ascending(a),
        ascending(b),
        a.to_set() == b.to_set(),
    ensures
        a == b,
    decreases a.len(),
{
    lemma_ascending_len(a);
    lemma_ascending_len(b);
    if a.len() == 0 {
        assert(b.len() == 0);
        assert(a =~= b);
    } else {
        assert(b.len() == a.len());
        // the largest members agree
        let x = a.last();
        let y = b.last();
        assert(a.to_set().contains(x));
        assert(b.to_set().contains(y));
        assert(b.contains(x));
        assert(a.contains(y));
        let i = choose|i: int| 0 <= i < b.len() && b[i] == x;
        let j = choose|j: int| 0 <= j < a.len() && a[j] == y;
        assert(x <= y) by {
            if i < b.len() - 1 {
                assert(b[i] < b[b.len() - 1]);
            }
        }
        assert(y <= x) by {
            if j < a.len() - 1 {
                assert(a[j] < a[a.len() - 1]);
            }
        }
        let a2 = a.drop_last();
        let b2 = b.drop_last();
        assert forall|z: u64| a2.to_set().contains(z) <==> b2.to_set().contains(z) by {
            if a2.contains(z) {
                let k = choose|k: int| 0 <= k < a2.len() && a2[k] == z;
                assert(a[k] < x);
                assert(a.contains(z));
                assert(a.to_set().contains(z));
                assert(b.to_set().contains(z));
                assert(b.contains(z));
                let m = choose|m: int| 0 <= m < b.len() && b[m] == z;
                assert(m != b.len() - 1);
                assert(b2[m] == z);
            }
            if b2.contains(z) {
                let k = choose|k: int| 0 <= k < b2.len() && b2[k] == z;
                assert(b[k] < y);
                assert(b.contains(z));
                assert(b.to_set().contains(z));
                assert(a.to_set().contains(z));
                assert(a.contains(z));
                let m = choose|m: int| 0 <= m < a.len() && a[m] == z;
                assert(m != a.len() - 1);
                assert(a2[m] == z);
            }
        }
        assert(a2.to_set() =~= b2.to_set());
        lemma_ascending_unique(a2, b2);
        assert(a =~= a2.push(x));
        assert(b =~= b2.push(y));
    }
}

/// Adds `id` to an ascending list, keeping it ascending.
pub fn insert_ascending(v: &mut Vec<u64>, id: u64)
    requires
        ascending(old(v)@),
    ensures
        ascending(final(v)@),
        final(v)@.to_set() == old(v)@.to_set().insert(id),
{
    let n = v.len();
    let mut j: usize = 0;
    while j < n && v[j] < id
        invariant
            n == v.len(),
            j <= n,
            forall|k: int| 0 <= k < j ==> v@[k] < id,
        decreases n - j,
    {
        j = j + 1;
    }
    if j < n && v[j] == id {
        assert(v@.to_set().contains(id));
        assert(v@.to_set().insert(id) =~= v@.to_set());
        return;
    }
    let ghost before = v@;
    v.insert(j, id);
    proof {
        assert forall|a: int, b: int| 0 <= a < b < v@.len() implies v@[a] < v@[b] by {
            if b < j {
            } else if b == j {
            } else if a < j {
                assert(v@[b] == before[b - 1]);
                assert(before[b - 1] > id || before[b - 1] == id || before[b - 1] < id);
                if j < n {
                    assert(before[j as int] > id);
                    if b - 1 > j {
                        assert(before[j as int] < before[b - 1]);
                    }
                }
            } else if a == j {
                assert(v@[b] == before[b - 1]);
                assert(before[j as int] > id);
                if b - 1 > j {
                    assert(before[j as int] < before[b - 1]);
                }
            } else {
                assert(v@[a] == before[a - 1]);
                assert(v@[b] == before[b - 1]);
            }
        }
        assert forall|z: u64| v@.to_set().contains(z) <==> before.to_set().insert(id).contains(z) by {
            if v@.contains(z) {
                let k = choose|k: int| 0 <= k < v@.len() && v@[k] == z;
                if k < j {
                    assert(before[k] == z);
                } else if k > j {
                    assert(before[k - 1] == z);
                }
            }
            if before.contains(z) {
                let k = choose|k: int| 0 <= k < before.len() && before[k] == z;
                if k < j {
                    assert(v@[k] == z);
                } else {
                    assert(v@[k + 1] == z);
                }
            }
            if z == id {
                assert(v@[j as int] == id);
            }
        }
        assert(v@.to_set() =~= before.to_set().insert(id));
    }
}

/// The distinct ids of `ids`, in ascending order.
pub fn ascending_distinct(ids: &Vec<u64>) -> (r: Vec<u64>)
    ensures
        lists_ascending(r@, ids@.to_set()),
{
    let mut r: Vec<u64> = Vec::new();
    let mut i: usize = 0;
    assert(r@.to_set() =~= ids@.take(0).to_set());
    while i < ids.len()
        invariant
            i <= ids.len(),
            ascending(r@),
            r@.to_set() == ids@.take(i as int).to_set(),
        decreases ids.len() - i,
    {
        insert_ascending(&mut r, ids[i]);
        proof {
            assert(ids@.take(i + 1) =~= ids@.take(i as int).push(ids@[i as int]));
            vstd::seq_lib::lemma_seq_contains_after_push(ids@.take(i as int), ids@[i as int], 0);
            assert forall|z: u64| ids@.take(i + 1).to_set().contains(z) <==> ids@.take(
                i as int,
            ).to_set().insert(ids@[i as int]).contains(z) by {
                vstd::seq_lib::lemma_seq_contains_after_push(
                    ids@.take(i as int),
                    ids@[i as int],
                    z,
                );
            }
            assert(ids@.take(i + 1).to_set() =~= ids@.take(i as int).to_set().insert(
                ids@[i as int],
            ));
        }
        i = i + 1;
    }
    assert(ids@.take(ids.len() as int) =~= ids@);
    r
}

} // verus!
