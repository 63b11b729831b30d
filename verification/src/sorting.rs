use vstd::prelude::*;

verus! {

/// Pairs of an ordering key and a value, where equal keys go with equal values.
pub open spec fn keys_consistent(s: Seq<(u64, u32)>) -> bool {
    forall|i: int, j: int|
        0 <= i < s.len() && 0 <= j < s.len() ==> (#[trigger] s[i].0 == #[trigger] s[j].0 <==> s[i].1
            == s[j].1)
}

/// Strictly increasing by ordering key.
pub open spec fn strictly_sorted(s: Seq<(u64, u32)>) -> bool {
    forall|i: int, j: int| 0 <= i < j < s.len() ==> #[trigger] s[i].0 < #[trigger] s[j].0
}

/// `out` holds exactly the pairs of `input`, each once, in increasing key order:
/// what a stable sort by key followed by `dedup` gives when equal keys go with
/// equal values.
pub open spec fn sorted_dedup_of(out: Seq<(u64, u32)>, input: Seq<(u64, u32)>) -> bool {
    &&& strictly_sorted(out)
    &&& forall|x: (u64, u32)| out.contains(x) <==> input.contains(x)
}

/// Sorts the pairs by key and removes duplicates.
pub fn sort_dedup_pairs(input: &Vec<(u64, u32)>) -> (out: Vec<(u64, u32)>)
    requires
        keys_consistent(input@),
    ensures
        sorted_dedup_of(out@, input@),
{
    let mut out: Vec<(u64, u32)> = Vec::new();
    let mut i: usize = 0;
    while i < input.len()
        invariant
            i <= input.len(),
            keys_consistent(input@),
            strictly_sorted(out@),
            forall|x: (u64, u32)| out@.contains(x) <==> input@.take(i as int).contains(x),
        decreases input.len() - i,
    {
        let p = input[i];
        let ghost before = out@;
        // position of the first entry whose key is not below p's key
        let mut k: usize = 0;
        while k < out.len() && out[k].0 < p.0
            invariant
                k <= out.len(),
                out@ == before,
                forall|m: int| 0 <= m < k ==> (#[trigger] out@[m]).0 < p.0,
            decreases out.len() - k,
        {
            k = k + 1;
        }
        if k < out.len() && out[k].0 == p.0 {
            // the same key is present, hence the same pair
            let ghost q = out@[k as int];
            assert(out@.contains(q));
            assert(input@.take(i as int).contains(q));
            let ghost j = choose|j: int| 0 <= j < i && input@.take(i as int)[j] == q;
            assert(input@[j] == q);
            assert(input@[j].0 == input@[i as int].0);
            assert(q == p);
            assert(out@.contains(p));
            assert forall|x: (u64, u32)| out@.contains(x) <==> before.contains(x) || x == p by {}
        } else {
            out.insert(k, p);
            assert forall|a: int, b: int| 0 <= a < b < out@.len() implies #[trigger] out@[a].0
                < #[trigger] out@[b].0 by {
                if a < k && b == k {
                } else if a < k && b > k {
                    assert(out@[b] == before[b - 1]);
                    if k < before.len() {
                        assert(before[k as int].0 >= p.0);
                        assert(before[k as int].0 != p.0);
                    }
                } else if a == k && b > k {
                    assert(out@[b] == before[b - 1]);
                    if b - 1 > k as int {
                        assert(before[k as int].0 < before[b - 1].0);
                    }
                    assert(before[k as int].0 >= p.0);
                    assert(before[k as int].0 != p.0);
                } else {
                }
            }
            assert forall|x: (u64, u32)| out@.contains(x) <==> before.contains(x) || x == p by {
                if out@.contains(x) {
                    let m = choose|m: int| 0 <= m < out@.len() && out@[m] == x;
                    if m < k {
                        assert(before[m] == x);
                    } else if m > k {
                        assert(before[m - 1] == x);
                    }
                }
                if before.contains(x) {
                    let m = choose|m: int| 0 <= m < before.len() && before[m] == x;
                    if m < k {
                        assert(out@[m] == x);
                    } else {
                        assert(out@[m + 1] == x);
                    }
                }
                if x == p {
                    assert(out@[k as int] == p);
                }
            }
        }
        proof {
            assert forall|x: (u64, u32)| input@.take(i + 1).contains(x) <==> input@.take(
                i as int,
            ).contains(x) || x == p by {
                if input@.take(i + 1).contains(x) {
                    let m = choose|m: int| 0 <= m < i + 1 && #[trigger] input@.take(i + 1)[m] == x;
                    if m < i {
                        assert(input@.take(i as int)[m] == x);
                    }
                }
                if input@.take(i as int).contains(x) {
                    let m = choose|m: int| 0 <= m < i && #[trigger] input@.take(i as int)[m] == x;
                    assert(input@.take(i + 1)[m] == x);
                }
                if x == p {
                    assert(input@.take(i + 1)[i as int] == x);
                }
            }
        }
        assert forall|x: (u64, u32)| out@.contains(x) <==> input@.take(i + 1).contains(x) by {
            assert(out@.contains(x) <==> before.contains(x) || x == p);
            assert(before.contains(x) <==> input@.take(i as int).contains(x));
        }
        i = i + 1;
    }
    assert(input@.take(input@.len() as int) =~= input@);
    out
}


/// `keys` holds each value of `raw` once, in increasing order of `ord`.
pub open spec fn sorted_dedup_by(keys: Seq<u32>, raw: Seq<u32>, ord: spec_fn(u32) -> u64) -> bool {
    &&& forall|i: int, j: int| 0 <= i < j < keys.len() ==> ord(#[trigger] keys[i]) < ord(#[trigger] keys[j])
    &&& forall|x: u32| keys.contains(x) <==> raw.contains(x)
}

pub open spec fn ord_injective(ord: spec_fn(u32) -> u64) -> bool {
    forall|a: u32, b: u32| #[trigger] ord(a) == #[trigger] ord(b) ==> a == b
}

/// Sorts `raw` by `ord` (given as `ords`, one per value) and removes duplicates:
/// `sort_by_key` followed by `dedup`.
pub fn sort_dedup_by_ord(raw: &Vec<u32>, ords: &Vec<u64>, Ghost(ord): Ghost<spec_fn(u32) -> u64>) -> (keys: Vec<u32>)
    requires
        ords@.len() == raw@.len(),
        forall|i: int| 0 <= i < raw@.len() ==> ords@[i] == ord(#[trigger] raw@[i]),
        ord_injective(ord),
    ensures
        sorted_dedup_by(keys@, raw@, ord),
{
    let mut pairs: Vec<(u64, u32)> = Vec::new();
    let mut i: usize = 0;
    while i < raw.len()
        invariant
            i <= raw@.len(),
            ords@.len() == raw@.len(),
            forall|m: int| 0 <= m < raw@.len() ==> ords@[m] == ord(#[trigger] raw@[m]),
            pairs@.len() == i,
            forall|k: int| 0 <= k < i ==> #[trigger] pairs@[k] == (ord(raw@[k]), raw@[k]),
        decreases raw.len() - i,
    {
        pairs.push((ords[i], raw[i]));
        i = i + 1;
    }
    assert(keys_consistent(pairs@)) by {
        assert forall|a: int, b: int| 0 <= a < pairs@.len() && 0 <= b < pairs@.len() implies (#[trigger] pairs@[a].0 == #[trigger] pairs@[b].0 <==> pairs@[a].1 == pairs@[b].1) by {
            assert(pairs@[a] == (ord(raw@[a]), raw@[a]));
            assert(pairs@[b] == (ord(raw@[b]), raw@[b]));
        }
    }
    let out = sort_dedup_pairs(&pairs);
    let mut keys: Vec<u32> = Vec::new();
    let mut j: usize = 0;
    while j < out.len()
        invariant
            j <= out@.len(),
            keys@.len() == j,
            forall|k: int| 0 <= k < j ==> #[trigger] keys@[k] == out@[k].1,
        decreases out.len() - j,
    {
        keys.push(out[j].1);
        j = j + 1;
    }
    assert forall|k: int| 0 <= k < out@.len() implies (#[trigger] out@[k]).0 == ord(out@[k].1) by {
        assert(out@.contains(out@[k]));
        assert(pairs@.contains(out@[k]));
        let m = choose|m: int| 0 <= m < pairs@.len() && pairs@[m] == out@[k];
        assert(pairs@[m] == (ord(raw@[m]), raw@[m]));
    }
    assert forall|x: u32| keys@.contains(x) <==> raw@.contains(x) by {
        if keys@.contains(x) {
            let k = choose|k: int| 0 <= k < keys@.len() && keys@[k] == x;
            assert(out@.contains(out@[k]));
            assert(pairs@.contains(out@[k]));
            let m = choose|m: int| 0 <= m < pairs@.len() && pairs@[m] == out@[k];
            assert(pairs@[m] == (ord(raw@[m]), raw@[m]));
            assert(raw@[m] == x);
        }
        if raw@.contains(x) {
            let m = choose|m: int| 0 <= m < raw@.len() && raw@[m] == x;
            assert(pairs@[m] == (ord(raw@[m]), raw@[m]));
            assert(pairs@.contains(pairs@[m]));
            assert(out@.contains(pairs@[m]));
            let k = choose|k: int| 0 <= k < out@.len() && out@[k] == pairs@[m];
            assert(keys@[k] == x);
        }
    }
    keys
}


/// The sorted, deduplicated keys of a sequence are unique.
pub proof fn lemma_sorted_dedup_unique(k1: Seq<u32>, k2: Seq<u32>, raw: Seq<u32>, ord: spec_fn(u32) -> u64)
    requires
        sorted_dedup_by(k1, raw, ord),
        sorted_dedup_by(k2, raw, ord),
    ensures
        k1 == k2,
    decreases k1.len() + k2.len(),
{
    if k1.len() == 0 {
        if k2.len() > 0 {
            assert(k2.contains(k2[0]));
        }
        assert(k1 =~= k2);
    } else if k2.len() == 0 {
        assert(k1.contains(k1[0]));
    } else {
        assert(k1.contains(k1[0]));
        assert(k2.contains(k2[0]));
        let j = choose|j: int| 0 <= j < k2.len() && k2[j] == k1[0];
        let i = choose|i: int| 0 <= i < k1.len() && k1[i] == k2[0];
        if j > 0 {
            assert(ord(k2[0]) < ord(k2[j]));
            if i > 0 {
                assert(ord(k1[0]) < ord(k1[i]));
            }
        }
        assert(k1[0] == k2[0]);
        let t1 = k1.drop_first();
        let t2 = k2.drop_first();
        assert forall|x: u32| t2.contains(x) <==> t1.contains(x) by {
            if t1.contains(x) {
                let a = choose|a: int| 0 <= a < t1.len() && t1[a] == x;
                assert(k1[a + 1] == x);
                assert(ord(k1[0]) < ord(k1[a + 1]));
                assert(k1.contains(x));
                let b = choose|b: int| 0 <= b < k2.len() && k2[b] == x;
                assert(b != 0);
                assert(t2[b - 1] == x);
            }
            if t2.contains(x) {
                let a = choose|a: int| 0 <= a < t2.len() && t2[a] == x;
                assert(k2[a + 1] == x);
                assert(ord(k2[0]) < ord(k2[a + 1]));
                assert(k2.contains(x));
                let b = choose|b: int| 0 <= b < k1.len() && k1[b] == x;
                assert(b != 0);
                assert(t1[b - 1] == x);
            }
        }
        assert forall|a: int, b: int| 0 <= a < b < t1.len() implies ord(#[trigger] t1[a]) < ord(#[trigger] t1[b]) by {
            assert(t1[a] == k1[a + 1] && t1[b] == k1[b + 1]);
        }
        assert forall|a: int, b: int| 0 <= a < b < t2.len() implies ord(#[trigger] t2[a]) < ord(#[trigger] t2[b]) by {
            assert(t2[a] == k2[a + 1] && t2[b] == k2[b + 1]);
        }
        lemma_sorted_dedup_unique(t1, t2, t1, ord);
        assert(k1 =~= seq![k1[0]] + t1);
        assert(k2 =~= seq![k2[0]] + t2);
    }
}


pub open spec fn widen(s: Seq<u16>) -> Seq<u32> {
    s.map_values(|x: u16| x as u32)
}

/// `sort_dedup_by_ord` for 16-bit values, ordered by `ord` on their 32-bit widening.
pub fn sort_dedup_u16_by_ord(raw: &Vec<u16>, ords: &Vec<u64>, Ghost(ord): Ghost<spec_fn(u32) -> u64>) -> (keys: Vec<u16>)
    requires
        ords@.len() == raw@.len(),
        forall|i: int| 0 <= i < raw@.len() ==> ords@[i] == ord(#[trigger] raw@[i] as u32),
        ord_injective(ord),
    ensures
        sorted_dedup_by(widen(keys@), widen(raw@), ord),
{
    let mut wide: Vec<u32> = Vec::new();
    let mut i: usize = 0;
    while i < raw.len()
        invariant
            i <= raw@.len(),
            wide@ == widen(raw@).take(i as int),
        decreases raw.len() - i,
    {
        wide.push(raw[i] as u32);
        i = i + 1;
        assert(wide@ =~= widen(raw@).take(i as int));
    }
    assert(wide@ =~= widen(raw@));
    let sorted = sort_dedup_by_ord(&wide, ords, Ghost(ord));
    let mut keys: Vec<u16> = Vec::new();
    let mut j: usize = 0;
    while j < sorted.len()
        invariant
            j <= sorted@.len(),
            sorted_dedup_by(sorted@, widen(raw@), ord),
            widen(keys@) == sorted@.take(j as int),
        decreases sorted.len() - j,
    {
        let v: u32 = sorted[j];
        assert(sorted@.contains(v));
        proof {
            let k = choose|k: int| 0 <= k < widen(raw@).len() && widen(raw@)[k] == v;
            assert(v < 65536);
        }
        let w: u16 = v as u16;
        let ghost before = keys@;
        keys.push(w);
        assert(widen(keys@) =~= widen(before).push(v));
        j = j + 1;
        assert(sorted@.take(j as int) =~= sorted@.take(j - 1).push(v));
    }
    assert(sorted@.take(sorted@.len() as int) =~= sorted@);
    keys
}

} // verus!
