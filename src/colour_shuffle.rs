use vstd::prelude::*;

use crate::random::shuffle;
use crate::value::Value;

verus! {

broadcast use vstd::seq_lib::group_to_multiset_ensures;

/// `m` lists the images of the nine values, by position, and is a bijection
/// of the nine values onto themselves.
pub open spec fn is_permutation(m: Seq<Value>) -> bool {
    &&& m.len() == 9
    &&& forall|i: int, j: int| 0 <= i < 9 && 0 <= j < 9 && i != j ==> m[i] != m[j]
    &&& forall|w: Value| #[trigger] m.contains(w)
}

/// The transposition of `x` and `y`, applied to `v`.
pub open spec fn swap_value(x: Value, y: Value, v: Value) -> Value {
    if v == x {
        y
    } else if v == y {
        x
    } else {
        v
    }
}

/// What a round reveals of two nodes of different colours `a` and `b`: the
/// pair `(π(a), π(b))` is always two distinct colours, and every ordered
/// pair `(wa, wb)` of distinct colours is the pair of some permutation.
/// (How often each pair comes is up to the shuffle that draws `π`.)
pub proof fn lemma_reveal_pairs(a: Value, b: Value, wa: Value, wb: Value)
    requires
        a != b,
        wa != wb,
    ensures
        exists|m: Seq<Value>|
            is_permutation(m) && #[trigger] m[a.index() as int] == wa && m[b.index() as int] == wb,
        forall|m: Seq<Value>|
            is_permutation(m) ==> #[trigger] m[a.index() as int] != m[b.index() as int],
{
    let c = swap_value(a, wa, b);
    let m = Seq::new(9, |i: int| swap_value(c, wb, swap_value(a, wa, Value::at_index(i))));
    Value::lemma_index_injective(a, b);
    assert(Value::at_index(a.index() as int) == a);
    assert(Value::at_index(b.index() as int) == b);
    assert(m[a.index() as int] == wa);
    assert(m[b.index() as int] == wb);
    assert forall|i: int, j: int| 0 <= i < 9 && 0 <= j < 9 && i != j implies m[i] != m[j] by {
        assert(Value::at_index(i).index() == i);
        assert(Value::at_index(j).index() == j);
    }
    assert forall|w: Value| #[trigger] m.contains(w) by {
        let u = swap_value(a, wa, swap_value(c, wb, w));
        Value::lemma_index_injective(u, u);
        assert(m[u.index() as int] == w);
    }
    assert(is_permutation(m));
    assert forall|n: Seq<Value>| is_permutation(n) implies #[trigger] n[a.index() as int] != n[b.index() as int] by {
    }
}

/// A permutation `π` of the nine colours, drawn afresh for every round.
#[derive(Debug, Clone, Copy)]
pub struct ColourShuffle {
    /// `value_map[v.to_index()]` is `π(v)`.
    value_map: [Value; 9],
}

impl ColourShuffle {
    /// The images of the nine values, by position.
    pub closed spec fn spec_map(&self) -> Seq<Value> {
        self.value_map@
    }

    /// The map is a permutation.
    pub open spec fn wf(&self) -> bool {
        is_permutation(self.spec_map())
    }

    /// `π(v)`.
    pub open spec fn permute(&self, v: Value) -> Value {
        self.spec_map()[v.index() as int]
    }

    /// `π⁻¹(w)`: the value that `π` sends to `w`.
    pub open spec fn unpermute(&self, w: Value) -> Value {
        choose|u: Value| self.permute(u) == w
    }

    /// A permutation drawn uniformly at random.
    pub fn new_random() -> (r: ColourShuffle)
        ensures
            r.wf(),
    {
        let mut order: Vec<u8> = Vec::new();
        for i in 0..9u8
            invariant
                order@.len() == i,
                forall|k: int| 0 <= k < i ==> order@[k] == k + 1,
        {
            order.push(i + 1);
        }
        let ghost before = order@;
        assert(before.no_duplicates());
        shuffle(&mut order);
        proof {
            before.lemma_multiset_has_no_duplicates();
            order@.lemma_multiset_has_no_duplicates_conv();
            assert(order@.len() == 9) by {
                assert(order@.to_multiset().len() == before.to_multiset().len());
            }
            assert forall|k: int| 0 <= k < order@.len() implies 1 <= #[trigger] order@[k] <= 9 by {
                assert(order@.contains(order@[k]));
                assert(order@.to_multiset().count(order@[k]) > 0);
                assert(before.to_multiset().count(order@[k]) > 0);
                assert(before.contains(order@[k]));
            }
        }
        let mut values = [Value::One;9];
        for i in 0..9usize
            invariant
                order@.len() == 9,
                forall|k: int| 0 <= k < 9 ==> 1 <= #[trigger] order@[k] <= 9,
                forall|k: int| 0 <= k < i ==> (#[trigger] values@[k]).numeric() == order@[k],
        {
            values[i] = Value::from_index((order[i] - 1) as usize);
        }
        proof {
            assert forall|i: int, j: int| 0 <= i < 9 && 0 <= j < 9 && i != j implies values@[i]
                != values@[j] by {
                assert(values@[i].numeric() == order@[i]);
                assert(values@[j].numeric() == order@[j]);
            }
            assert forall|w: Value| #[trigger] values@.contains(w) by {
                let n = w.numeric() as u8;
                assert(before[w.index() as int] == n);
                assert(before.contains(n));
                assert(before.to_multiset().count(n) > 0);
                assert(order@.to_multiset().count(n) > 0);
                assert(order@.contains(n));
                let i = choose|i: int| 0 <= i < order@.len() && order@[i] == n;
                Value::lemma_index_injective(values@[i], w);
                assert(values@[i] == w);
            }
        }
        match ColourShuffle::from_values(values) {
            Some(s) => s,
            None => {
                proof {
                    assert(false);
                }
                vstd::pervasive::unreached()
            },
        }
    }

    /// The permutation that sends the `i`-th value to `map[i]`, or `None`
    /// when `map` is not a permutation.
    pub fn from_values(map: [Value; 9]) -> (r: Option<ColourShuffle>)
        ensures
            r is Some <==> is_permutation(map@),
            r is Some ==> r->0.spec_map() == map@,
    {
        for i in 0..9usize
            invariant
                forall|a: int, b: int| 0 <= a < i && 0 <= b < 9 && a != b ==> map@[a] != map@[b],
        {
            for j in 0..9usize
                invariant
                    i < 9,
                    forall|a: int, b: int| 0 <= a < i && 0 <= b < 9 && a != b ==> map@[a] != map@[b],
                    forall|b: int| 0 <= b < j && i != b ==> map@[i as int] != map@[b],
            {
                if i != j && map[i] == map[j] {
                    return None;
                }
            }
        }
        for k in 0..9usize
            invariant
                forall|w: Value| #[trigger] w.index() < k ==> map@.contains(w),
        {
            let w = Value::from_index(k);
            let mut found = false;
            for i in 0..9usize
                invariant
                    w.index() == k,
                    found ==> exists|a: int| 0 <= a < 9 && #[trigger] map@[a] == w,
                    !found ==> forall|a: int| 0 <= a < i ==> map@[a] != w,
            {
                if map[i] == w {
                    found = true;
                }
            }
            if !found {
                assert(!map@.contains(w));
                return None;
            }
            assert forall|u: Value| #[trigger] u.index() < k + 1 implies map@.contains(u) by {
                if u.index() == k {
                    Value::lemma_index_injective(u, w);
                }
            }
        }
        assert forall|w: Value| #[trigger] map@.contains(w) by {
            assert(w.index() < 9);
        }
        Some(ColourShuffle { value_map: map })
    }

    /// `π(value)`.
    pub fn apply(&self, value: Value) -> (r: Value)
        ensures
            r == self.permute(value),
    {
        self.value_map[value.to_index()]
    }

    /// `π⁻¹(value)`.
    pub fn reverse_apply(&self, value: Value) -> (r: Value)
        requires
            self.wf(),
        ensures
            r == self.unpermute(value),
            self.permute(r) == value,
    {
        assert(self.value_map@.contains(value));
        let ghost target = choose|i: int| 0 <= i < 9 && self.value_map@[i] == value;
        let mut i: usize = 0;
        while i < 9
            invariant
                self.wf(),
                0 <= target < 9,
                self.value_map@[target] == value,
                forall|a: int| 0 <= a < i ==> self.value_map@[a] != value,
                i <= target,
            decreases 9 - i,
        {
            if self.value_map[i] == value {
                let r = Value::from_index(i);
                proof {
                    ColourShuffle::lemma_inverse(*self, r);
                }
                return r;
            }
            i += 1;
        }
        proof {
            assert(false);
        }
        vstd::pervasive::unreached()
    }

    /// `π⁻¹` undoes `π` and `π` undoes `π⁻¹`.
    pub proof fn lemma_inverse(s: ColourShuffle, v: Value)
        requires
            s.wf(),
        ensures
            s.unpermute(s.permute(v)) == v,
            s.permute(s.unpermute(v)) == v,
    {
        let w = s.permute(v);
        let u = s.unpermute(w);
        assert(s.permute(u) == w);
        Value::lemma_index_injective(u, v);
        assert(s.spec_map().contains(v));
        let i = choose|i: int| 0 <= i < 9 && s.spec_map()[i] == v;
        assert(s.permute(Value::at_index(i)) == v) by {
            assert(Value::at_index(i).index() == i);
        }
    }

    /// For every value `v` and every permutation `π`, `π⁻¹(π(v)) = v`.
    pub proof fn lemma_round_trip(s: ColourShuffle, v: Value)
        requires
            s.wf(),
        ensures
            s.unpermute(s.permute(v)) == v,
    {
        ColourShuffle::lemma_inverse(s, v);
    }

    /// A permutation sends distinct values to distinct values.
    pub proof fn lemma_distinct(s: ColourShuffle, u: Value, v: Value)
        requires
            s.wf(),
            u != v,
        ensures
            s.permute(u) != s.permute(v),
    {
        Value::lemma_index_injective(u, v);
    }
}

} // verus!
