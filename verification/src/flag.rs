use vstd::prelude::*;

verus! {

/// Whether bit `i` of `x` is set (bits outside `0..32` are never set).
pub open spec fn bit_set(x: u32, i: int) -> bool {
    0 <= i < 32 && (x >> (i as u32)) & 1u32 == 1u32
}

/// The set positions of `x` below `n`, in increasing order.
pub open spec fn bits_below(x: u32, n: nat) -> Seq<usize>
    decreases n,
{
    if n == 0 {
        Seq::empty()
    } else {
        let r = bits_below(x, (n - 1) as nat);
        if bit_set(x, n - 1) {
            r.push((n - 1) as usize)
        } else {
            r
        }
    }
}

/// All set positions of `x`, in increasing order.
pub open spec fn bit_positions(x: u32) -> Seq<usize> {
    bits_below(x, 32)
}

/// The positions in `bits_below(x, n)` are below `n` and rise strictly.
pub proof fn lemma_bits_below_sorted(x: u32, n: nat)
    requires
        n <= 32,
    ensures
        forall|i: int| 0 <= i < bits_below(x, n).len() ==> (#[trigger] bits_below(x, n)[i] as int) < n
            && bit_set(x, bits_below(x, n)[i] as int),
        forall|i: int, j: int| 0 <= i < j < bits_below(x, n).len() ==> bits_below(x, n)[i] < bits_below(x, n)[j],
    decreases n,
{
    if n > 0 {
        let m = (n - 1) as nat;
        lemma_bits_below_sorted(x, m);
        let r = bits_below(x, m);
        if bit_set(x, m as int) {
            assert(bits_below(x, n) == r.push(m as usize));
            assert forall|i: int| 0 <= i < bits_below(x, n).len() implies (#[trigger] bits_below(x, n)[i] as int) < n
                && bit_set(x, bits_below(x, n)[i] as int) by {
                if i < r.len() {
                    assert(bits_below(x, n)[i] == r[i]);
                }
            }
        } else {
            assert(bits_below(x, n) == r);
        }
    }
}

/// A set of up to 32 small indices stored as the bits of a `u32`.
#[derive(Debug, Default, Clone, Copy)]
pub struct Flag(pub u32);

impl Flag {
    /// Whether position `i` belongs to the flag.
    pub open spec fn contains(self, i: int) -> bool {
        bit_set(self.0, i)
    }

    /// Adds `position` to the set.
    pub fn set(&mut self, position: u8)
        requires
            position < 32,
        ensures
            final(self).0 == old(self).0 | (1u32 << position),
            forall|i: int| #[trigger] final(self).contains(i) == (old(self).contains(i) || i == position),
    {
        let old_bits = self.0;
        self.0 = self.0 | (1u32 << position);
        proof {
            let p = position as u32;
            assert forall|i: int| #[trigger] self.contains(i) == (bit_set(old_bits, i) || i == position) by {
                if 0 <= i < 32 {
                    let j = i as u32;
                    assert(((old_bits | (1u32 << p)) >> j) & 1u32 == 1u32 <==> ((old_bits >> j) & 1u32 == 1u32 || j == p)) by (bit_vector)
                        requires p < 32, j < 32;
                }
            }
        }
    }

    /// Removes `position` from the set.
    pub fn unset(&mut self, position: u8)
        requires
            position < 32,
        ensures
            final(self).0 == old(self).0 & !(1u32 << position),
            forall|i: int| #[trigger] final(self).contains(i) == (old(self).contains(i) && i != position),
    {
        let old_bits = self.0;
        self.0 = self.0 & !(1u32 << position);
        proof {
            let p = position as u32;
            assert forall|i: int| #[trigger] self.contains(i) == (bit_set(old_bits, i) && i != position) by {
                if 0 <= i < 32 {
                    let j = i as u32;
                    assert(((old_bits & !(1u32 << p)) >> j) & 1u32 == 1u32 <==> ((old_bits >> j) & 1u32 == 1u32 && j != p)) by (bit_vector)
                        requires p < 32, j < 32;
                }
            }
        }
    }

    /// The set positions, lowest first.
    pub fn positions(self) -> (r: Vec<usize>)
        ensures
            r@ == bit_positions(self.0),
    {
        let mut r: Vec<usize> = Vec::new();
        let mut i: u32 = 0;
        while i < 32
            invariant
                i <= 32,
                r@ == bits_below(self.0, i as nat),
            decreases 32 - i,
        {
            if (self.0 >> i) & 1u32 == 1u32 {
                r.push(i as usize);
            }
            i = i + 1;
        }
        r
    }

    /// Whether no position is set.
    pub fn is_empty(self) -> (r: bool)
        ensures
            r == (self.0 == 0),
    {
        self.0 == 0
    }

    /// The lowest set position, if any.
    pub fn minimum(self) -> (r: Option<usize>)
        ensures
            r == (if bit_positions(self.0).len() > 0 { Some(bit_positions(self.0)[0]) } else { None::<usize> }),
    {
        let p = self.positions();
        if p.len() > 0 {
            Some(p[0])
        } else {
            None
        }
    }

    /// The number of set positions.
    pub fn len(self) -> (r: usize)
        ensures
            r == bit_positions(self.0).len(),
    {
        self.positions().len()
    }

    /// An iterator over the set positions, lowest first.
    pub fn into_iter(self) -> (it: FlagSetBitsIndexIterator)
        ensures
            it.flag == self.0,
    {
        FlagSetBitsIndexIterator { flag: self.0 }
    }
}

/// Yields the set bit positions of a flag in increasing order.
pub struct FlagSetBitsIndexIterator {
    pub flag: u32,
}

impl FlagSetBitsIndexIterator {
    /// The lowest remaining position, which is removed; `None` once empty.
    pub fn next(&mut self) -> (r: Option<usize>)
        ensures
            old(self).flag == 0 ==> r is None && final(self).flag == 0,
            old(self).flag != 0 ==> (r matches Some(i) && i < 32
                && bit_set(old(self).flag, i as int)
                && (forall|j: int| 0 <= j < i ==> !bit_set(old(self).flag, j))
                && (forall|j: int| #[trigger] bit_set(final(self).flag, j) == (bit_set(old(self).flag, j) && j != i))),
    {
        if self.flag == 0 {
            None
        } else {
            let x = self.flag;
            let index = x.trailing_zeros();
            proof {
                vstd::std_specs::bits::axiom_u32_trailing_zeros(x);
            }
            self.flag = x & (x - 1);
            proof {
                let t = index;
                assert(t < 32);
                assert forall|j: int| 0 <= j < t implies !bit_set(x, j) by {
                    let jj = j as u32;
                    assert((x >> jj) & 1u32 == 0u32);
                }
                assert forall|j: int| #[trigger] bit_set(x & ((x - 1u32) as u32), j) == (bit_set(x, j) && j != t) by {
                    if 0 <= j < 32 {
                        let jj = j as u32;
                        assert(x != 0 && t < 32 && (x >> t) & 1u32 == 1u32 && x << ((32 - t) as u32) == 0
                            ==> (((x & ((x - 1u32) as u32)) >> jj) & 1u32 == 1u32 <==> ((x >> jj) & 1u32 == 1u32 && jj != t)))
                            by (bit_vector)
                            requires jj < 32;
                    }
                }
            }
            Some(index as usize)
        }
    }
}

proof fn lemma_bits_below_without_lowest(x: u32, y: u32, i: int, n: nat)
    requires
        0 <= i < 32,
        n <= 32,
        bit_set(x, i),
        forall|j: int| 0 <= j < i ==> !bit_set(x, j),
        forall|j: int| #[trigger] bit_set(y, j) == (bit_set(x, j) && j != i),
    ensures
        n <= i ==> bits_below(x, n) == Seq::<usize>::empty() && bits_below(y, n) == Seq::<usize>::empty(),
        n > i ==> bits_below(x, n) == seq![i as usize] + bits_below(y, n),
    decreases n,
{
    if n > 0 {
        let m = (n - 1) as nat;
        lemma_bits_below_without_lowest(x, y, i, m);
        assert(bit_set(y, m as int) == (bit_set(x, m as int) && m != i));
        if n > i + 1 {
            if bit_set(x, m as int) {
                assert(bits_below(x, n) =~= seq![i as usize] + bits_below(y, n));
            } else {
                assert(bits_below(x, n) =~= seq![i as usize] + bits_below(y, n));
            }
        } else if n == i + 1 {
            assert(bits_below(x, n) =~= seq![i as usize] + bits_below(y, n));
        }
    }
}

/// Taking the next position from a flag's iterator takes the lowest set
/// position: the positions before are that position followed by the
/// positions after. So the iterator yields exactly the flag's positions,
/// lowest first.
pub proof fn lemma_next_takes_lowest_position(before: u32, after: u32, i: usize)
    requires
        i < 32,
        bit_set(before, i as int),
        forall|j: int| 0 <= j < i ==> !bit_set(before, j),
        forall|j: int| #[trigger] bit_set(after, j) == (bit_set(before, j) && j != i),
    ensures
        bit_positions(before) == seq![i] + bit_positions(after),
{
    lemma_bits_below_without_lowest(before, after, i as int, 32);
}

/// A flag with no set position has no positions, so the iterator of an
/// emptied flag yields nothing more.
pub proof fn lemma_empty_flag_has_no_positions(n: nat)
    requires
        n <= 32,
    ensures
        bits_below(0u32, n) == Seq::<usize>::empty(),
    decreases n,
{
    if n > 0 {
        lemma_empty_flag_has_no_positions((n - 1) as nat);
        let k = (n - 1) as u32;
        assert((0u32 >> k) & 1u32 == 0u32) by (bit_vector);
    }
}

/// Setting a position that was not set and then unsetting it gives back
/// the flag it started from.
pub proof fn lemma_unset_undoes_set(x: u32, position: u8)
    requires
        position < 32,
        !bit_set(x, position as int),
    ensures
        (x | (1u32 << position)) & !(1u32 << position) == x,
{
    let p = position as u32;
    assert((x >> p) & 1u32 != 1u32);
    assert(p < 32 && (x >> p) & 1u32 != 1u32 ==> (x | (1u32 << p)) & !(1u32 << p) == x) by (bit_vector);
}

/// The flag `x` after setting each position of `s` in turn.
pub open spec fn set_all(x: u32, s: Seq<u8>) -> u32
    decreases s.len(),
{
    if s.len() == 0 {
        x
    } else {
        set_all(x, s.drop_last()) | (1u32 << s.last())
    }
}

proof fn lemma_or_bit(y: u32, p: u8)
    requires
        p < 32,
    ensures
        forall|i: int| #[trigger] bit_set(y | (1u32 << p), i) == (bit_set(y, i) || i == p),
{
    let q = p as u32;
    assert forall|i: int| #[trigger] bit_set(y | (1u32 << p), i) == (bit_set(y, i) || i == p) by {
        if 0 <= i < 32 {
            let j = i as u32;
            assert(((y | (1u32 << q)) >> j) & 1u32 == 1u32 <==> ((y >> j) & 1u32 == 1u32 || j == q)) by (bit_vector)
                requires q < 32, j < 32;
        }
    }
}

proof fn lemma_set_all_bits(x: u32, s: Seq<u8>)
    requires
        forall|k: int| 0 <= k < s.len() ==> s[k] < 32,
    ensures
        forall|i: int| #[trigger] bit_set(set_all(x, s), i) == (bit_set(x, i) || (0 <= i < 32 && s.contains(i as u8))),
    decreases s.len(),
{
    if s.len() > 0 {
        let prev = s.drop_last();
        lemma_set_all_bits(x, prev);
        lemma_or_bit(set_all(x, prev), s.last());
        assert forall|i: int| #[trigger] bit_set(set_all(x, s), i) == (bit_set(x, i) || (0 <= i < 32 && s.contains(i as u8))) by {
            if 0 <= i < 32 && s.contains(i as u8) {
                let k = choose|k: int| 0 <= k < s.len() && s[k] == i as u8;
                if k < s.len() - 1 {
                    assert(prev[k] == i as u8);
                    assert(prev.contains(i as u8));
                }
            }
            if 0 <= i < 32 && prev.contains(i as u8) {
                let k = choose|k: int| 0 <= k < prev.len() && prev[k] == i as u8;
                assert(s[k] == i as u8);
            }
            if i == s.last() {
                assert(s[s.len() - 1] == i as u8);
            }
        }
    }
}

proof fn lemma_bits_below_members(x: u32, n: nat)
    requires
        n <= 32,
    ensures
        forall|p: usize| #[trigger] bits_below(x, n).contains(p) == (p < n && bit_set(x, p as int)),
    decreases n,
{
    if n > 0 {
        let m = (n - 1) as nat;
        lemma_bits_below_members(x, m);
        let r = bits_below(x, m);
        assert forall|p: usize| #[trigger] bits_below(x, n).contains(p) == (p < n && bit_set(x, p as int)) by {
            if bit_set(x, m as int) {
                assert(bits_below(x, n) == r.push(m as usize));
                if r.contains(p) {
                    let k = choose|k: int| 0 <= k < r.len() && r[k] == p;
                    assert(bits_below(x, n)[k] == p);
                }
                if p == m {
                    assert(bits_below(x, n)[r.len() as int] == p);
                }
                if bits_below(x, n).contains(p) && p != m {
                    let k = choose|k: int| 0 <= k < bits_below(x, n).len() && bits_below(x, n)[k] == p;
                    assert(r[k] == p);
                }
            } else {
                assert(bits_below(x, n) == r);
            }
        }
    }
}

/// Setting positions one after another on an empty flag and iterating it
/// (the iterator yields `bit_positions`, lowest first, see
/// `lemma_next_takes_lowest_position`) gives exactly the positions that were
/// set, in ascending order, each once, whatever the order and repeats of
/// the settings.
pub proof fn lemma_set_then_iterate(s: Seq<u8>)
    requires
        forall|k: int| 0 <= k < s.len() ==> s[k] < 32,
    ensures
        forall|i: int, j: int| 0 <= i < j < bit_positions(set_all(0, s)).len()
            ==> bit_positions(set_all(0, s))[i] < bit_positions(set_all(0, s))[j],
        forall|p: usize| #[trigger] bit_positions(set_all(0, s)).contains(p) == (p < 32 && s.contains(p as u8)),
{
    let x = set_all(0, s);
    lemma_set_all_bits(0, s);
    lemma_bits_below_sorted(x, 32);
    lemma_bits_below_members(x, 32);
    assert forall|p: usize| #[trigger] bit_positions(x).contains(p) == (p < 32 && s.contains(p as u8)) by {
        let pi = p as int;
        if pi < 32 {
            let q = p as u32;
            assert((0u32 >> q) & 1u32 != 1u32) by (bit_vector)
                requires q < 32;
            assert(!bit_set(0u32, pi));
            assert(bit_set(x, pi) == (bit_set(0u32, pi) || (0 <= pi < 32 && s.contains(pi as u8))));
        }
    }
}

} // verus!
