//! A fixed-size set of CPUs, kept as a bitmap.

use vstd::prelude::*;

use crate::config::CPUMASK_BITMAP_LEN;
use crate::config::MAX_CPUS;
use crate::cpu::CpuId;

verus! {

/// Whether bit `i` of `w` is set.
pub open spec fn bit_set(w: u64, i: nat) -> bool {
    i < 64 && (w >> (i as u64)) & 1 == 1
}

/// Number of set bits of `w` below position `n`.
pub open spec fn count_below(w: u64, n: nat) -> nat
    decreases n,
{
    if n == 0 {
        0
    } else {
        count_below(w, (n - 1) as nat) + if bit_set(w, (n - 1) as nat) { 1nat } else { 0nat }
    }
}

/// Setting bit `c` of `w` sets that bit and leaves the others.
proof fn lemma_or_bit(w: u64, c: u64, i: u64)
    requires
        c < 64,
        i < 64,
    ensures
        ((w | (1u64 << c)) >> i) & 1 == 1 <==> (i == c || (w >> i) & 1 == 1),
{
    assert(c < 64 && i < 64 ==> (((w | (1u64 << c)) >> i) & 1 == 1 <==> (i == c || (w >> i) & 1 == 1))) by (bit_vector);
}

/// Clearing bit `c` of `w` clears that bit and leaves the others.
proof fn lemma_and_not_bit(w: u64, c: u64, i: u64)
    requires
        c < 64,
        i < 64,
    ensures
        ((w & !(1u64 << c)) >> i) & 1 == 1 <==> (i != c && (w >> i) & 1 == 1),
{
    assert(c < 64 && i < 64 ==> (((w & !(1u64 << c)) >> i) & 1 == 1 <==> (i != c && (w >> i) & 1 == 1))) by (bit_vector);
}

/// A word is zero exactly when none of its 64 bits is set.
proof fn lemma_zero_iff_no_bits(w: u64)
    ensures
        w == 0 <==> (forall|i: nat| !#[trigger] bit_set(w, i)),
{
    if w == 0 {
        assert forall|i: nat| !#[trigger] bit_set(w, i) by {
            let k = i as u64;
            assert(w == 0 ==> (w >> k) & 1 == 0) by (bit_vector);
        }
    } else {
        vstd::std_specs::bits::axiom_u64_trailing_zeros(w);
        let t = vstd::std_specs::bits::u64_trailing_zeros(w);
        assert(bit_set(w, t as nat));
    }
}

/// The set bits of `w` below position `n`.
pub open spec fn bits_below(w: u64, n: nat) -> Set<nat> {
    Set::new(|i: nat| i < n && bit_set(w, i))
}

/// The set bits below `n` form a finite set of `count_below(w, n)` elements.
proof fn lemma_bits_below_len(w: u64, n: nat)
    ensures
        bits_below(w, n).finite(),
        bits_below(w, n).len() == count_below(w, n),
    decreases n,
{
    if n == 0 {
        assert(bits_below(w, 0) =~= Set::<nat>::empty());
    } else {
        let m = (n - 1) as nat;
        lemma_bits_below_len(w, m);
        if bit_set(w, m) {
            assert(bits_below(w, n) =~= bits_below(w, m).insert(m));
        } else {
            assert(bits_below(w, n) =~= bits_below(w, m));
        }
    }
}

/// A set of CPUs.
#[derive(Debug, Clone, Copy)]
pub struct CpuMask {
    bits: [u64; 1],
}

impl CpuMask {
    /// The CPU numbers in the mask.
    pub closed spec fn view(&self) -> Set<nat> {
        Set::new(|i: nat| bit_set(self.bits[0], i))
    }

    /// The bitmap word.
    pub closed spec fn word(&self) -> u64 {
        self.bits[0]
    }

    /// Number of CPUs in the mask.
    pub open spec fn spec_count(&self) -> nat {
        count_below(self.word(), 64)
    }

    /// The mask's view is exactly the set bits of its word.
    pub proof fn lemma_view_word(&self)
        ensures
            forall|i: nat| #[trigger] self@.contains(i) <==> bit_set(self.word(), i),
    {
    }

    /// The count of a mask is the number of CPUs in it.
    pub proof fn lemma_count_is_len(&self)
        ensures
            self@.finite(),
            self@.len() == self.spec_count(),
    {
        lemma_bits_below_len(self.word(), 64);
        assert(self@ =~= bits_below(self.word(), 64));
    }

    /// An empty mask.
    pub fn new() -> (r: Self)
        ensures
            r@ == Set::<nat>::empty(),
            r.word() == 0,
    {
        let r = CpuMask { bits: [0; 1] };
        proof {
            lemma_zero_iff_no_bits(0);
            assert(r@ =~= Set::<nat>::empty());
        }
        r
    }

    /// Word index and bit position of a CPU id.
    fn index_and_bit(cid: CpuId) -> (r: (usize, usize))
        requires
            cid.0 < MAX_CPUS,
        ensures
            r.0 == cid.0 / 64,
            r.1 == cid.0 % 64,
            r.0 < CPUMASK_BITMAP_LEN,
            r.1 < 64,
    {
        let id = cid.get();
        (id / 64, id % 64)
    }

    /// Whether `cid` is in the mask.
    pub fn test(&self, cid: CpuId) -> (r: bool)
        requires
            cid.0 < MAX_CPUS,
        ensures
            r == self@.contains(cid.0 as nat),
    {
        let (idx, bit) = Self::index_and_bit(cid);
        let w = self.bits[idx];
        let b = bit as u64;
        assert((w & (1u64 << b)) != 0 <==> (w >> b) & 1 == 1) by (bit_vector)
            requires
                b < 64,
        ;
        (w & (1u64 << b)) != 0
    }

    /// Adds `cid` to the mask.
    pub fn set(&mut self, cid: CpuId)
        requires
            cid.0 < MAX_CPUS,
        ensures
            final(self)@ == old(self)@.insert(cid.0 as nat),
    {
        let (idx, bit) = Self::index_and_bit(cid);
        let b = bit as u64;
        let w = self.bits[idx];
        self.bits[idx] = w | (1u64 << b);
        proof {
            assert forall|i: nat| #[trigger] self@.contains(i) == old(self)@.insert(cid.0 as nat).contains(i) by {
                if i < 64 {
                    lemma_or_bit(w, b, i as u64);
                }
            }
            assert(self@ =~= old(self)@.insert(cid.0 as nat));
        }
    }

    /// Removes `cid` from the mask.
    pub fn clear(&mut self, cid: CpuId)
        requires
            cid.0 < MAX_CPUS,
        ensures
            final(self)@ == old(self)@.remove(cid.0 as nat),
    {
        let (idx, bit) = Self::index_and_bit(cid);
        let b = bit as u64;
        let w = self.bits[idx];
        self.bits[idx] = w & !(1u64 << b);
        proof {
            assert forall|i: nat| #[trigger] self@.contains(i) == old(self)@.remove(cid.0 as nat).contains(i) by {
                if i < 64 {
                    lemma_and_not_bit(w, b, i as u64);
                }
            }
            assert(self@ =~= old(self)@.remove(cid.0 as nat));
        }
    }

    /// Removes every CPU from the mask.
    pub fn clear_all(&mut self)
        ensures
            final(self)@ == Set::<nat>::empty(),
    {
        self.bits = [0; 1];
        proof {
            lemma_zero_iff_no_bits(0);
            assert(self@ =~= Set::<nat>::empty());
        }
    }

    /// Whether the mask holds no CPU.
    pub fn is_empty(&self) -> (r: bool)
        ensures
            r == (self@ == Set::<nat>::empty()),
    {
        proof {
            lemma_zero_iff_no_bits(self.bits[0]);
            if self.bits[0] != 0 {
                let t = choose|i: nat| bit_set(self.bits[0], i);
                assert(self@.contains(t));
            } else {
                assert(self@ =~= Set::<nat>::empty());
            }
        }
        self.bits[0] == 0
    }

    /// Number of CPUs in the mask.
    pub fn count(&self) -> (r: usize)
        ensures
            r == self.spec_count(),
            r == self@.len(),
    {
        proof {
            self.lemma_count_is_len();
        }
        let w = self.bits[0];
        let mut n: usize = 0;
        let mut i: u64 = 0;
        while i < 64
            invariant
                i <= 64,
                n == count_below(w, i as nat),
                n <= i,
                w == self.bits[0],
            decreases 64 - i,
        {
            if (w >> i) & 1 == 1 {
                n = n + 1;
            }
            i = i + 1;
        }
        n
    }
}


/// Adding a CPU that was not in a mask raises its count by one; adding one that was
/// there keeps the count.
pub proof fn lemma_count_after_insert(before: CpuMask, after: CpuMask, c: nat)
    requires
        c < MAX_CPUS,
        after@ == before@.insert(c),
    ensures
        after.spec_count() == before.spec_count() + if before@.contains(c) { 0nat } else { 1nat },
{
    before.lemma_count_is_len();
    after.lemma_count_is_len();
}

/// Removing a CPU that was in a mask lowers its count by one; removing one that was not
/// there keeps the count.
pub proof fn lemma_count_after_remove(before: CpuMask, after: CpuMask, c: nat)
    requires
        after@ == before@.remove(c),
    ensures
        after.spec_count() == before.spec_count() - if before@.contains(c) { 1int } else { 0int },
{
    before.lemma_count_is_len();
    after.lemma_count_is_len();
}

impl CpuMask {
    /// An iterator over every CPU of the mask below `MAX_CPUS`.
    pub fn iter_all(&self) -> (r: CpuMaskIter)
        ensures
            r.pending() == self@,
            r.limit() == MAX_CPUS,
            r.exhausted_steps() == 0,
    {
        CpuMaskIter::new(self, MAX_CPUS)
    }

    /// The CPUs `iter_all` yields until it returns `None`, in order: exactly the CPUs of
    /// the mask, strictly ascending, as many as `count` gives.
    pub fn collect_all(&self) -> (r: Vec<CpuId>)
        ensures
            forall|i: int, j: int| 0 <= i < j < r@.len() ==> r@[i].0 < r@[j].0,
            forall|c: nat| self@.contains(c) <==> exists|i: int| 0 <= i < r@.len() && #[trigger] r@[i].0 == c,
            r@.len() == self@.len(),
            r@.len() == self.spec_count(),
    {
        proof {
            self.lemma_count_is_len();
        }
        let mut it = self.iter_all();
        let mut out: Vec<CpuId> = Vec::new();
        loop
            invariant
                it.limit() == MAX_CPUS,
                self@.finite(),
                it.pending().subset_of(self@),
                forall|c: nat| self@.contains(c) <==> (it.pending().contains(c) || exists|i: int| 0 <= i < out@.len() && #[trigger] out@[i].0 == c),
                forall|c: nat, i: int| #[trigger] it.pending().contains(c) && 0 <= i < out@.len() ==> #[trigger] out@[i].0 < c,
                forall|i: int, j: int| 0 <= i < j < out@.len() ==> out@[i].0 < out@[j].0,
                out@.len() + it.pending().len() == self@.len(),
            ensures
                it.pending() == Set::<nat>::empty(),
                forall|c: nat| self@.contains(c) <==> (it.pending().contains(c) || exists|i: int| 0 <= i < out@.len() && #[trigger] out@[i].0 == c),
                forall|i: int, j: int| 0 <= i < j < out@.len() ==> out@[i].0 < out@[j].0,
                out@.len() + it.pending().len() == self@.len(),
            decreases it.pending().len(),
        {
            let ghost p0 = it.pending();
            proof {
                vstd::set_lib::lemma_len_subset(p0, self@);
            }
            match it.next() {
                Some(c) => {
                    proof {
                        let x = choose|x: nat| {
                            &&& #[trigger] p0.contains(x)
                            &&& forall|d: nat| #[trigger] p0.contains(d) ==> x <= d
                            &&& it.pending() == p0.remove(x)
                            &&& Some(c) == if x < MAX_CPUS { Some(CpuId(x as usize)) } else { None::<CpuId> }
                        };
                        assert(c.0 == x);
                        assert forall|i: int| 0 <= i < out@.len() implies #[trigger] out@[i].0 < c.0 by {
                        }
                    }
                    let ghost out0 = out@;
                    out.push(c);
                    proof {
                        assert forall|cc: nat| self@.contains(cc) <==> (it.pending().contains(cc) || exists|i: int| 0 <= i < out@.len() && #[trigger] out@[i].0 == cc) by {
                            if self@.contains(cc) && !it.pending().contains(cc) {
                                if cc == c.0 {
                                    assert(out@[out0.len() as int].0 == cc);
                                } else {
                                    assert(p0.contains(cc) || exists|i: int| 0 <= i < out0.len() && #[trigger] out0[i].0 == cc);
                                    if !p0.contains(cc) {
                                        let i = choose|i: int| 0 <= i < out0.len() && #[trigger] out0[i].0 == cc;
                                        assert(out@[i] == out0[i]);
                                    }
                                }
                            }
                            if exists|i: int| 0 <= i < out@.len() && #[trigger] out@[i].0 == cc {
                                let i = choose|i: int| 0 <= i < out@.len() && #[trigger] out@[i].0 == cc;
                                if i < out0.len() {
                                    assert(out0[i] == out@[i]);
                                }
                            }
                        }
                    }
                },
                None => {
                    proof {
                        if p0 != Set::<nat>::empty() {
                            let x = choose|x: nat| {
                                &&& #[trigger] p0.contains(x)
                                &&& forall|d: nat| #[trigger] p0.contains(d) ==> x <= d
                                &&& it.pending() == p0.remove(x)
                                &&& None::<CpuId> == if x < MAX_CPUS { Some(CpuId(x as usize)) } else { None::<CpuId> }
                            };
                            assert(self@.contains(x));
                            assert(false);
                        }
                        assert(it.pending() =~= Set::<nat>::empty());
                    }
                    break;
                },
            }
        }
        out
    }
}

/// Clearing the lowest set bit `t` of `w` clears exactly that bit.
proof fn lemma_clear_lowest(w: u64, t: u64, i: u64)
    requires
        t < 64,
        i < 64,
        (w >> t) & 1 == 1,
        w << ((64 - t) as u64) == 0,
        w != 0,
    ensures
        ((w & ((w - 1) as u64)) >> i) & 1 == 1 <==> (i != t && (w >> i) & 1 == 1),
        (w >> i) & 1 == 1 ==> t <= i,
{
    assert(w != 0 && t < 64 && i < 64 && (w >> t) & 1 == 1 && w << ((64 - t) as u64) == 0 ==> (((w & ((w - 1) as u64)) >> i) & 1 == 1 <==> (i != t && (w >> i) & 1 == 1))) by (bit_vector);
    assert(t < 64 && i < 64 && w << ((64 - t) as u64) == 0 && (w >> i) & 1 == 1 ==> t <= i) by (bit_vector);
}

/// Iterator over the CPUs of a mask in increasing order, stopping at the first CPU
/// number that reaches the limit.
pub struct CpuMaskIter {
    mask: CpuMask,
    word_idx: usize,
    remaining: u64,
    nr_cpus: usize,
}

impl CpuMaskIter {
    #[verifier::type_invariant]
    closed spec fn inv(self) -> bool {
        &&& self.remaining != 0 ==> self.word_idx < CPUMASK_BITMAP_LEN
        &&& self.word_idx <= CPUMASK_BITMAP_LEN
    }

    /// CPU numbers not yet visited.
    pub closed spec fn pending(self) -> Set<nat> {
        if self.word_idx < CPUMASK_BITMAP_LEN {
            Set::new(|i: nat| bit_set(self.remaining, i))
        } else {
            Set::empty()
        }
    }

    /// The CPU number at which iteration stops.
    pub closed spec fn limit(self) -> nat {
        self.nr_cpus as nat
    }

    /// Number of words `next` has moved past (it stops moving at the end of the bitmap).
    pub closed spec fn exhausted_steps(self) -> nat {
        self.word_idx as nat
    }

    /// An iterator over the CPUs of `mask` below `nr_cpus`.
    pub fn new(mask: &CpuMask, nr_cpus: usize) -> (r: Self)
        ensures
            r.pending() == mask@,
            r.limit() == nr_cpus,
            r.exhausted_steps() == 0,
    {
        let r = CpuMaskIter { mask: *mask, word_idx: 0, remaining: mask.bits[0], nr_cpus };
        assert(r.pending() =~= mask@);
        r
    }

    /// Visits the lowest pending CPU: it leaves the pending set, and it is returned when
    /// it is below the limit. With nothing pending, returns `None`, on every call.
    pub fn next(&mut self) -> (r: Option<CpuId>)
        ensures
            final(self).limit() == old(self).limit(),
            old(self).pending() == Set::<nat>::empty() ==> r is None && final(self).pending() == Set::<nat>::empty(),
            old(self).pending() != Set::<nat>::empty() ==> {
                exists|c: nat| {
                    &&& #[trigger] old(self).pending().contains(c)
                    &&& forall|d: nat| #[trigger] old(self).pending().contains(d) ==> c <= d
                    &&& final(self).pending() == old(self).pending().remove(c)
                    &&& final(self).exhausted_steps() == old(self).exhausted_steps()
                    &&& r == if c < old(self).limit() { Some(CpuId(c as usize)) } else { None }
                }
            },
    {
        proof {
            use_type_invariant(&*self);
        }
        if self.remaining == 0 {
            // The bitmap has a single word: moving past it ends the iteration.
            proof {
                lemma_zero_iff_no_bits(0);
                assert(old(self).pending() =~= Set::<nat>::empty());
            }
            if self.word_idx < CPUMASK_BITMAP_LEN {
                self.word_idx = self.word_idx + 1;
            }
            assert(self.pending() =~= Set::<nat>::empty());
            return None;
        }
        let w = self.remaining;
        proof {
            vstd::std_specs::bits::axiom_u64_trailing_zeros(w);
        }
        let t = w.trailing_zeros() as u64;
        let id = self.word_idx * 64 + t as usize;
        self.remaining = w & (w - 1);
        proof {
            let c = t as nat;
            assert(old(self).pending().contains(c));
            assert forall|d: nat| #[trigger] old(self).pending().contains(d) implies c <= d by {
                lemma_clear_lowest(w, t, d as u64);
            }
            assert forall|i: nat| #[trigger] self.pending().contains(i) == old(self).pending().remove(c).contains(i) by {
                if i < 64 {
                    lemma_clear_lowest(w, t, i as u64);
                }
            }
            assert(self.pending() =~= old(self).pending().remove(c));
            assert(id == c);
        }
        if id >= self.nr_cpus {
            return None;
        }
        Some(CpuId::new(id))
    }
}

} // verus!
