use vstd::prelude::*;

verus! {

/// The identifier that follows `id`: one more, wrapping to zero after `u32::MAX`.
pub open spec fn successor(id: u32) -> u32 {
    if id == u32::MAX { 0 } else { (id + 1) as u32 }
}

/// The identifier that the allocation numbered `k` (from zero) returns, when the
/// first one returns `start`.
pub open spec fn nth_id(start: u32, k: nat) -> u32
    decreases k,
{
    if k == 0 {
        start
    } else {
        successor(nth_id(start, (k - 1) as nat))
    }
}

/// The allocation numbered `k` returns `start + k`, taken modulo 2^32.
pub proof fn lemma_nth_id_wraps(start: u32, k: nat)
    ensures
        nth_id(start, k) as int == (start as int + k) % 0x1_0000_0000,
    decreases k,
{
    if k > 0 {
        lemma_nth_id_wraps(start, (k - 1) as nat);
        let p = nth_id(start, (k - 1) as nat) as int;
        let a = start as int + k - 1;
        assert(p == a % 0x1_0000_0000);
        assert(a % 0x1_0000_0000 + 1 == 0x1_0000_0000 ==> (a + 1) % 0x1_0000_0000 == 0) by {
            lemma_mod_succ(a);
        }
        assert(a % 0x1_0000_0000 + 1 < 0x1_0000_0000 ==> (a + 1) % 0x1_0000_0000 == a
            % 0x1_0000_0000 + 1) by {
            lemma_mod_succ(a);
        }
    }
}

proof fn lemma_mod_succ(a: int)
    requires
        a >= 0,
    ensures
        (a + 1) % 0x1_0000_0000 == (if a % 0x1_0000_0000 + 1 == 0x1_0000_0000 {
            0
        } else {
            a % 0x1_0000_0000 + 1
        }),
{
    let q = a / 0x1_0000_0000;
    let m = a % 0x1_0000_0000;
    assert(a == q * 0x1_0000_0000 + m && 0 <= m < 0x1_0000_0000);
    if m + 1 == 0x1_0000_0000 {
        assert(a + 1 == (q + 1) * 0x1_0000_0000);
        vstd::arithmetic::div_mod::lemma_mod_multiples_basic(q + 1, 0x1_0000_0000);
    } else {
        vstd::arithmetic::div_mod::lemma_fundamental_div_mod_converse(
            a + 1,
            0x1_0000_0000,
            q,
            m + 1,
        );
    }
}

/// Identifiers are never repeated before the counter wraps: among any 2^32
/// successive allocations, no two return the same identifier.
pub proof fn lemma_ids_distinct_until_wraparound(start: u32, i: nat, j: nat)
    requires
        i < j < 0x1_0000_0000,
    ensures
        nth_id(start, i) != nth_id(start, j),
{
    lemma_nth_id_wraps(start, i);
    lemma_nth_id_wraps(start, j);
    let a = start as int + i;
    let b = start as int + j;
    if a < 0x1_0000_0000 {
        vstd::arithmetic::div_mod::lemma_small_mod(a as nat, 0x1_0000_0000);
    } else {
        vstd::arithmetic::div_mod::lemma_fundamental_div_mod_converse(a, 0x1_0000_0000, 1, a - 0x1_0000_0000);
    }
    if b < 0x1_0000_0000 {
        vstd::arithmetic::div_mod::lemma_small_mod(b as nat, 0x1_0000_0000);
    } else {
        vstd::arithmetic::div_mod::lemma_fundamental_div_mod_converse(b, 0x1_0000_0000, 1, b - 0x1_0000_0000);
    }
}

/// Hands out voice identifiers in increasing order, wrapping on overflow.
pub struct IdAllocator {
    next: u32,
}

impl IdAllocator {
    /// The identifier that the next allocation returns.
    pub closed spec fn next_id(&self) -> u32 {
        self.next
    }

    /// An allocator whose first identifier is zero.
    pub fn new() -> (r: IdAllocator)
        ensures
            r.next_id() == 0,
    {
        IdAllocator { next: 0 }
    }

    /// Returns the current identifier and advances to its successor.
    pub fn allocate(&mut self) -> (r: u32)
        ensures
            r == old(self).next_id(),
            final(self).next_id() == successor(r),
    {
        let current = self.next;
        self.next = current.wrapping_add(1);
        current
    }
}

} // verus!
