//! Slab pages: a page of equal-size slots whose free slots are tracked by
//! a bitmask, one bit per slot, with no per-allocation metadata.
//!
//! An allocation takes the lowest free slot; a release frees the slot an
//! address names, and refuses addresses off the slot grid, outside the
//! page, or of slots that are already free.

use vstd::prelude::*;

use crate::memory::PAGE_SIZE;

verus! {

/// Slots of the smallest class on one page.
pub const MAX_SLOTS_PER_PAGE: usize = 512;

/// Words of the free bitmask.
pub const BITMASK_WORDS: usize = 8;

/// Bit `b` of the word is set.
pub open spec fn word_bit(w: u64, b: u64) -> bool {
    (w >> b) & 1u64 == 1u64
}

/// Slot `s` is marked free in the mask.
pub open spec fn mask_bit(mask: Seq<u64>, s: int) -> bool {
    word_bit(mask[s / 64], (s % 64) as u64)
}

/// The number of free slots below `n`.
pub open spec fn free_below(mask: Seq<u64>, n: int) -> nat
    decreases n,
{
    if n <= 0 {
        0
    } else {
        free_below(mask, n - 1) + if mask_bit(mask, n - 1) {
            1nat
        } else {
            0nat
        }
    }
}

proof fn lemma_clear_bit(x: u64, k: u64, b: u64)
    requires
        k < 64,
        b < 64,
    ensures
        word_bit(x & !(1u64 << k), b) == (word_bit(x, b) && b != k),
{
    assert(((x & !(1u64 << k)) >> b) & 1u64 == 1u64 <==> (((x >> b) & 1u64 == 1u64) && b != k))
        by (bit_vector)
        requires
            k < 64,
            b < 64,
    ;
}

proof fn lemma_set_bit(x: u64, k: u64, b: u64)
    requires
        k < 64,
        b < 64,
    ensures
        word_bit(x | (1u64 << k), b) == (word_bit(x, b) || b == k),
{
    assert(((x | (1u64 << k)) >> b) & 1u64 == 1u64 <==> (((x >> b) & 1u64 == 1u64) || b == k))
        by (bit_vector)
        requires
            k < 64,
            b < 64,
    ;
}

proof fn lemma_test_bit(x: u64, k: u64)
    requires
        k < 64,
    ensures
        (x & (1u64 << k) != 0) == word_bit(x, k),
{
    assert((x & (1u64 << k) != 0) <==> ((x >> k) & 1u64 == 1u64)) by (bit_vector)
        requires
            k < 64,
    ;
}

proof fn lemma_constant_words(b: u64)
    requires
        b < 64,
    ensures
        !word_bit(0, b),
        word_bit(0xffff_ffff_ffff_ffff, b),
{
    assert((0u64 >> b) & 1u64 != 1u64) by (bit_vector);
    assert((0xffff_ffff_ffff_ffffu64 >> b) & 1u64 == 1u64) by (bit_vector)
        requires
            b < 64,
    ;
}

proof fn lemma_low_mask(k: u64, b: u64)
    requires
        0 < k < 64,
        b < 64,
    ensures
        word_bit(((1u64 << k) - 1) as u64, b) == (b < k),
{
    assert(((((1u64 << k) - 1) as u64 >> b) & 1u64 == 1u64) <==> b < k) by (bit_vector)
        requires
            0 < k < 64,
            b < 64,
    ;
}

/// Changing the bit of one slot below `n` changes the count below `n` by
/// that bit alone.
proof fn lemma_free_below_one_change(m1: Seq<u64>, m2: Seq<u64>, s: int, n: int)
    requires
        0 <= s,
        forall|t: int| 0 <= t < n && t != s ==> mask_bit(m1, t) == mask_bit(m2, t),
    ensures
        s < n ==> free_below(m2, n) + (if mask_bit(m1, s) {
            1int
        } else {
            0int
        }) == free_below(m1, n) + (if mask_bit(m2, s) {
            1int
        } else {
            0int
        }),
        s >= n ==> free_below(m2, n) == free_below(m1, n),
    decreases n,
{
    if n > 0 {
        lemma_free_below_one_change(m1, m2, s, n - 1);
    }
}

/// A slot that is free below `n` makes the count below `n` positive, and
/// the count never exceeds `n`.
proof fn lemma_free_below_bounds(m: Seq<u64>, n: int)
    ensures
        free_below(m, n) <= if n > 0 {
            n
        } else {
            0
        },
        forall|s: int| 0 <= s < n && mask_bit(m, s) ==> free_below(m, n) > 0,
        free_below(m, n) > 0 ==> exists|s: int| 0 <= s < n && mask_bit(m, s),
    decreases n,
{
    if n > 0 {
        lemma_free_below_bounds(m, n - 1);
        if free_below(m, n) > 0 && !mask_bit(m, n - 1) {
            let s = choose|s: int| 0 <= s < n - 1 && mask_bit(m, s);
            assert(0 <= s < n && mask_bit(m, s));
        }
        if mask_bit(m, n - 1) {
            assert(0 <= n - 1 < n && mask_bit(m, n - 1));
        }
    }
}

/// When every slot below `n` is free, all `n` are counted.
proof fn lemma_free_below_full(m: Seq<u64>, n: int)
    requires
        forall|s: int| 0 <= s < n ==> mask_bit(m, s),
    ensures
        n >= 0 ==> free_below(m, n) == n,
    decreases n,
{
    if n > 0 {
        lemma_free_below_full(m, n - 1);
    }
}

/// One page of equal-size slots.
pub struct SlabPage {
    base: usize,
    free_mask: [u64; 8],
    object_size: usize,
    slot_count: usize,
    free_count: u16,
}

/// The abstract value of a page: where it starts, its slot size and count,
/// and which slots are free.
pub struct PageView {
    pub base: nat,
    pub object_size: nat,
    pub slot_count: nat,
    pub free: Set<int>,
}

impl View for SlabPage {
    type V = PageView;

    closed spec fn view(&self) -> PageView {
        PageView {
            base: self.base as nat,
            object_size: self.object_size as nat,
            slot_count: self.slot_count as nat,
            free: Set::new(|s: int| 0 <= s < self.slot_count && mask_bit(self.free_mask@, s)),
        }
    }
}

/// The lowest free slot of a page view.
pub open spec fn lowest_free(v: PageView, s: int) -> bool {
    v.free.contains(s) && forall|t: int| 0 <= t < s ==> !v.free.contains(t)
}

/// The address of slot `s`.
pub open spec fn slot_address(v: PageView, s: int) -> int {
    v.base + s * v.object_size
}

impl SlabPage {
    /// The mask, sizes and count agree: slots past the last one are never
    /// marked, and the count is the number of marked slots.
    pub closed spec fn page_wf(&self) -> bool {
        &&& 8 <= self.object_size <= PAGE_SIZE
        &&& self.slot_count == PAGE_SIZE / self.object_size
        &&& self.base + PAGE_SIZE <= usize::MAX
        &&& forall|s: int|
            self.slot_count <= s < MAX_SLOTS_PER_PAGE ==> !mask_bit(self.free_mask@, s)
        &&& self.free_count == free_below(self.free_mask@, self.slot_count as int)
    }

    /// A page of `object_size` slots at `base`, every slot free.
    pub fn new(base: usize, object_size: usize) -> (r: SlabPage)
        requires
            8 <= object_size <= PAGE_SIZE,
            base + PAGE_SIZE <= usize::MAX,
        ensures
            r.page_wf(),
            r@.base == base,
            r@.object_size == object_size,
            r@.slot_count == PAGE_SIZE / object_size,
            r@.free == Set::new(|s: int| 0 <= s < PAGE_SIZE / object_size),
    {
        let slot_count = PAGE_SIZE / object_size;
        assert(1 <= slot_count <= 512) by (nonlinear_arith)
            requires
                8 <= object_size <= 4096,
                slot_count == 4096usize / object_size,
        ;
        let word_count = (slot_count + 63) / 64;
        let mut mask: [u64; 8] = [0u64; 8];
        let mut i: usize = 0;
        while i < word_count
            invariant
                1 <= slot_count <= 512,
                word_count == (slot_count + 63) / 64,
                word_count <= 8,
                i <= word_count,
                forall|w: int| 0 <= w < i ==> mask@[w] == 0xffff_ffff_ffff_ffffu64,
                forall|w: int| i <= w < 8 ==> mask@[w] == 0u64,
            decreases word_count - i,
        {
            mask[i] = 0xffff_ffff_ffff_ffffu64;
            i = i + 1;
        }
        let ghost full = mask@;
        if slot_count % 64 != 0 {
            let last = word_count - 1;
            let k = (slot_count % 64) as u64;
            assert(1u64 << k >= 1) by (bit_vector)
                requires
                    k < 64,
            ;
            mask[last] = (1u64 << k) - 1;
        }
        proof {
            let k = (slot_count % 64) as u64;
            assert forall|s: int| 0 <= s < MAX_SLOTS_PER_PAGE implies mask_bit(mask@, s) == (s
                < slot_count) by {
                let w = s / 64;
                let b = (s % 64) as u64;
                lemma_constant_words(b);
                if slot_count % 64 != 0 && w == word_count - 1 {
                    lemma_low_mask(k, b);
                }
            }
            lemma_free_below_full(mask@, slot_count as int);
        }
        let page = SlabPage {
            base,
            free_mask: mask,
            object_size,
            slot_count,
            free_count: slot_count as u16,
        };
        assert(page@.free =~= Set::new(|s: int| 0 <= s < PAGE_SIZE / object_size));
        page
    }

    pub fn object_size(&self) -> (r: usize)
        ensures
            r == self@.object_size,
    {
        self.object_size
    }

    pub fn slot_count(&self) -> (r: usize)
        ensures
            r == self@.slot_count,
    {
        self.slot_count
    }

    /// Some slot is free.
    pub fn has_free(&self) -> (r: bool)
        requires
            self.page_wf(),
        ensures
            r == (exists|s: int| self@.free.contains(s)),
    {
        proof {
            lemma_free_below_bounds(self.free_mask@, self.slot_count as int);
            if exists|s: int| self@.free.contains(s) {
                let s = choose|s: int| self@.free.contains(s);
                assert(0 <= s < self.slot_count && mask_bit(self.free_mask@, s));
            }
            if self.free_count > 0 {
                let s = choose|s: int| 0 <= s < self.slot_count && mask_bit(self.free_mask@, s);
                assert(self@.free.contains(s));
            }
        }
        self.free_count > 0
    }

    /// Takes the lowest free slot and returns its address; none when every
    /// slot is taken.
    pub fn alloc_slot(&mut self) -> (r: Option<usize>)
        requires
            old(self).page_wf(),
        ensures
            final(self).page_wf(),
            final(self)@.base == old(self)@.base,
            final(self)@.object_size == old(self)@.object_size,
            final(self)@.slot_count == old(self)@.slot_count,
            old(self)@.free.is_empty() ==> r is None && final(self)@ == old(self)@,
            !old(self)@.free.is_empty() ==> exists|s: int|
                lowest_free(old(self)@, s) && r == Some(slot_address(old(self)@, s) as usize)
                    && final(self)@.free == old(self)@.free.remove(s),
    {
        let ghost before = self@;
        let ghost m0 = self.free_mask@;
        assert(self.slot_count <= 512) by (nonlinear_arith)
            requires
                self.slot_count == PAGE_SIZE / self.object_size,
                8 <= self.object_size,
        ;
        let word_count = (self.slot_count + 63) / 64;
        let limit = if word_count < BITMASK_WORDS {
            word_count
        } else {
            BITMASK_WORDS
        };
        let mut wi: usize = 0;
        while wi < limit
            invariant
                self.page_wf(),
                self.free_mask@ == m0,
                self@ == before,
                before == old(self)@,
                m0 == old(self).free_mask@,
                *self == *old(self),
                self.slot_count <= 512,
                limit <= BITMASK_WORDS,
                limit * 64 >= self.slot_count,
                wi <= limit,
                forall|t: int| 0 <= t < wi * 64 ==> !mask_bit(m0, t),
            decreases limit - wi,
        {
            let word = self.free_mask[wi];
            if word == 0 {
                proof {
                    assert forall|t: int| 0 <= t < (wi + 1) * 64 implies !mask_bit(m0, t) by {
                        if t >= wi * 64 {
                            assert(t / 64 == wi);
                            lemma_constant_words((t % 64) as u64);
                        }
                    }
                }
                wi = wi + 1;
                continue;
            }
            let bit = word.trailing_zeros() as usize;
            proof {
                vstd::std_specs::bits::axiom_u64_trailing_zeros(word);
            }
            let slot = wi * 64 + bit;
            if slot >= self.slot_count {
                proof {
                    assert(mask_bit(m0, slot as int)) by {
                        assert((slot as int) / 64 == wi);
                        assert((slot as int) % 64 == bit);
                    }
                }
                wi = wi + 1;
                continue;
            }
            proof {
                assert((slot as int) / 64 == wi && (slot as int) % 64 == bit);
                assert(mask_bit(m0, slot as int));
                assert forall|t: int| 0 <= t < slot implies !mask_bit(m0, t) by {
                    if t >= wi * 64 {
                        assert(t / 64 == wi);
                        assert(((word >> ((t % 64) as u64)) & 1u64) == 0u64);
                    }
                }
            }
            let cleared = word & !(1u64 << bit as u64);
            self.free_mask[wi] = cleared;
            proof {
                let m1 = self.free_mask@;
                assert forall|t: int| 0 <= t < MAX_SLOTS_PER_PAGE implies mask_bit(m1, t) == (
                mask_bit(m0, t) && t != slot) by {
                    if t / 64 == wi {
                        lemma_clear_bit(word, bit as u64, (t % 64) as u64);
                    }
                }
                lemma_free_below_one_change(m0, m1, slot as int, self.slot_count as int);
                lemma_free_below_bounds(m0, self.slot_count as int);
            }
            self.free_count = self.free_count - 1;
            proof {
                assert(self@.free =~= before.free.remove(slot as int));
                assert(lowest_free(before, slot as int));
                assert(slot * self.object_size <= PAGE_SIZE - self.object_size) by (nonlinear_arith)
                    requires
                        slot < self.slot_count,
                        self.slot_count == PAGE_SIZE / self.object_size,
                        8 <= self.object_size <= PAGE_SIZE,
                ;
            }
            return Some(self.base + slot * self.object_size);
        }
        proof {
            assert forall|t: int| 0 <= t < self.slot_count implies !mask_bit(m0, t) by {}
            assert(before.free =~= Set::<int>::empty());
        }
        None
    }

    /// Frees the slot at `address`. Addresses below the page, off the slot
    /// grid or past the last slot are refused, and so is a slot that is
    /// already free.
    pub fn dealloc_slot(&mut self, address: usize) -> (r: bool)
        requires
            old(self).page_wf(),
        ensures
            final(self).page_wf(),
            final(self)@.base == old(self)@.base,
            final(self)@.object_size == old(self)@.object_size,
            final(self)@.slot_count == old(self)@.slot_count,
            r == page_accepts(old(self)@, address as int),
            r ==> final(self)@.free == old(self)@.free.insert(
                (address - old(self)@.base) / (old(self)@.object_size as int),
            ),
            !r ==> final(self)@ == old(self)@,
    {
        let ghost before = self@;
        let ghost m0 = self.free_mask@;
        assert(self.slot_count <= 512) by (nonlinear_arith)
            requires
                self.slot_count == PAGE_SIZE / self.object_size,
                8 <= self.object_size,
        ;
        if address < self.base {
            return false;
        }
        let offset = address - self.base;
        if offset % self.object_size != 0 {
            return false;
        }
        let slot = offset / self.object_size;
        if slot >= self.slot_count {
            return false;
        }
        let wi = slot / 64;
        let bit = slot % 64;
        proof {
            assert(slot < 512) by (nonlinear_arith)
                requires
                    slot < self.slot_count,
                    self.slot_count == PAGE_SIZE / self.object_size,
                    8 <= self.object_size,
            ;
            lemma_test_bit(self.free_mask@[wi as int], bit as u64);
        }
        if self.free_mask[wi] & (1u64 << bit as u64) != 0 {
            assert(before.free.contains(slot as int));
            return false;
        }
        let word = self.free_mask[wi];
        self.free_mask[wi] = word | (1u64 << bit as u64);
        proof {
            let m1 = self.free_mask@;
            assert forall|t: int| 0 <= t < MAX_SLOTS_PER_PAGE implies mask_bit(m1, t) == (mask_bit(
                m0,
                t,
            ) || t == slot) by {
                if t / 64 == wi {
                    lemma_set_bit(word, bit as u64, (t % 64) as u64);
                }
            }
            lemma_free_below_one_change(m0, m1, slot as int, self.slot_count as int);
            lemma_free_below_bounds(m1, self.slot_count as int);
        }
        self.free_count = self.free_count + 1;
        proof {
            assert(self@.free =~= before.free.insert(slot as int));
        }
        true
    }
}

/// The page would take back `address`: it names a slot of the page that is
/// allocated.
pub open spec fn page_accepts(v: PageView, address: int) -> bool {
    &&& address >= v.base
    &&& (address - v.base) % (v.object_size as int) == 0
    &&& (address - v.base) / (v.object_size as int) < v.slot_count
    &&& !v.free.contains((address - v.base) / (v.object_size as int))
}

impl SlabPage {
    /// The page would take back `address`.
    pub fn accepts(&self, address: usize) -> (r: bool)
        requires
            self.page_wf(),
        ensures
            r == page_accepts(self@, address as int),
    {
        assert(self.slot_count <= 512) by (nonlinear_arith)
            requires
                self.slot_count == PAGE_SIZE / self.object_size,
                8 <= self.object_size,
        ;
        if address < self.base {
            return false;
        }
        let offset = address - self.base;
        if offset % self.object_size != 0 {
            return false;
        }
        let slot = offset / self.object_size;
        if slot >= self.slot_count {
            return false;
        }
        let wi = slot / 64;
        let bit = slot % 64;
        proof {
            lemma_test_bit(self.free_mask@[wi as int], bit as u64);
        }
        self.free_mask[wi] & (1u64 << bit as u64) == 0
    }
}

/// Freeing an allocated slot's address gives the slot back: an allocation
/// followed by a release of the address it returned leaves the free slots
/// as they were, and releasing that address a second time is refused.
pub proof fn lemma_alloc_then_dealloc_restores(v: PageView, s: int)
    requires
        v.object_size > 0,
        lowest_free(v, s),
        0 <= s < v.slot_count,
    ensures
        ({
            let a = slot_address(v, s);
            &&& a >= v.base
            &&& (a - v.base) % (v.object_size as int) == 0
            &&& (a - v.base) / (v.object_size as int) == s
            &&& v.free.remove(s).insert(s) == v.free
            &&& v.free.remove(s).insert(s).contains(s)
        }),
{
    let a = slot_address(v, s);
    assert((s * v.object_size) % (v.object_size as int) == 0 && (s * v.object_size) / (
    v.object_size as int) == s) by (nonlinear_arith)
        requires
            v.object_size > 0,
            s >= 0,
    ;
    assert(v.free.remove(s).insert(s) =~= v.free);
}

// ---------------------------------------------------------------------------
// Size classes

/// The slab pages of one size class, in the order they were added.
pub struct SlabClass {
    pages: Vec<SlabPage>,
    object_size: usize,
}

/// The first page from `from` on with a free slot.
pub open spec fn first_with_free(pages: Seq<PageView>, from: int) -> Option<int>
    decreases pages.len() - from,
{
    if from < 0 || from >= pages.len() {
        None
    } else if exists|s: int| pages[from].free.contains(s) {
        Some(from)
    } else {
        first_with_free(pages, from + 1)
    }
}

/// The first page from `from` on that would take back `address`.
pub open spec fn first_accepting(pages: Seq<PageView>, address: int, from: int) -> Option<int>
    decreases pages.len() - from,
{
    if from < 0 || from >= pages.len() {
        None
    } else if page_accepts(pages[from], address) {
        Some(from)
    } else {
        first_accepting(pages, address, from + 1)
    }
}

/// What allocating from the pages `v` yields and leaves: the lowest free
/// slot of the first page with one.
pub open spec fn class_alloc_outcome(v: Seq<PageView>, r: Option<usize>, w: Seq<PageView>) -> bool {
    let first = first_with_free(v, 0);
    &&& first is None ==> r is None && w == v
    &&& first is Some ==> exists|s: int|
        #[trigger] lowest_free(v[first->Some_0], s) && r == Some(
            slot_address(v[first->Some_0], s) as usize,
        ) && w == v.update(
            first->Some_0,
            PageView { free: v[first->Some_0].free.remove(s), ..v[first->Some_0] },
        )
}

proof fn lemma_class_alloc_outcome_intro(
    v: Seq<PageView>,
    r: Option<usize>,
    w: Seq<PageView>,
    p: int,
    s: int,
)
    requires
        first_with_free(v, 0) == Some(p),
        lowest_free(v[p], s),
        r == Some(slot_address(v[p], s) as usize),
        w == v.update(p, PageView { free: v[p].free.remove(s), ..v[p] }),
    ensures
        class_alloc_outcome(v, r, w),
{
    let first = first_with_free(v, 0);
    assert(first->Some_0 == p);
    assert(lowest_free(v[first->Some_0], s));
}

impl View for SlabClass {
    type V = Seq<PageView>;

    closed spec fn view(&self) -> Seq<PageView> {
        Seq::new(self.pages@.len(), |i: int| self.pages@[i]@)
    }
}

impl SlabClass {
    pub closed spec fn class_wf(&self) -> bool {
        &&& 8 <= self.object_size <= PAGE_SIZE
        &&& self.pages@.len() <= crate::memory::MAX_SLAB_PAGES
        &&& forall|i: int|
            0 <= i < self.pages@.len() ==> (#[trigger] self.pages@[i]).page_wf()
                && self.pages@[i]@.object_size == self.object_size
    }

    pub closed spec fn spec_object_size(&self) -> nat {
        self.object_size as nat
    }

    /// A class of `object_size` slots without pages.
    pub fn uninit(object_size: usize) -> (r: SlabClass)
        requires
            8 <= object_size <= PAGE_SIZE,
        ensures
            r.class_wf(),
            r@ == Seq::<PageView>::empty(),
            r.spec_object_size() == object_size,
    {
        let r = SlabClass { pages: Vec::new(), object_size };
        assert(r@ =~= Seq::<PageView>::empty());
        r
    }

    pub fn object_size(&self) -> (r: usize)
        ensures
            r == self.spec_object_size(),
    {
        self.object_size
    }

    /// Another page can be added.
    pub fn can_grow(&self) -> (r: bool)
        ensures
            r == (self@.len() < crate::memory::MAX_SLAB_PAGES),
    {
        self.pages.len() < crate::memory::MAX_SLAB_PAGES
    }

    /// Adds a page at `base` with every slot free.
    pub fn add_page(&mut self, base: usize)
        requires
            old(self).class_wf(),
            old(self)@.len() < crate::memory::MAX_SLAB_PAGES,
            base + PAGE_SIZE <= usize::MAX,
        ensures
            final(self).class_wf(),
            final(self).spec_object_size() == old(self).spec_object_size(),
            final(self)@.len() == old(self)@.len() + 1,
            final(self)@.drop_last() == old(self)@,
            final(self)@.last().base == base,
            final(self)@.last().object_size == old(self).spec_object_size(),
            final(self)@.last().slot_count == (PAGE_SIZE as nat) / old(self).spec_object_size(),
            final(self)@.last().free == Set::new(
                |s: int| 0 <= s < (PAGE_SIZE as nat) / old(self).spec_object_size(),
            ),
    {
        let page = SlabPage::new(base, self.object_size);
        let ghost before = self@;
        self.pages.push(page);
        assert(self@.drop_last() =~= before);
    }

    /// Allocates the lowest free slot of the first page that has one.
    pub fn allocate(&mut self) -> (r: Option<usize>)
        requires
            old(self).class_wf(),
        ensures
            final(self).class_wf(),
            final(self).spec_object_size() == old(self).spec_object_size(),
            final(self)@.len() == old(self)@.len(),
            class_alloc_outcome(old(self)@, r, final(self)@),
    {
        let ghost before = self@;
        let mut i: usize = 0;
        while i < self.pages.len()
            invariant
                self.class_wf(),
                self@ == before,
                before == old(self)@,
                self.object_size == old(self).object_size,
                self.pages@ == old(self).pages@,
                i <= self.pages@.len(),
                first_with_free(before, 0) == first_with_free(before, i as int),
            decreases self.pages@.len() - i,
        {
            assert(self.pages@[i as int].page_wf());
            if self.pages[i].has_free() {
                assert(self.pages@[i as int]@ == before[i as int]);
                proof {
                    let w = choose|s: int| before[i as int].free.contains(s);
                    assert(before[i as int].free.contains(w));
                    assert(!Set::<int>::empty().contains(w));
                    assert(!before[i as int].free.is_empty());
                }
                let mut page = self.pages.remove(i);
                let r = page.alloc_slot();
                self.pages.insert(i, page);
                proof {
                    let p = i as int;
                    assert(first_with_free(before, p) == Some(p));
                    let s = choose|s: int|
                        lowest_free(before[p], s) && r == Some(slot_address(before[p], s) as usize)
                            && page@.free == before[p].free.remove(s);
                    assert(self@ =~= before.update(p, PageView { free: before[p].free.remove(s), ..before[p] }));
                    assert(first_with_free(before, 0) == Some(p));
                    assert(lowest_free(before[p], s) && r == Some(slot_address(before[p], s) as usize)
                        && self@ == before.update(p, PageView { free: before[p].free.remove(s), ..before[p] }));
                    lemma_class_alloc_outcome_intro(before, r, self@, p, s);
                    assert forall|k: int| 0 <= k < self.pages@.len() implies (
                    #[trigger] self.pages@[k]).page_wf() && self.pages@[k]@.object_size
                        == self.object_size by {
                        if k != p {
                            assert(self.pages@[k] == old(self).pages@[k]);
                        }
                    }
                }
                return r;
            }
            proof {
                assert(!(exists|s: int| before[i as int].free.contains(s)));
            }
            i = i + 1;
        }
        None
    }

    /// Frees `address` in the first page that takes it back; false when
    /// no page does.
    pub fn deallocate(&mut self, address: usize) -> (r: bool)
        requires
            old(self).class_wf(),
        ensures
            final(self).class_wf(),
            final(self).spec_object_size() == old(self).spec_object_size(),
            final(self)@.len() == old(self)@.len(),
            match first_accepting(old(self)@, address as int, 0) {
                None => !r && final(self)@ == old(self)@,
                Some(p) => r && final(self)@ == old(self)@.update(
                    p,
                    PageView {
                        free: old(self)@[p].free.insert(
                            (address - old(self)@[p].base) / (old(self)@[p].object_size as int),
                        ),
                        ..old(self)@[p]
                    },
                ),
            },
    {
        let ghost before = self@;
        let mut i: usize = 0;
        while i < self.pages.len()
            invariant
                self.class_wf(),
                self@ == before,
                before == old(self)@,
                self.object_size == old(self).object_size,
                self.pages@ == old(self).pages@,
                i <= self.pages@.len(),
                first_accepting(before, address as int, 0) == first_accepting(
                    before,
                    address as int,
                    i as int,
                ),
            decreases self.pages@.len() - i,
        {
            assert(self.pages@[i as int].page_wf());
            if self.pages[i].accepts(address) {
                let mut page = self.pages.remove(i);
                let r = page.dealloc_slot(address);
                self.pages.insert(i, page);
                proof {
                    let p = i as int;
                    assert(self@ =~= before.update(
                        p,
                        PageView {
                            free: before[p].free.insert(
                                (address - before[p].base) / (before[p].object_size as int),
                            ),
                            ..before[p]
                        },
                    ));
                    assert forall|k: int| 0 <= k < self.pages@.len() implies (
                    #[trigger] self.pages@[k]).page_wf() && self.pages@[k]@.object_size
                        == self.object_size by {
                        if k != p {
                            assert(self.pages@[k] == old(self).pages@[k]);
                        }
                    }
                }
                return r;
            }
            i = i + 1;
        }
        false
    }
}

impl SlabClass {
    /// Allocates the lowest free slot of the newest page.
    pub fn allocate_from_last(&mut self) -> (r: Option<usize>)
        requires
            old(self).class_wf(),
            old(self)@.len() > 0,
        ensures
            final(self).class_wf(),
            final(self).spec_object_size() == old(self).spec_object_size(),
            final(self)@.len() == old(self)@.len(),
            final(self)@.drop_last() == old(self)@.drop_last(),
            old(self)@.last().free.is_empty() ==> r is None && final(self)@ == old(self)@,
            !old(self)@.last().free.is_empty() ==> exists|s: int|
                #[trigger] lowest_free(old(self)@.last(), s) && r == Some(
                    slot_address(old(self)@.last(), s) as usize,
                ) && final(self)@.last() == (PageView {
                    free: old(self)@.last().free.remove(s),
                    ..old(self)@.last()
                }),
    {
        let ghost before = self@;
        let last = self.pages.len() - 1;
        assert(self.pages@[last as int].page_wf());
        let mut page = self.pages.remove(last);
        let r = page.alloc_slot();
        self.pages.insert(last, page);
        proof {
            assert(self@.drop_last() =~= before.drop_last());
            assert forall|k: int| 0 <= k < self.pages@.len() implies (
            #[trigger] self.pages@[k]).page_wf() && self.pages@[k]@.object_size
                == self.object_size by {
                if k != last {
                    assert(self.pages@[k] == old(self).pages@[k]);
                }
            }
            if before.last().free.is_empty() {
                assert(self@ =~= before);
            }
        }
        r
    }
}

/// A fresh page's lowest free slot is its first one.
pub proof fn lemma_fresh_page_first_slot(v: PageView)
    requires
        v.slot_count > 0,
        v.free == Set::new(|s: int| 0 <= s < v.slot_count),
    ensures
        !v.free.is_empty(),
        lowest_free(v, 0),
        forall|s: int| lowest_free(v, s) ==> s == 0,
{
    assert(v.free.contains(0));
    assert(!Set::<int>::empty().contains(0));
}

} // verus!
