//! The slab heap's size classes, allocation tokens and statistics.
//!
//! Each size class (8 to 4096 bytes) owns slab pages from the kernel; an
//! allocation takes the smallest class that fits. A [`SlabToken`] packs a
//! live allocation's class, page and slot into one word.

pub mod relativistic;
pub mod slab;

use vstd::prelude::*;

use crate::memory::slab::{
    class_alloc_outcome, first_accepting, lemma_fresh_page_first_slot, lowest_free, slot_address,
    PageView, SlabClass,
};

verus! {

pub const PAGE_SIZE: usize = 4096;
pub const SLAB_PAGES: usize = 8;
pub const MAX_SLAB_PAGES: usize = 64;
pub const NUM_CLASSES: usize = 10;

/// The object size of class `i`: 8 bytes doubled `i` times.
pub open spec fn class_size(i: int) -> int
    decreases i,
{
    if i <= 0 {
        8
    } else {
        2 * class_size(i - 1)
    }
}

/// The object size of each class.
pub fn size_class(index: usize) -> (r: usize)
    requires
        index < NUM_CLASSES,
    ensures
        r == class_size(index as int),
{
    reveal_with_fuel(class_size, 11);
    let mut size: usize = 8;
    let mut i: usize = 0;
    while i < index
        invariant
            i <= index < NUM_CLASSES,
            size == class_size(i as int),
            size <= 2048 || i == index,
        decreases index - i,
    {
        proof {
            reveal_with_fuel(class_size, 11);
        }
        size = size * 2;
        i = i + 1;
    }
    size
}

proof fn lemma_class_sizes()
    ensures
        class_size(0) == 8 && class_size(1) == 16 && class_size(2) == 32 && class_size(3) == 64
            && class_size(4) == 128 && class_size(5) == 256 && class_size(6) == 512
            && class_size(7) == 1024 && class_size(8) == 2048 && class_size(9) == 4096,
{
    reveal_with_fuel(class_size, 11);
}

/// The first class from `i` on whose objects hold `size` bytes.
pub open spec fn class_from(size: int, i: int) -> Option<usize>
    decreases NUM_CLASSES - i,
{
    if i < 0 || i >= NUM_CLASSES {
        None
    } else if size <= class_size(i) {
        Some(i as usize)
    } else {
        class_from(size, i + 1)
    }
}

/// The smallest size class that holds `size` bytes.
pub fn class_for(size: usize) -> (r: Option<usize>)
    ensures
        r == class_from(size as int, 0),
        size > PAGE_SIZE ==> r is None,
        size <= PAGE_SIZE ==> r is Some && r->Some_0 < NUM_CLASSES && size <= class_size(
            r->Some_0 as int,
        ) && (r->Some_0 == 0 || class_size(r->Some_0 - 1) < size),
{
    proof {
        lemma_class_sizes();
    }
    let mut i: usize = 0;
    while i < NUM_CLASSES
        invariant
            i <= NUM_CLASSES,
            forall|k: int| 0 <= k < i ==> class_size(k) < size,
            class_size(0) == 8 && class_size(1) == 16 && class_size(2) == 32 && class_size(3) == 64
                && class_size(4) == 128 && class_size(5) == 256 && class_size(6) == 512
                && class_size(7) == 1024 && class_size(8) == 2048 && class_size(9) == 4096,
            class_from(size as int, 0) == class_from(size as int, i as int),
        decreases NUM_CLASSES - i,
    {
        if size_class(i) >= size {
            return Some(i);
        }
        i = i + 1;
    }
    None
}

/// A live allocation's class, page and slot packed into one word.
#[derive(Clone, Copy, Debug, PartialEq, Eq, Structural)]
pub struct SlabToken(u32);

impl View for SlabToken {
    type V = (u8, u8, u16);

    closed spec fn view(&self) -> (u8, u8, u16) {
        ((self.0 >> 24u32) as u8, (self.0 >> 16u32) as u8, self.0 as u16)
    }
}

impl SlabToken {
    pub fn pack(class: u8, page: u8, slot: u16) -> (r: SlabToken)
        ensures
            r@ == (class, page, slot),
    {
        let word = (class as u32) << 24u32 | (page as u32) << 16u32 | slot as u32;
        assert((((class as u32) << 24u32 | (page as u32) << 16u32 | slot as u32) >> 24u32) as u8
            == class) by (bit_vector);
        assert((((class as u32) << 24u32 | (page as u32) << 16u32 | slot as u32) >> 16u32) as u8
            == page) by (bit_vector);
        assert(((class as u32) << 24u32 | (page as u32) << 16u32 | slot as u32) as u16 == slot)
            by (bit_vector);
        SlabToken(word)
    }

    pub fn class(&self) -> (r: u8)
        ensures
            r == self@.0,
    {
        (self.0 >> 24u32) as u8
    }

    pub fn page(&self) -> (r: u8)
        ensures
            r == self@.1,
    {
        (self.0 >> 16u32) as u8
    }

    pub fn slot(&self) -> (r: u16)
        ensures
            r == self@.2,
    {
        self.0 as u16
    }
}

/// Allocation counters of the heap.
#[derive(Clone, Copy, Debug, PartialEq, Eq, Structural)]
pub struct HeapStats {
    pub alloc_count: u64,
    pub dealloc_count: u64,
    pub oom_count: u64,
}

// ---------------------------------------------------------------------------
// The heap

/// The next step of an allocation.
#[derive(Clone, Copy, Debug, PartialEq, Eq, Structural)]
pub enum AllocStep {
    /// The heap is not ready or no class holds the request: a null answer,
    /// not counted.
    Refused,
    /// A slot of an existing page was taken.
    Allocated(usize),
    /// Every page of the class is full and it may grow: a new page from the
    /// kernel is needed for the class.
    NeedPage(usize),
    /// Every page of the class is full and it may not grow: counted as out
    /// of memory.
    Exhausted,
}

/// The process heap: one slab class per size and the allocation counters.
pub struct GlobalSlabHeap {
    classes: Vec<SlabClass>,
    alloc_count: u64,
    dealloc_count: u64,
    oom_count: u64,
    ready: bool,
}

/// The abstract value of the heap.
pub struct HeapView {
    pub classes: Seq<Seq<PageView>>,
    pub stats: HeapStats,
    pub ready: bool,
}

impl View for GlobalSlabHeap {
    type V = HeapView;

    closed spec fn view(&self) -> HeapView {
        HeapView {
            classes: Seq::new(self.classes@.len(), |i: int| self.classes@[i]@),
            stats: HeapStats {
                alloc_count: self.alloc_count,
                dealloc_count: self.dealloc_count,
                oom_count: self.oom_count,
            },
            ready: self.ready,
        }
    }
}

/// The larger of the request's size and alignment.
pub open spec fn request_size(size: usize, align: usize) -> int {
    if size >= align {
        size as int
    } else {
        align as int
    }
}

impl GlobalSlabHeap {
    /// One class per size, each of its size and within its page limit.
    pub closed spec fn heap_wf(&self) -> bool {
        &&& self.classes@.len() == NUM_CLASSES
        &&& forall|i: int|
            0 <= i < NUM_CLASSES ==> (#[trigger] self.classes@[i]).class_wf()
                && self.classes@[i].spec_object_size() == class_size(i)
    }

    /// A heap that is not ready yet, with no pages and zero counters.
    pub fn new() -> (r: GlobalSlabHeap)
        ensures
            r.heap_wf(),
            !r@.ready,
            r@.stats == (HeapStats { alloc_count: 0, dealloc_count: 0, oom_count: 0 }),
            forall|i: int| 0 <= i < NUM_CLASSES ==> #[trigger] r@.classes[i] == Seq::<
                PageView,
            >::empty(),
    {
        proof {
            lemma_class_sizes();
        }
        let mut classes: Vec<SlabClass> = Vec::new();
        let mut i: usize = 0;
        while i < NUM_CLASSES
            invariant
                i <= NUM_CLASSES,
                classes@.len() == i,
                class_size(0) == 8 && class_size(1) == 16 && class_size(2) == 32 && class_size(3)
                    == 64 && class_size(4) == 128 && class_size(5) == 256 && class_size(6) == 512
                    && class_size(7) == 1024 && class_size(8) == 2048 && class_size(9) == 4096,
                forall|k: int|
                    0 <= k < i ==> (#[trigger] classes@[k]).class_wf()
                        && classes@[k].spec_object_size() == class_size(k) && classes@[k]@
                        == Seq::<PageView>::empty(),
            decreases NUM_CLASSES - i,
        {
            let size = size_class(i);
            classes.push(SlabClass::uninit(size));
            i = i + 1;
        }
        GlobalSlabHeap { classes, alloc_count: 0, dealloc_count: 0, oom_count: 0, ready: false }
    }

    /// Marks the heap ready; before this every allocation is refused.
    pub fn init(&mut self)
        ensures
            final(self)@ == (HeapView { ready: true, ..old(self)@ }),
            final(self).heap_wf() == old(self).heap_wf(),
    {
        self.ready = true;
    }

    pub fn stats(&self) -> (r: HeapStats)
        ensures
            r == self@.stats,
    {
        HeapStats {
            alloc_count: self.alloc_count,
            dealloc_count: self.dealloc_count,
            oom_count: self.oom_count,
        }
    }

    /// The first step of an allocation of `size` bytes at `align`: a slot
    /// of an existing page of the request's class, or the need for a new
    /// page, or a refusal.
    pub fn begin_alloc(&mut self, size: usize, align: usize) -> (r: AllocStep)
        requires
            old(self).heap_wf(),
            old(self)@.stats.alloc_count < u64::MAX,
            old(self)@.stats.oom_count < u64::MAX,
        ensures
            final(self).heap_wf(),
            final(self)@.ready == old(self)@.ready,
            final(self)@.stats.dealloc_count == old(self)@.stats.dealloc_count,
            !old(self)@.ready || class_from(request_size(size, align), 0) is None ==> r
                == AllocStep::Refused && final(self)@ == old(self)@,
            old(self)@.ready && class_from(request_size(size, align), 0) is Some ==> ({
                let ci = class_from(request_size(size, align), 0)->Some_0 as int;
                let pages = old(self)@.classes[ci];
                &&& forall|k: int| 0 <= k < NUM_CLASSES && k != ci ==> #[trigger] final(self)@.classes[k] == old(self)@.classes[k]
                &&& match r {
                    AllocStep::Allocated(a) => class_alloc_outcome(
                        pages,
                        Some(a),
                        final(self)@.classes[ci],
                    ) && final(self)@.stats.alloc_count == old(self)@.stats.alloc_count + 1
                        && final(self)@.stats.oom_count == old(self)@.stats.oom_count,
                    AllocStep::NeedPage(c) => c == ci && class_alloc_outcome(
                        pages,
                        None,
                        final(self)@.classes[ci],
                    ) && pages.len() < MAX_SLAB_PAGES && final(self)@.stats == old(self)@.stats,
                    AllocStep::Exhausted => class_alloc_outcome(
                        pages,
                        None,
                        final(self)@.classes[ci],
                    ) && pages.len() >= MAX_SLAB_PAGES && final(self)@.stats.alloc_count == old(self)@.stats.alloc_count && final(self)@.stats.oom_count == old(self)@.stats.oom_count + 1,
                    AllocStep::Refused => false,
                }
            }),
    {
        if !self.ready {
            return AllocStep::Refused;
        }
        let request = if size >= align {
            size
        } else {
            align
        };
        let ci = match class_for(request) {
            None => {
                return AllocStep::Refused;
            },
            Some(c) => c,
        };
        let ghost before = self@;
        assert(self.classes@[ci as int].class_wf());
        let mut class = self.classes.remove(ci);
        let taken = class.allocate();
        let growable = class.can_grow();
        self.classes.insert(ci, class);
        proof {
            assert forall|k: int| 0 <= k < NUM_CLASSES implies (
            #[trigger] self.classes@[k]).class_wf() && self.classes@[k].spec_object_size()
                == class_size(k) by {
                if k != ci {
                    assert(self.classes@[k] == old(self).classes@[k]);
                }
            }
            assert forall|k: int| 0 <= k < NUM_CLASSES && k != ci implies #[trigger] self@.classes[k]
                == before.classes[k] by {
                assert(self.classes@[k] == old(self).classes@[k]);
            }
        }
        match taken {
            Some(a) => {
                self.alloc_count = self.alloc_count + 1;
                AllocStep::Allocated(a)
            },
            None => {
                if growable {
                    AllocStep::NeedPage(ci)
                } else {
                    self.oom_count = self.oom_count + 1;
                    AllocStep::Exhausted
                }
            },
        }
    }

    /// The second step of an allocation that needed a page: with the
    /// kernel's new page at `page`, its first slot is taken; without one
    /// (or a null page) the allocation fails and is counted as out of
    /// memory. The answer is the address, or zero for a failure.
    pub fn complete_alloc(&mut self, class: usize, page: Option<usize>) -> (r: usize)
        requires
            old(self).heap_wf(),
            class < NUM_CLASSES,
            old(self)@.classes[class as int].len() < MAX_SLAB_PAGES,
            page matches Some(base) ==> base + PAGE_SIZE <= usize::MAX,
            old(self)@.stats.alloc_count < u64::MAX,
            old(self)@.stats.oom_count < u64::MAX,
        ensures
            final(self).heap_wf(),
            final(self)@.ready == old(self)@.ready,
            final(self)@.stats.dealloc_count == old(self)@.stats.dealloc_count,
            forall|k: int| 0 <= k < NUM_CLASSES && k != class ==> #[trigger] final(self)@.classes[k] == old(self)@.classes[k],
            page is None || page == Some(0usize) ==> r == 0 && final(self)@.classes == old(self)@.classes && final(self)@.stats.oom_count == old(self)@.stats.oom_count + 1
                && final(self)@.stats.alloc_count == old(self)@.stats.alloc_count,
            page is Some && page->Some_0 != 0 ==> ({
                let base = page->Some_0;
                let pages = final(self)@.classes[class as int];
                &&& r == base
                &&& pages.drop_last() == old(self)@.classes[class as int]
                &&& pages.last().base == base
                &&& pages.last().object_size == class_size(class as int)
                &&& pages.last().free == Set::new(
                    |s: int| 1 <= s < (PAGE_SIZE as int) / class_size(class as int),
                )
                &&& final(self)@.stats.alloc_count == old(self)@.stats.alloc_count + 1
                &&& final(self)@.stats.oom_count == old(self)@.stats.oom_count
            }),
    {
        let base = match page {
            Some(b) => b,
            None => 0,
        };
        if base == 0 {
            self.oom_count = self.oom_count + 1;
            return 0;
        }
        let ghost before = self@;
        assert(self.classes@[class as int].class_wf());
        let mut slab = self.classes.remove(class);
        slab.add_page(base);
        let ghost grown = slab@;
        proof {
            lemma_class_sizes();
            assert(class_size(class as int) >= 8 && class_size(class as int) <= 4096);
            assert(grown.last().slot_count > 0) by (nonlinear_arith)
                requires
                    grown.last().slot_count == (PAGE_SIZE as nat) / slab.spec_object_size(),
                    8 <= slab.spec_object_size() <= 4096,
            ;
            lemma_fresh_page_first_slot(grown.last());
        }
        let taken = slab.allocate_from_last();
        self.classes.insert(class, slab);
        proof {
            assert forall|k: int| 0 <= k < NUM_CLASSES implies (
            #[trigger] self.classes@[k]).class_wf() && self.classes@[k].spec_object_size()
                == class_size(k) by {
                if k != class {
                    assert(self.classes@[k] == old(self).classes@[k]);
                }
            }
            assert forall|k: int| 0 <= k < NUM_CLASSES && k != class implies #[trigger] self@.classes[k]
                == before.classes[k] by {
                assert(self.classes@[k] == old(self).classes@[k]);
            }
            let s = choose|s: int| #[trigger] lowest_free(grown.last(), s) && taken == Some(
                slot_address(grown.last(), s) as usize,
            ) && slab@.last() == (PageView { free: grown.last().free.remove(s), ..grown.last() });
            assert(s == 0);
            assert(slab@.last().free =~= Set::new(
                |t: int| 1 <= t < (PAGE_SIZE as int) / class_size(class as int),
            ));
        }
        self.alloc_count = self.alloc_count + 1;
        base
    }

    /// Releases `address` of an allocation of `size` bytes at `align`: the
    /// first page of the request's class that takes it back frees its slot
    /// and the release is counted; anything else is ignored.
    pub fn dealloc(&mut self, address: usize, size: usize, align: usize)
        requires
            old(self).heap_wf(),
            old(self)@.stats.dealloc_count < u64::MAX,
        ensures
            final(self).heap_wf(),
            final(self)@.ready == old(self)@.ready,
            final(self)@.stats.alloc_count == old(self)@.stats.alloc_count,
            final(self)@.stats.oom_count == old(self)@.stats.oom_count,
            ({
                let c = class_from(request_size(size, align), 0);
                if address == 0 || c is None {
                    final(self)@ == old(self)@
                } else {
                    let ci = c->Some_0 as int;
                    let pages = old(self)@.classes[ci];
                    &&& forall|k: int| 0 <= k < NUM_CLASSES && k != ci ==> #[trigger] final(self)@.classes[k] == old(self)@.classes[k]
                    &&& match first_accepting(pages, address as int, 0) {
                        None => final(self)@.classes[ci] == pages && final(self)@.stats
                            == old(self)@.stats,
                        Some(p) => final(self)@.classes[ci] == pages.update(
                            p,
                            PageView {
                                free: pages[p].free.insert(
                                    (address - pages[p].base) / (pages[p].object_size as int),
                                ),
                                ..pages[p]
                            },
                        ) && final(self)@.stats.dealloc_count == old(self)@.stats.dealloc_count
                            + 1,
                    }
                }
            }),
    {
        if address == 0 {
            return;
        }
        let request = if size >= align {
            size
        } else {
            align
        };
        let ci = match class_for(request) {
            None => {
                return;
            },
            Some(c) => c,
        };
        let ghost before = self@;
        assert(self.classes@[ci as int].class_wf());
        let mut class = self.classes.remove(ci);
        let freed = class.deallocate(address);
        self.classes.insert(ci, class);
        proof {
            assert forall|k: int| 0 <= k < NUM_CLASSES implies (
            #[trigger] self.classes@[k]).class_wf() && self.classes@[k].spec_object_size()
                == class_size(k) by {
                if k != ci {
                    assert(self.classes@[k] == old(self).classes@[k]);
                }
            }
            assert forall|k: int| 0 <= k < NUM_CLASSES && k != ci implies #[trigger] self@.classes[k]
                == before.classes[k] by {
                assert(self.classes@[k] == old(self).classes@[k]);
            }
        }
        if freed {
            self.dealloc_count = self.dealloc_count + 1;
        }
    }
}

} // verus!
