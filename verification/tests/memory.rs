use slope::memory::relativistic::{RelativisticError, RelativisticPtr, TimelineResolver, MAXIMUM_DIRECT_EPOCH_DELTA};
use slope::memory::{class_for, size_class, HeapStats, SlabToken, NUM_CLASSES};

#[test]
fn class_for_rounds_up_to_nearest_slab() {
    assert_eq!(class_for(1), Some(0)); // → 8B class
    assert_eq!(class_for(8), Some(0)); // → 8B class
    assert_eq!(class_for(9), Some(1)); // → 16B class
    assert_eq!(class_for(4096), Some(9)); // → 4096B class
    assert_eq!(class_for(4097), None); // no class for >4096B
}

#[test]
fn slab_token_roundtrips() {
    let tok = SlabToken::pack(2, 5, 300);
    assert_eq!(tok.class(), 2);
    assert_eq!(tok.page(), 5);
    assert_eq!(tok.slot(), 300);
}

#[test]
fn size_classes_double_from_eight_bytes() {
    let sizes: Vec<usize> = (0..NUM_CLASSES).map(size_class).collect();
    assert_eq!(sizes, vec![8, 16, 32, 64, 128, 256, 512, 1024, 2048, 4096]);
    assert_eq!(class_for(0), Some(0));
    assert_eq!(class_for(1000), Some(7));
    let tok = SlabToken::pack(255, 255, 65535);
    assert_eq!((tok.class(), tok.page(), tok.slot()), (255, 255, 65535));
    let stats = HeapStats { alloc_count: 1, dealloc_count: 2, oom_count: 3 };
    assert_eq!(stats.oom_count, 3);
}

struct MoveTo(usize);

impl TimelineResolver<u32> for MoveTo {
    fn resolves(&self, _original: usize, _origin_epoch: u64, _current_epoch: u64, answer: Option<usize>) -> bool {
        answer == Some(self.0)
    }

    fn resolve(&self, _original: usize, _origin_epoch: u64, _current_epoch: u64) -> Option<usize> {
        Some(self.0)
    }
}

struct Revoke;

impl TimelineResolver<u32> for Revoke {
    fn resolves(&self, _original: usize, _origin_epoch: u64, _current_epoch: u64, answer: Option<usize>) -> bool {
        answer.is_none()
    }

    fn resolve(&self, _original: usize, _origin_epoch: u64, _current_epoch: u64) -> Option<usize> {
        None
    }
}

#[test]
fn resolves_only_after_the_direct_epoch_window() {
    // two mapped objects at distinct addresses
    let first: usize = 0x7000;
    let moved: usize = 0x9000;
    let token = RelativisticPtr::<u32>::from_raw(first, 7, 3).unwrap();
    assert_eq!(
        token.resolve(10, &MoveTo(moved)).unwrap(),
        token.original_address()
    );
    assert_eq!(
        token
            .resolve(7 + MAXIMUM_DIRECT_EPOCH_DELTA + 1, &MoveTo(moved))
            .unwrap(),
        moved
    );
    assert_eq!(
        token.resolve(6, &MoveTo(moved)),
        Err(RelativisticError::FutureEpoch)
    );
}

#[test]
fn stale_addresses_can_be_revoked() {
    assert!(RelativisticPtr::<u32>::from_raw(0, 1, 1).is_none());
    let token = RelativisticPtr::<u32>::from_raw(0x1000, 5, 9).unwrap();
    assert_eq!(token.origin_epoch(), 5);
    assert_eq!(token.thread_velocity(), 9);
    assert_eq!(
        token.resolve(5 + MAXIMUM_DIRECT_EPOCH_DELTA, &Revoke),
        Ok(0x1000)
    );
    assert_eq!(
        token.resolve(6 + MAXIMUM_DIRECT_EPOCH_DELTA, &Revoke),
        Err(RelativisticError::Revoked)
    );
    assert_eq!(
        token.resolve_with(6 + MAXIMUM_DIRECT_EPOCH_DELTA, Some(0x2000)),
        Ok(0x2000)
    );
}

use slope::memory::slab::{SlabClass, SlabPage};
use slope::memory::{AllocStep, GlobalSlabHeap, MAX_SLAB_PAGES, PAGE_SIZE};

#[test]
fn slab_page_alloc_dealloc_roundtrip() {
    let mut page = SlabPage::new(0x10_0000, 64);
    assert_eq!(page.slot_count(), 64);
    let p1 = page.alloc_slot().unwrap();
    let p2 = page.alloc_slot().unwrap();
    assert_ne!(p1, p2);
    assert!(page.dealloc_slot(p1));
    assert!(!page.dealloc_slot(p1)); // double-free returns false
    let p3 = page.alloc_slot().unwrap();
    assert_eq!(p1, p3); // reused
}

#[test]
fn slab_page_hands_out_every_slot_once() {
    let base = 0x20_0000;
    let mut page = SlabPage::new(base, 24);
    let slots = PAGE_SIZE / 24;
    for index in 0..slots {
        assert_eq!(page.alloc_slot(), Some(base + index * 24));
    }
    assert!(!page.has_free());
    assert_eq!(page.alloc_slot(), None);
    assert!(!page.dealloc_slot(base + 1));
    assert!(!page.dealloc_slot(base - 24));
    assert!(!page.dealloc_slot(base + slots * 24));
    assert!(page.accepts(base + 24 * 5));
    assert!(page.dealloc_slot(base + 24 * 5));
    assert!(!page.accepts(base + 24 * 5));
    assert!(page.has_free());
    assert_eq!(page.alloc_slot(), Some(base + 24 * 5));
    let mut big = SlabPage::new(base, 4096);
    assert_eq!(big.slot_count(), 1);
    assert_eq!(big.alloc_slot(), Some(base));
    assert_eq!(big.alloc_slot(), None);
}

#[test]
fn classes_fill_pages_in_order() {
    let mut class = SlabClass::uninit(2048);
    assert_eq!(class.allocate(), None);
    assert!(class.can_grow());
    class.add_page(0x1000);
    class.add_page(0x3000);
    assert_eq!(class.allocate(), Some(0x1000));
    assert_eq!(class.allocate(), Some(0x1800));
    assert_eq!(class.allocate(), Some(0x3000));
    assert!(class.deallocate(0x1800));
    assert!(!class.deallocate(0x1800));
    assert_eq!(class.allocate(), Some(0x1800));
    assert_eq!(class.object_size(), 2048);
    for index in 2..MAX_SLAB_PAGES {
        class.add_page(0x10_0000 + index * PAGE_SIZE);
    }
    assert!(!class.can_grow());
}

#[test]
fn heap_refuses_until_ready_and_grows_by_kernel_pages() {
    let mut heap = GlobalSlabHeap::new();
    assert_eq!(heap.begin_alloc(16, 8), AllocStep::Refused);
    heap.init();
    assert_eq!(heap.begin_alloc(5000, 8), AllocStep::Refused);
    assert_eq!(heap.begin_alloc(16, 8), AllocStep::NeedPage(1));
    assert_eq!(heap.complete_alloc(1, None), 0);
    assert_eq!(heap.stats().oom_count, 1);
    assert_eq!(heap.complete_alloc(1, Some(0x4000)), 0x4000);
    assert_eq!(heap.begin_alloc(10, 16), AllocStep::Allocated(0x4010));
    assert_eq!(heap.stats().alloc_count, 2);
    heap.dealloc(0x4010, 16, 1);
    heap.dealloc(0x4010, 16, 1);
    heap.dealloc(0, 16, 1);
    assert_eq!(heap.stats().dealloc_count, 1);
    assert_eq!(heap.begin_alloc(16, 1), AllocStep::Allocated(0x4010));
}
