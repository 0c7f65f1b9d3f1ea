use fioxa::ap_boot::{
    all_cores_running, ap_gdt_address, bsp_apic_id, cores_to_boot, ipi_pending, ipi_select,
    local_storage_slot, trampoline_slots,
};
use fioxa::channel::{channel_create, ChannelMessage, ReadError, Side, SyscallError};
use fioxa::event::{
    EdgeListener, EdgeTrigger, KEvent, KEventQueueInner, KernelEventQueueListenMode, ListenError,
};
use fioxa::interrupts::{
    apic_routes, disable_irq_mask, enable_irq_mask, ipi_command, irq_vector_allowed,
    pic_disable_sequence, HardwareInterruptOffset, HoldInterrupts, InterruptAction,
    InterruptFlagAction, KInterruptHandle,
};
use fioxa::madt::{mask_entry, set_redirect_entry, Madt};
use fioxa::memmap::{memory_key, mmap_buffer_pages, remove_page, remove_pages, MemoryDescriptor};
use fioxa::paging::{Flusher, PageDirectoryEntry, PageMapIndexer, PageTableManager};
use fioxa::slab::{block_size, slab_size_of, PageAction, SlabAllocator};
use fioxa::timing::{
    get_uptime, physical_region, sleep_deadline, still_sleeping, CapabilitiesIDRegister,
};

fn region(ty: u32, start: u64, pages: u64) -> MemoryDescriptor {
    MemoryDescriptor { ty, phys_start: start, virt_start: 0, page_count: pages, att: 0xF }
}

#[test]
fn memory_map_split_in_the_middle() {
    let key = 0x8000_0001;
    let mut m = vec![region(7, 0x10000, 4)];
    remove_page(&mut m, 0x12000, key);
    assert_eq!(
        m,
        vec![
            region(7, 0x10000, 2),
            MemoryDescriptor { ty: key, phys_start: 0x12000, virt_start: 0, page_count: 1, att: 0xF },
            MemoryDescriptor { ty: 7, phys_start: 0x13000, virt_start: 0, page_count: 1, att: 0xF },
        ]
    );
}

#[test]
fn memory_map_front_page_joins_previous_key_region() {
    let key = 0x8000_0001;
    let mut m = vec![region(key, 0x0F000, 1), region(7, 0x10000, 3)];
    remove_page(&mut m, 0x10000, key);
    assert_eq!(m, vec![region(key, 0x0F000, 2), region(7, 0x11000, 2)]);
}

#[test]
fn memory_map_front_page_without_neighbour() {
    let key = 0x8000_0001;
    let mut m = vec![region(7, 0x10000, 3)];
    remove_page(&mut m, 0x10000, key);
    assert_eq!(
        m,
        vec![
            MemoryDescriptor { ty: key, phys_start: 0x10000, virt_start: 0, page_count: 1, att: 0xF },
            region(7, 0x11000, 2),
        ]
    );
}

#[test]
fn memory_map_back_page_joins_next_key_region() {
    let key = 0x8000_0001;
    let mut m = vec![region(7, 0x10000, 3), region(key, 0x13000, 1)];
    remove_page(&mut m, 0x12000, key);
    assert_eq!(m, vec![region(7, 0x10000, 2), region(key, 0x12000, 2)]);
}

#[test]
fn memory_map_single_page_region_changes_type() {
    let key = 0x8000_0001;
    let mut m = vec![region(7, 0x10000, 1), region(3, 0x20000, 1)];
    remove_page(&mut m, 0x10000, key);
    assert_eq!(m, vec![region(key, 0x10000, 1), region(3, 0x20000, 1)]);
    // a page in no region, or already carved, changes nothing
    let before = m.clone();
    remove_page(&mut m, 0x50000, key);
    remove_page(&mut m, 0x10000, key);
    assert_eq!(m, before);
}

#[test]
fn memory_map_range_of_pages() {
    let key = 0x8000_0001;
    let mut m = vec![region(7, 0x10000, 8)];
    remove_pages(&mut m, 0x11000, 3, key);
    assert_eq!(
        m,
        vec![
            region(7, 0x10000, 1),
            MemoryDescriptor { ty: key, phys_start: 0x11000, virt_start: 0, page_count: 3, att: 0xF },
            MemoryDescriptor { ty: 7, phys_start: 0x14000, virt_start: 0, page_count: 4, att: 0xF },
        ]
    );
}

#[test]
fn memory_key_and_buffer_pages() {
    assert_eq!(memory_key(&[7, 3, 1]), 0x8000_0001);
    assert_eq!(memory_key(&[7, 0x9000_0000, 1]), 0x9000_0001);
    assert_eq!(mmap_buffer_pages(100, 48), 2 + 1);
    assert_eq!(mmap_buffer_pages(0, 48), 1);
}

#[test]
fn slab_allocation_cycle() {
    assert_eq!(slab_size_of(3), 64);
    assert_eq!(block_size(1), Some(0));
    assert_eq!(block_size(100), Some(4));
    assert_eq!(block_size(4096), None);
    let mut a = SlabAllocator::new(0x10_0000);
    let first = a.allocate(40, 8);
    assert_eq!(first.ptr, 0x10_0000 + 4096 - 64);
    assert_eq!(first.action, PageAction::MapPages { base: 0x10_0000, pages: 1 });
    let second = a.allocate(64, 64);
    assert_eq!(second.ptr, 0x10_0000 + 4096 - 128);
    assert_eq!(second.action, PageAction::NoChange);
    assert_eq!(a.deallocate(second.ptr, 64, 64), PageAction::NoChange);
    let again = a.allocate(50, 1);
    assert_eq!(again.ptr, second.ptr);
    let big = a.allocate(10_000, 8);
    assert_eq!(big.action, PageAction::MapPages { base: 0x10_1000, pages: 3 });
    assert_eq!(a.deallocate(big.ptr, 10_000, 8), PageAction::UnmapPages { base: big.ptr, pages: 3 });
}

#[test]
fn channel_messages_in_order() {
    let mut c = channel_create::<u32>();
    let m1 = ChannelMessage { data: vec![1, 2], handles: None };
    let m2 = ChannelMessage { data: vec![3], handles: Some(vec![9]) };
    assert_eq!(c.send(Side::Left, m1), Ok(()));
    assert_eq!(c.send(Side::Left, m2), Ok(()));
    assert_eq!(c.right.read(10, 0).unwrap().data, vec![1, 2]);
    assert!(matches!(
        c.right.read(10, 0),
        Err(ReadError::Size { min_bytes: 1, min_handles: 1 })
    ));
    let m = c.right.read(10, 1).unwrap();
    assert_eq!(m.handles, Some(vec![9]));
    assert!(matches!(c.right.read(10, 1), Err(ReadError::Empty)));
}

#[test]
fn channel_close_drains_then_reports_closed() {
    let mut c = channel_create::<u32>();
    assert_eq!(c.send(Side::Right, ChannelMessage { data: vec![5], handles: None }), Ok(()));
    c.close(Side::Right);
    assert_eq!(
        c.send(Side::Left, ChannelMessage { data: vec![6], handles: None }),
        Err(SyscallError::ChannelClosed)
    );
    assert_eq!(c.left.read(1, 0).unwrap().data, vec![5]);
    assert!(matches!(c.left.read(1, 0), Err(ReadError::Closed)));
}

#[test]
fn interrupt_handle_wakes_waiter() {
    let mut h: KInterruptHandle<u32, u32> = KInterruptHandle::new();
    assert!(!h.wait(7));
    match h.trigger() {
        InterruptAction::Wake(t) => assert_eq!(t, 7),
        _ => panic!("the waiting thread must be woken"),
    }
    // pending: the next wait returns at once
    assert!(h.wait(8));
}

#[test]
fn interrupt_handle_port_waits_for_ack() {
    let mut h: KInterruptHandle<u32, u32> = KInterruptHandle::new();
    assert!(matches!(h.trigger(), InterruptAction::Nothing));
    assert!(matches!(h.set_port(1, 42), InterruptAction::NotifyPort { key: 42 }));
    assert!(matches!(h.trigger(), InterruptAction::Nothing));
    assert!(matches!(h.ack(), InterruptAction::NotifyPort { key: 42 }));
    assert_eq!(h.waiter_port(), Some(&1));
}

#[test]
fn hold_interrupts_nesting() {
    let mut h = HoldInterrupts { depth: 0, initial: false };
    assert_eq!(h.inc_hold_interrupts(true), InterruptFlagAction::Disable);
    assert_eq!(h.inc_hold_interrupts(false), InterruptFlagAction::Keep);
    assert_eq!(h.dec_hold_interrupts(), InterruptFlagAction::Keep);
    assert_eq!(h.dec_hold_interrupts(), InterruptFlagAction::Enable);
    assert_eq!(h.depth, 0);
    assert_eq!(h.inc_hold_interrupts(false), InterruptFlagAction::Keep);
    assert_eq!(h.dec_hold_interrupts(), InterruptFlagAction::Keep);
}

#[test]
fn pic_and_apic_programming() {
    assert!(irq_vector_allowed(49));
    assert!(!irq_vector_allowed(48));
    assert_eq!(u8::from(HardwareInterruptOffset::Keyboard), 1);
    assert_eq!(usize::from(HardwareInterruptOffset::ATASecondary), 15);
    assert_eq!(enable_irq_mask([0xFF, 0xFF], 1), [0xFD, 0xFF]);
    assert_eq!(enable_irq_mask([0xFF, 0xFF], 12), [0xFF, 0xEF]);
    assert_eq!(disable_irq_mask([0x00, 0x00], 3), [0x08, 0x00]);
    let seq = pic_disable_sequence();
    assert_eq!(seq.len(), 16);
    assert_eq!(seq[0], (0x20, 0x11));
    assert_eq!(seq[15], (0xA1, 0xFF));
    let routes = apic_routes();
    assert_eq!(routes[0].vector, 49);
    assert_eq!(routes[2].irq, 12);
    assert_eq!(ipi_command(0x20), 0x4020);
    let w = set_redirect_entry(0x0001_0000, 0x1200_0000, 3, 1, 50, true);
    assert_eq!((w.low_register, w.high_register), (0x12, 0x13));
    assert_eq!(w.high, 0x0300_0000);
    assert_eq!(w.low, 50);
    assert_eq!(mask_entry(0, false), 0x1_0000);
    assert_eq!(mask_entry(0x1_0005, true), 5);
}

fn madt_table() -> Vec<u8> {
    let mut t = vec![0u8; 44];
    t[36..40].copy_from_slice(&0xFEE0_0000u32.to_le_bytes());
    // processor 0, apic id 0, enabled
    t.extend_from_slice(&[0, 8, 0, 0, 1, 0, 0, 0]);
    // processor 1, apic id 1, disabled
    t.extend_from_slice(&[0, 8, 1, 1, 0, 0, 0, 0]);
    // processor 2, apic id 2, enabled
    t.extend_from_slice(&[0, 8, 2, 2, 1, 0, 0, 0]);
    // I/O APIC id 4 at 0xFEC00000, base 0
    let mut io = vec![1u8, 12, 4, 0];
    io.extend_from_slice(&0xFEC0_0000u32.to_le_bytes());
    io.extend_from_slice(&0u32.to_le_bytes());
    t.extend_from_slice(&io);
    // override: bus 0, irq 0 -> 2, flags 0
    let mut ov = vec![2u8, 10, 0, 0];
    ov.extend_from_slice(&2u32.to_le_bytes());
    ov.extend_from_slice(&0u16.to_le_bytes());
    t.extend_from_slice(&ov);
    let len = t.len() as u32;
    t[4..8].copy_from_slice(&len.to_le_bytes());
    t
}

#[test]
fn madt_entries() {
    let t = madt_table();
    let m = Madt::from_bytes(&t);
    assert_eq!(m.local_apic_address, 0xFEE0_0000);
    assert_eq!(m.get_lapid_ids(&t), vec![0, 2]);
    let (lapic, ids, ioapics, overrides) = m.find_ioapic(&t);
    assert_eq!(lapic, 0xFEE0_0000);
    assert_eq!(ids, vec![0, 2]);
    assert_eq!(ioapics.len(), 1);
    assert_eq!(ioapics[0].apic_id, 4);
    assert_eq!(ioapics[0].apic_addr, 0xFEC0_0000);
    assert_eq!(overrides.len(), 1);
    assert_eq!(overrides[0].interrupt_num, 2);
}

#[test]
fn paging_indices_and_entries() {
    let idx = PageMapIndexer::new(0x0000_7FFF_FFFF_F000);
    assert_eq!((idx.pdp_i, idx.pd_i, idx.pt_i, idx.p_i), (255, 511, 511, 511));
    let idx = PageMapIndexer::new(0x40_2000_3000);
    assert_eq!((idx.pdp_i, idx.pd_i, idx.pt_i, idx.p_i), (0, 256, 256, 3));
    let mut e = PageDirectoryEntry::new();
    assert!(!e.present());
    e.set_present(true);
    e.set_read_write(true);
    e.set_address(0x1234_5000);
    assert!(e.present());
    assert!(e.read_write());
    assert_eq!(e.get_address(), 0x1234_5000);
    assert_eq!(e.into_bits(), 0x1234_5003);
    e.set_present(false);
    assert_eq!(PageDirectoryEntry::from_bits(e.into_bits()).get_address(), 0x1234_5000);
    let m = PageTableManager::new(0x9000);
    assert_eq!(m.get_lvl4_addr(), 0x9000);
    Flusher(0x9000).ignore();
}

#[test]
fn hpet_timing() {
    // a period of 10^7 fs gives 100000 ticks per millisecond
    assert_eq!(get_uptime(250_000, 10_000_000), 2);
    assert_eq!(sleep_deadline(10, 5), 15);
    assert!(still_sleeping(15, 14));
    assert!(!still_sleeping(15, 15));
    let caps = CapabilitiesIDRegister::from_bits(0x0098_9680_8086_A201);
    assert_eq!(caps.rev_id, 1);
    assert_eq!(caps.counter_tick_period, 0x0098_9680);
    assert_eq!(caps.vendor_id, 0x8086);
    let r = physical_region(0x1_2345, 0x2000);
    assert_eq!(r.base, 0x1_2000);
    assert_eq!(r.offset, 0x345);
    assert_eq!(r.mapped_size, 0x3000);
}

#[test]
fn other_cores_start() {
    assert_eq!(bsp_apic_id(0x0300_0800), 3);
    assert_eq!(cores_to_boot(&vec![0, 1, 2, 3], 1), vec![0, 2, 3]);
    assert_eq!(ipi_select(5), 0x0500_0000);
    assert!(ipi_pending(0x1000));
    assert!(!ipi_pending(0x0FFF));
    let s = trampoline_slots(0x100);
    assert_eq!(s.bsp_done, 0x8100);
    assert_eq!(s.local_storage, 0x8118);
    assert_eq!(local_storage_slot(&s, 2), 0x8128);
    assert_eq!(ap_gdt_address(0x1000_0000, 2), Some(0x1200_1000));
    assert_eq!(ap_gdt_address(u64::MAX - 10, 0), None);
    assert!(all_cores_running(4, 4));
}

#[test]
fn events_tell_listeners_of_edges() {
    let mut ev = KEvent::new();
    ev.add_listener(EdgeListener::new(1, 10, EdgeTrigger::rising_edge(), false));
    ev.add_listener(EdgeListener::new(2, 20, EdgeTrigger::both_edges(), true));
    let n = ev.set_level(true);
    assert_eq!(n.len(), 2);
    assert_eq!((n[0].waker, n[0].callback, n[0].rising), (1, 10, true));
    assert_eq!((n[1].waker, n[1].callback), (2, 20));
    assert!(ev.level());
    // the one-shot listener is gone; falling edges reach nobody
    assert_eq!(ev.set_level(false).len(), 0);
    assert_eq!(ev.set_level(false).len(), 0);
    assert_eq!(ev.set_level(true).len(), 1);
    ev.remove_listeners_of(1);
    assert_eq!(ev.set_level(false).len(), 0);
    assert!(!ev.is_queue());
    assert!(KEvent::new_queue().is_queue());
}

#[test]
fn event_queue_collects_edges() {
    let mut q = KEventQueueInner::new();
    assert_eq!(
        q.listen(false, true, 5, KernelEventQueueListenMode::OnLevelLow, 1),
        Err(ListenError::LevelLowOnQueue)
    );
    let a = q.listen(false, false, 100, KernelEventQueueListenMode::OnEdge, 1).unwrap();
    assert_eq!(a.id, 1);
    assert_eq!(a.trigger_mode.bits, 3);
    assert!(!a.raise_level);
    let b = q.listen(true, false, 200, KernelEventQueueListenMode::OnLevelHigh, 2).unwrap();
    assert_eq!(b.id, 2);
    assert!(b.raise_level);
    // the level listener is handed out and stays queued while triggered
    assert_eq!(q.try_pop_event(), (Some(200), false));
    assert_eq!(q.try_pop_event(), (Some(200), false));
    assert!(!q.trigger_edge(2, false));
    assert!(!q.trigger_edge(1, true));
    assert_eq!(q.try_pop_event(), (Some(100), false));
    assert_eq!(q.try_pop_event(), (None, true));
    assert_eq!(q.try_pop_event(), (None, false));
    assert!(q.trigger_edge(1, false));
    assert!(q.is_queued(1));
    assert_eq!(q.unlisten(2), Some(2));
    assert_eq!(q.unlisten(2), None);
}
