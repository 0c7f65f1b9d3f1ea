use fioxa::ahci::{command_poll, port_busy, read_failed, ready_poll, CommandPoll, ReadyPoll, PORT_SPIN_LIMIT};
use fioxa::channel::{channel_create, ChannelMessage, Side, SyscallError};
use fioxa::event::{listen_on_event, KEvent, KEventQueueInner, KernelEventQueueListenMode, ListenError};
use fioxa::fat_file::{plan_file_write, WritePlan};
use fioxa::interrupts::{InterruptAction, KInterruptHandle};
use fioxa::kfat::{kernel_read_request, DirEntryType, KernelFatFile, KernelFileRead, KernelReadStep};
use fioxa::slab::{PageAction, SlabAllocator};
use fioxa::builder::to_build;
use fioxa::terminal::{
    cat_reads, cd_result, check_stat, join_path, parse_command, selected_disk, state_change,
    StatKind, StateChange,
};

#[test]
fn write_plan_grows_files() {
    assert_eq!(
        plan_file_write(100, 0, 50, 100, 1),
        WritePlan { grow: true, new_size: 150, alloc_first: true, max_cluster: 1 }
    );
    assert_eq!(
        plan_file_write(100, 5, 90, 1000, 1),
        WritePlan { grow: true, new_size: 1090, alloc_first: false, max_cluster: 3 }
    );
    assert_eq!(
        plan_file_write(2000, 5, 10, 20, 4),
        WritePlan { grow: false, new_size: 2000, alloc_first: false, max_cluster: 0 }
    );
}

#[test]
fn kernel_read_request_cases() {
    let file = KernelFatFile { cluster: 3, entry_type: DirEntryType::File(1000) };
    let folder = KernelFatFile { cluster: 3, entry_type: DirEntryType::Folder };
    assert_eq!(kernel_read_request(None, 0, 10), None);
    assert_eq!(kernel_read_request(Some(folder), 0, 10), None);
    assert_eq!(kernel_read_request(Some(file), 1000, 10), Some(0));
    assert_eq!(kernel_read_request(Some(file), 990, 100), Some(10));
    assert_eq!(kernel_read_request(Some(file), 0, 100), Some(100));
}

#[test]
fn listening_registers_on_the_event() {
    let mut inner = KEventQueueInner::new();
    let mut queue_event = KEvent::new_queue();
    let mut ev = KEvent::new();
    ev.set_level(true);
    let (r, notices) = listen_on_event(&mut inner, &mut queue_event, &mut ev, 77, 5, KernelEventQueueListenMode::OnLevelHigh, 9);
    assert_eq!(r, Ok(1));
    assert!(notices.is_empty());
    assert!(queue_event.level());
    assert!(inner.is_queued(1));
    let told = ev.set_level(false);
    assert_eq!(told.len(), 1);
    assert_eq!((told[0].waker, told[0].callback, told[0].rising), (77, 1, false));
    let mut q2 = KEvent::new_queue();
    let (r, _) = listen_on_event(&mut inner, &mut queue_event, &mut q2, 77, 5, KernelEventQueueListenMode::OnLevelLow, 9);
    assert_eq!(r, Err(ListenError::LevelLowOnQueue));
}

#[test]
fn ahci_read_polling() {
    assert!(port_busy(0x80));
    assert!(port_busy(0x08));
    assert!(!port_busy(0x41));
    assert!(read_failed(1 << 30));
    assert!(!read_failed(1 << 29));
    assert_eq!(ready_poll(PORT_SPIN_LIMIT, 0x80), ReadyPoll::Spin(PORT_SPIN_LIMIT - 1));
    assert_eq!(ready_poll(5, 0), ReadyPoll::Ready);
    assert_eq!(ready_poll(0, 0), ReadyPoll::Hung);
    assert_eq!(command_poll(0b100, 0, 2), CommandPoll::Pending);
    assert_eq!(command_poll(0b100, 1 << 30, 2), CommandPoll::Failed);
    assert_eq!(command_poll(0b011, 1 << 30, 2), CommandPoll::Finished);
}

#[test]
fn terminal_file_decisions() {
    assert_eq!(selected_disk(Some(2)), Ok(2));
    assert_eq!(selected_disk(None), Err("no disk selected"));
    assert_eq!(join_path("/", "a"), "/a");
    assert_eq!(join_path("/docs", "a.txt"), "/docs/a.txt");
    assert_eq!(join_path("/docs", "/etc"), "/etc");
    assert_eq!(check_stat(StatKind::Missing, true), Err("Invalid path"));
    assert_eq!(check_stat(StatKind::File, true), Err("This is a file"));
    assert_eq!(check_stat(StatKind::Folder, false), Err("This is a folder"));
    assert_eq!(check_stat(StatKind::File, false), Ok(()));
    assert_eq!(cd_result("/", "bin", StatKind::Folder), Ok("/bin".to_string()));
    assert_eq!(cd_result("/", "bin", StatKind::File), Err("This is a file"));
    assert_eq!(cat_reads(0), vec![]);
    assert_eq!(cat_reads(0x10000), vec![(0, 0x10000)]);
    assert_eq!(cat_reads(0x10001), vec![(0, 0x10000), (0x10000, 1)]);
}

#[test]
fn interrupt_wakes_the_waiting_thread() {
    let mut h: KInterruptHandle<u32, u32> = KInterruptHandle::new();
    assert!(!h.wait(42));
    assert!(matches!(h.trigger(), InterruptAction::Wake(42)));
}

#[test]
fn channel_send_errors_keep_peer() {
    let mut c = channel_create::<u32>();
    c.close(Side::Right);
    let m = ChannelMessage { data: vec![1], handles: None };
    assert_eq!(c.send(Side::Left, m), Err(SyscallError::ChannelClosed));
}

#[test]
fn slab_blocks_are_aligned_and_reused() {
    let mut a = SlabAllocator::new(0x20_0000);
    let x = a.allocate(24, 8);
    assert_eq!(x.ptr % 32, 0);
    assert_eq!(x.action, PageAction::MapPages { base: 0x20_0000, pages: 1 });
    let y = a.allocate(24, 8);
    assert_eq!(y.ptr % 32, 0);
    assert_ne!(x.ptr, y.ptr);
    assert_eq!(a.deallocate(x.ptr, 24, 8), PageAction::NoChange);
    assert_eq!(a.allocate(30, 2).ptr, x.ptr);
}

#[test]
fn kernel_aligned_read_walks_the_chain() {
    let mut r = KernelFileRead::new(5, 200, 2, 1024, 600);
    assert_eq!(r.step(), KernelReadStep::NeedNextCluster(5));
    assert_eq!(r.needs_next_cluster(), Some(5));
    r.next_cluster(9, 300);
    assert_eq!(r.step(), KernelReadStep::Read { sector: 300, count: 2, from: 0, to: 600 });
    assert_eq!(r.needs_next_cluster(), Some(9));
    r.next_cluster(11, 400);
    assert_eq!(r.step(), KernelReadStep::Done);
}

#[test]
fn build_table_in_order() {
    assert_eq!(
        to_build(),
        vec![
            ("bootloader", "EFI/BOOT/BOOTx64.efi"),
            ("test_elf", "elf.elf"),
            ("amd_pcnet", "amd_pcnet.driver"),
            ("calc", "calc.elf"),
            ("net", "net.elf"),
            ("ps2", "ps2.driver"),
            ("terminal", "terminal.elf"),
            ("kernel", "fioxa.elf"),
        ]
    );
}

#[test]
fn only_disk_and_cd_change_state() {
    let disk = parse_command("disk 1");
    assert!(matches!(state_change(&disk, "/", None, 2, StatKind::Missing), Ok(StateChange::SetDisk(1))));
    assert!(matches!(state_change(&disk, "/", None, 1, StatKind::Missing), Ok(StateChange::Keep)));
    let cd = parse_command("cd docs");
    match state_change(&cd, "/", Some(0), 1, StatKind::Folder) {
        Ok(StateChange::SetCwd(p)) => assert_eq!(p, "/docs"),
        _ => panic!("cd expected"),
    }
    assert!(matches!(state_change(&cd, "/", None, 1, StatKind::Folder), Err("no disk selected")));
    assert!(matches!(state_change(&cd, "/", Some(0), 1, StatKind::File), Err("This is a file")));
    let ls = parse_command("ls");
    assert!(matches!(state_change(&ls, "/", Some(0), 1, StatKind::Folder), Ok(StateChange::Keep)));
}
