use fioxa::ahci::{check_port_type, find_slot, plan_prdt, port_is_implemented, DiskError, DiskWindow, PortType};
use fioxa::boot::{
    bootfs_read_range, early_bootfs_get, get_gop_info, initialize_gop, read_file, OpenedFile,
    PixelFormat,
};
use fioxa::builder::{
    build_outcome, builder_plan, choose_ovmf, extra_qemu_args, qemu_args, to_build, BuildErrors,
    BuildMessage, OvmfSource, QEMUErrors,
};
use fioxa::calc::{evaluate, solve, InputLines, SolveError};
use fioxa::elf_load::{
    plan_boot_kernel, plan_load_elf, read_elf, segment_data, ElfPlan, ElfSegmentFlags,
    LoadElfError, ProgramHeader,
};
use fioxa::font::{parse_psf1, FontError};
use fioxa::pcnet::{
    csr0_events, descriptor_ring, find_free_send_descriptor, init_block, init_block_registers,
    init_done, interrupts_held, is_supported_device, mac_from_ports, receive_action,
    recycled_descriptor, ring_layout, send_descriptor_flags, software_style_32, BufferDescriptor,
    ReceiveAction, BUFFER_SIZE_MASK,
};
use fioxa::ps2::{
    can_write, keyboard_interrupt_configuration, output_full, port_test_result, self_test_passed,
    setup_configuration, CommandAnswer, KeyboardCommand,
};
use fioxa::terminal::{
    disk_choice, ls_listing, parse_command, parse_u64, Command, DiskChoice, IntErrorKind,
    LineEditor,
};

#[test]
fn calculator_left_to_right() {
    assert_eq!(solve("1 + 2 * 3"), Ok(9));
    assert_eq!(solve("10 / 3"), Ok(3));
    assert_eq!(solve("7 - 10"), Ok(-3));
    assert_eq!(solve(""), Ok(0));
    assert_eq!(solve("5 / 0"), Err("div by zero".to_string()));
    assert_eq!(solve("2 % 3"), Err("unknown op '%'".to_string()));
    assert_eq!(solve("99999999999999999999"), Err("overflow".to_string()));
}

#[test]
fn calculator_names_every_failure() {
    assert_eq!(evaluate("6 * 7"), Ok(42));
    assert_eq!(evaluate("1 / 0"), Err(SolveError::DivByZero));
    assert_eq!(evaluate("1 ^ 2"), Err(SolveError::UnknownOp('^')));
    assert_eq!(evaluate("9223372036854775807 + 1"), Err(SolveError::UncheckedOverflow));
    assert_eq!(evaluate("9223372036854775808"), Err(SolveError::UncheckedOverflow));
    assert_eq!(evaluate("9223372036854775807 + 1 + 1"), Err(SolveError::Overflow));
}

#[test]
fn calculator_line_reader() {
    let mut lines = InputLines::new();
    lines.push_input("1+x\x08");
    assert_eq!(lines.next_line(), (None, "1+x\x08".to_string()));
    lines.push_input("2\nexit\n");
    assert_eq!(lines.next_line(), (Some("1+2".to_string()), "2".to_string()));
    assert_eq!(lines.next_line(), (Some("exit".to_string()), "exit".to_string()));
    lines.push_input("\x08");
    assert_eq!(lines.next_line(), (None, String::new()));
}

#[test]
fn number_parsing_like_std() {
    assert_eq!(parse_u64("42"), Ok(42));
    assert_eq!(parse_u64("+7"), Ok(7));
    assert_eq!(parse_u64(""), Err(IntErrorKind::Empty));
    assert_eq!(parse_u64("+"), Err(IntErrorKind::InvalidDigit));
    assert_eq!(parse_u64("-1"), Err(IntErrorKind::InvalidDigit));
    assert_eq!(parse_u64("12a"), Err(IntErrorKind::InvalidDigit));
    assert_eq!(parse_u64("18446744073709551615"), Ok(u64::MAX));
    assert_eq!(parse_u64("18446744073709551616"), Err(IntErrorKind::PosOverflow));
    assert_eq!(parse_u64("99999999999999999999x"), Err(IntErrorKind::PosOverflow));
}

#[test]
fn terminal_commands() {
    assert!(matches!(parse_command(""), Command::Nothing));
    assert!(matches!(parse_command("pwd"), Command::Pwd));
    match parse_command("echo hello  world") {
        Command::Echo(t) => assert_eq!(t, "hello  world"),
        _ => panic!("echo expected"),
    }
    assert!(matches!(parse_command("disk  3 "), Command::Disk(Ok(3))));
    assert!(matches!(parse_command("disk"), Command::Disk(Err(IntErrorKind::Empty))));
    match parse_command("cat a.txt  b.txt") {
        Command::Cat(files) => assert_eq!(files, vec!["a.txt".to_string(), "b.txt".to_string()]),
        _ => panic!("cat expected"),
    }
    match parse_command("write f.txt some data") {
        Command::Write(Some((f, d))) => {
            assert_eq!(f, "f.txt");
            assert_eq!(d, "some data");
        }
        _ => panic!("write expected"),
    }
    assert!(matches!(parse_command("append f.txt"), Command::Append(None)));
    match parse_command("exec prog a b") {
        Command::Exec(p, a) => {
            assert_eq!(p, "prog");
            assert_eq!(a, "a b");
        }
        _ => panic!("exec expected"),
    }
    match parse_command("exec prog") {
        Command::Exec(p, a) => {
            assert_eq!(p, "prog");
            assert_eq!(a, "");
        }
        _ => panic!("exec expected"),
    }
    assert!(matches!(parse_command("sleep 250"), Command::Sleep(Ok(250))));
    assert!(matches!(parse_command("sleep x"), Command::Sleep(Err(IntErrorKind::InvalidDigit))));
    assert!(matches!(parse_command("exit"), Command::Exit));
    assert!(matches!(parse_command("test"), Command::Test));
    match parse_command(" pwd") {
        Command::NotFound(c) => assert_eq!(c, " pwd"),
        _ => panic!("an untrimmed word without a space is not a command"),
    }
    match parse_command("ls /home") {
        Command::Ls(p) => assert_eq!(p, "/home"),
        _ => panic!("ls expected"),
    }
}

#[test]
fn disk_selection() {
    assert_eq!(disk_choice(Ok(1), 2), DiskChoice::Select(1));
    assert_eq!(disk_choice(Ok(2), 2), DiskChoice::OutOfRange(2));
    assert_eq!(disk_choice(Err(IntErrorKind::Empty), 2), DiskChoice::List);
}

#[test]
fn line_editor_history() {
    let mut e = LineEditor::new();
    for c in "ls".chars() {
        let echo = e.key(c);
        assert_eq!(echo.text, c.to_string());
    }
    let done = e.key('\n');
    assert_eq!(done.submitted, Some("ls".to_string()));
    for c in "pwd".chars() {
        e.key(c);
    }
    e.key('\n');
    let up = e.key('\u{2191}');
    assert_eq!((up.erase, up.text.as_str()), (0, "pwd"));
    let up = e.key('\u{2191}');
    assert_eq!((up.erase, up.text.as_str()), (3, "ls"));
    let up = e.key('\u{2191}');
    assert_eq!((up.erase, up.text.as_str()), (0, ""));
    let down = e.key('\u{2193}');
    assert_eq!((down.erase, down.text.as_str()), (2, "pwd"));
    let back = e.key('\x08');
    assert_eq!(back.erase, 1);
    let down = e.key('\u{2193}');
    assert_eq!((down.erase, down.text.as_str()), (2, ""));
    let empty = e.key('\n');
    assert_eq!(empty.submitted, Some(String::new()));
}

#[test]
fn listing_sorted_numerically() {
    let names = ls_listing(vec![
        Some("file-10".to_string()),
        None,
        Some("file-2".to_string()),
        Some("apple".to_string()),
    ]);
    assert_eq!(names, vec!["apple".to_string(), "file-2".to_string(), "file-10".to_string()]);
}

#[test]
fn build_tool_decisions() {
    let args: Vec<String> = ["builder", "--release", "qemu-nox", "--", "-m", "1G"].iter().map(|s| s.to_string()).collect();
    let p = builder_plan(&args);
    assert!(!p.clean);
    assert!(p.release);
    assert_eq!(p.run_qemu, Some(false));
    assert_eq!(extra_qemu_args(&args), vec!["-m".to_string(), "1G".to_string()]);
    assert!(extra_qemu_args(&vec!["x".to_string()]).is_empty());
    assert!(matches!(choose_ovmf(true, None, false, false, false), Ok(OvmfSource::Pure)));
    assert!(matches!(choose_ovmf(false, None, true, true, false), Err(QEMUErrors::MissingKVM)));
    assert!(matches!(choose_ovmf(false, None, true, false, true), Err(QEMUErrors::NoOVMF)));
    assert!(matches!(choose_ovmf(false, None, true, true, true), Ok(OvmfSource::System)));
    let q = qemu_args(false, true, &vec!["-m".to_string()], &OvmfSource::Env("/o".to_string()));
    assert_eq!(q[15], "-enable-kvm");
    assert_eq!(q[16], "-nographic");
    assert_eq!(q[17], "-m");
    assert_eq!(q[19], "if=pflash,format=raw,readonly=on,file=/o/OVMF_CODE.fd");
    assert_eq!(q.last().unwrap(), "format=raw,file=fat:rw:src");
    assert_eq!(q.len(), 26);
    assert_eq!(BuildErrors::MissingExec.message(), "could not find executable");
    assert_eq!(to_build()[7], ("kernel", "fioxa.elf"));
}

#[test]
fn build_messages_give_the_executable() {
    let art = |t: &str, e: Option<&str>| BuildMessage::Artifact {
        target: t.to_string(),
        executable: e.map(|x| x.to_string()),
    };
    let msgs = vec![
        art("kernel", Some("/t/old")),
        BuildMessage::Other,
        art("helper", Some("/t/helper")),
        art("kernel", Some("/t/kernel")),
        BuildMessage::Finished { success: true },
        art("kernel", Some("/t/late")),
    ];
    assert_eq!(build_outcome("kernel", &msgs), Ok("/t/kernel".to_string()));
    let none = vec![art("kernel", Some("/t/k")), art("kernel", None), BuildMessage::Finished { success: true }];
    assert_eq!(build_outcome("kernel", &none), Err(BuildErrors::MissingExec));
    let failed = vec![art("kernel", Some("/t/k")), BuildMessage::Finished { success: false }];
    assert_eq!(build_outcome("kernel", &failed), Err(BuildErrors::BuildFailed));
    assert_eq!(build_outcome("kernel", &vec![art("kernel", Some("/t/k"))]), Err(BuildErrors::Incomplete));
    assert_eq!(build_outcome("other", &vec![art("kernel", Some("/t/k")), BuildMessage::Finished { success: true }]), Err(BuildErrors::MissingExec));
}

#[test]
fn boot_decisions() {
    assert_eq!(initialize_gop(&[(800, 600), (1920, 1080), (2560, 1440)]), Some(1));
    assert_eq!(initialize_gop(&[(2560, 1440)]), None);
    let g = get_gop_info(0xB000_0000, 0x1000, (640, 480), 640, PixelFormat::Bgr);
    assert_eq!((g.horizontal, g.vertical, g.stride), (640, 480, 640));
    assert!(matches!(read_file(OpenedFile::Missing), Err("File error...")));
    assert!(matches!(read_file(OpenedFile::Dir), Err("The file appears to be a dir")));
    let r = read_file(OpenedFile::Regular { data: vec![1, 2, 0], bytes_read: 2, file_size: 3 }).unwrap();
    assert_eq!(r.data, vec![1, 2, 0]);
    assert!(!r.complete);
    let table: [(&str, &[u8]); 2] = [("font.psf", &[1, 2, 3]), ("terminal", &[9])];
    assert_eq!(early_bootfs_get(&table, "terminal"), Some(&[9u8][..]));
    assert_eq!(early_bootfs_get(&table, "ps2"), None);
    assert_eq!(bootfs_read_range(10, 4, 100), Some((4, 10)));
    assert_eq!(bootfs_read_range(10, 4, 3), Some((4, 7)));
    assert_eq!(bootfs_read_range(10, 11, 3), None);
}

fn tiny_elf(paddr: u64, e_type: u16) -> Vec<u8> {
    let mut b = vec![0u8; 128];
    b[0..4].copy_from_slice(&[0x7F, b'E', b'L', b'F']);
    b[4] = 2;
    b[5] = 1;
    b[6] = 1;
    b[16..18].copy_from_slice(&e_type.to_le_bytes());
    b[18..20].copy_from_slice(&62u16.to_le_bytes());
    b[20..24].copy_from_slice(&1u32.to_le_bytes());
    b[24..32].copy_from_slice(&0x400123u64.to_le_bytes());
    b[32..40].copy_from_slice(&64u64.to_le_bytes());
    b[52..54].copy_from_slice(&64u16.to_le_bytes());
    b[54..56].copy_from_slice(&56u16.to_le_bytes());
    b[56..58].copy_from_slice(&1u16.to_le_bytes());
    let ph = 64;
    b[ph..ph + 4].copy_from_slice(&1u32.to_le_bytes());
    b[ph + 4..ph + 8].copy_from_slice(&5u32.to_le_bytes());
    b[ph + 8..ph + 16].copy_from_slice(&120u64.to_le_bytes());
    b[ph + 16..ph + 24].copy_from_slice(&0x400123u64.to_le_bytes());
    b[ph + 24..ph + 32].copy_from_slice(&paddr.to_le_bytes());
    b[ph + 32..ph + 40].copy_from_slice(&8u64.to_le_bytes());
    b[ph + 40..ph + 48].copy_from_slice(&0x2000u64.to_le_bytes());
    b[ph + 48..ph + 56].copy_from_slice(&0x1000u64.to_le_bytes());
    b
}

#[test]
fn elf_headers_and_segments() {
    let data = tiny_elf(0x400123, 2);
    let h = read_elf(&data).unwrap();
    assert_eq!((h.e_type, h.e_machine, h.e_entry), (2, 62, 0x400123));
    let segs = h.segments.unwrap();
    assert_eq!(segs.len(), 1);
    assert_eq!(segs[0].p_memsz, 0x2000);
    assert_eq!(segment_data(&data, &segs[0]).unwrap().len(), 8);
    let bad = ProgramHeader { p_offset: 125, p_filesz: 8, ..segs[0] };
    assert!(segment_data(&data, &bad).is_none());
    assert!(read_elf(&[0u8; 10]).is_none());
}

#[test]
fn bootloader_kernel_plan() {
    let data = tiny_elf(0x400123, 2);
    let (entry, segs) = plan_boot_kernel(&data).unwrap();
    assert_eq!(entry, 0x400123);
    assert_eq!(segs.len(), 1);
    assert_eq!((segs[0].base, segs[0].page_count), (0x400000, 3));
    assert_eq!((segs[0].data_start, segs[0].data_end), (120, 128));
    assert!(!segs[0].writeable);
    assert!(plan_boot_kernel(&data[..100]).is_none());
}

#[test]
fn process_load_plan() {
    let data = tiny_elf(0x400123, 2);
    match plan_load_elf(&data, 0x8000_0000_0000).unwrap() {
        ElfPlan::Process { entry, segments } => {
            assert_eq!(entry, 0x400123);
            assert_eq!(segments[0].vstart, 0x400000);
            assert_eq!(segments[0].size, 0x3000);
            assert_eq!(segments[0].page_offset, 0x123);
            assert!(!segments[0].flags.writeable);
            assert!(segments[0].flags.userspace);
        }
        ElfPlan::Kexec => panic!("a user program"),
    }
    let kernel = tiny_elf(0xFFFF_8000_0000_0000, 2);
    assert!(matches!(plan_load_elf(&kernel, 0x8000_0000_0000), Ok(ElfPlan::Kexec)));
    let shared = tiny_elf(0x400123, 3);
    assert!(matches!(plan_load_elf(&shared, 0x8000_0000_0000), Err(LoadElfError::InternalError)));
    let flags = ElfSegmentFlags::from_bits_truncate(0xFF);
    assert_eq!(flags.bits, 7);
    assert!(flags.writeable());
    assert!(!ElfSegmentFlags::from_bits_truncate(5).to_mapping_flags().writeable);
}

#[test]
fn psf1_fonts() {
    let mut f = vec![0x36, 0x04, 0, 2];
    f.extend(vec![0xAA; 512]);
    f.extend(vec![1, 2, 3]);
    let font = parse_psf1(&f).unwrap();
    assert_eq!(font.psf1_header.charsize, 2);
    assert_eq!(font.glyph_buffer.len(), 512);
    assert_eq!(font.unicode_buffer, vec![1, 2, 3]);
    let mut wide = vec![0x36, 0x04, 1, 1];
    wide.extend(vec![0; 512]);
    assert_eq!(parse_psf1(&wide).unwrap().glyph_buffer.len(), 512);
    assert!(matches!(parse_psf1(&[0, 0, 0, 0]), Err(FontError::BadMagic)));
}

#[test]
fn ahci_port_and_transfers() {
    assert_eq!(check_port_type(0x103, 0x0000_0101), PortType::SATA);
    assert_eq!(check_port_type(0x103, 0xEB14_0101), PortType::SATAPI);
    assert_eq!(check_port_type(0x003, 0x0000_0101), PortType::Absent);
    assert!(port_is_implemented(0b101, 2));
    assert!(!port_is_implemented(0b101, 1));
    assert_eq!(find_slot(0b011, 0b100), Some(3));
    let v = plan_prdt(0x1000_0200, 9);
    assert_eq!(v.len(), 2);
    assert_eq!((v[0].page, v[0].offset, v[0].byte_count), (0x1000_0000, 0x200, 0xDFF));
    assert_eq!((v[1].page, v[1].byte_count), (0x1000_1000, 0x3FF));
    let w = DiskWindow::whole_disk();
    let part = w.restrict(100, 50, false).unwrap();
    assert_eq!(part.read(10, 4), Ok(110));
    assert_eq!(part.read(48, 4), Err(DiskError::OutOfBounds));
    assert_eq!(part.write(0, 512), Err(DiskError::ReadOnly));
    assert_eq!(w.write(3, 100), Err(DiskError::NotSectorMultiple));
    assert_eq!(w.write(3, 1024), Ok(Some(3)));
    assert_eq!(part.restrict(40, 20, true), Err(DiskError::NarrowingOutOfBounds));
}

#[test]
fn pcnet_rings_and_registers() {
    assert!(is_supported_device(0x1022, 0x2000));
    assert!(!is_supported_device(0x8086, 0x2000));
    assert_eq!(mac_from_ports(0x4433_2211, 0xFFFF_6655), 0x6655_4433_2211);
    assert_eq!(software_style_32(0x1234), 0x1202);
    assert_eq!(send_descriptor_flags(100), 0x8300_F000 | (65536 - 100));
    let free = BufferDescriptor { address: 0, flags: 0, flags_2: 0, avail: 0 };
    let owned = BufferDescriptor { flags: 0x8000_0000, ..free };
    assert_eq!(find_free_send_descriptor(&[owned, free]), Some(1));
    assert_eq!(find_free_send_descriptor(&[owned]), None);
    assert_eq!(receive_action(0x0300_0000, 64), ReceiveAction::Deliver { size: 64 });
    assert_eq!(receive_action(0x8000_0000, 64), ReceiveAction::Skip);
    assert_eq!(receive_action(0x4300_0000, 64), ReceiveAction::Recycle);
    assert_eq!(recycled_descriptor(free).flags, 0x8000_0000 | BUFFER_SIZE_MASK);
    let ev = csr0_events(0x0600);
    assert!(ev.received && ev.sent && !ev.error);
    assert_eq!(interrupts_held(0x0042), 0x0002);
    let l = ring_layout(0x10_0000);
    assert_eq!((l.send_ring, l.recv_ring, l.end), (0x10_001C, 0x10_009C, 0x10_011C));
    let b = init_block(0x6655_4433_2211, &l);
    assert_eq!(b.num_send_buffers, 3);
    assert_eq!(b.send_buffer_desc_addr, 0x10_001C);
    let ring = descriptor_ring(&vec![0x20_0000, 0x30_0000], true);
    assert_eq!(ring.len(), 4);
    assert_eq!(ring[1].address, 0x20_0800);
    assert_eq!(ring[2].address, 0x30_0000);
    assert_eq!(ring[3].flags, BUFFER_SIZE_MASK | 0x8000_0000);
    assert_eq!(init_block_registers(0x1234_5678), (0x1234_5678, 0x1234));
    assert!(init_done(0x80));
    assert!(!init_done(0x7F));
}

#[test]
fn ps2_controller_decisions() {
    assert!(output_full(0x01));
    assert!(!output_full(0x02));
    assert!(can_write(0x01));
    assert!(!can_write(0x02));
    assert_eq!(setup_configuration(0xFF), 0xBC);
    assert_eq!(keyboard_interrupt_configuration(0x40), 0x41);
    assert!(self_test_passed(0x55));
    assert!(!self_test_passed(0xFC));
    assert_eq!(port_test_result(true, 0), Ok(()));
    assert_eq!(port_test_result(true, 1), Err("Keyboard port failed test"));
    assert_eq!(port_test_result(false, 2), Err("Mouse port failed test"));
    let mut c = KeyboardCommand::new();
    assert!(matches!(c.answer(0xFE), CommandAnswer::Resend));
    assert!(matches!(c.answer(0xFA), CommandAnswer::Done));
    let mut bad = KeyboardCommand::new();
    assert!(matches!(bad.answer(0x00), CommandAnswer::Failed("Keyboard didn't acknolodge command")));
    let mut tired = KeyboardCommand::new();
    for _ in 0..9 {
        assert!(matches!(tired.answer(0xFE), CommandAnswer::Resend));
    }
    assert!(matches!(tired.answer(0xFE), CommandAnswer::Failed("Keyboard required too many command resends")));
    assert!(!tired.may_send());
}
