use fioxa::bytes::{read_u16_le, read_u32_le, read_u64_le, write_u16_le, write_u32_le};
use fioxa::fat::{
    get_fat_type, BiosParameterBlock, ClusterEntry, FAT16Ext, FAT32Ext, FatExtendedBootRecord,
    FatType, FAT,
};
use fioxa::fat_dir::{DirectoryEntry, DirectoryReader, FATFileType, LongFileName};
use fioxa::fat_file::{
    clusters_needed, file_read_range, first_cluster_entry, plan_cluster_chunk, plan_write_prefill,
    ChainGrowth, ClusterIterator, GrowStep, WritePrefill,
};
use fioxa::kfat::{
    entry_first_cluster, fat_entry_location, kernel_fat_type, kernel_file_of_entry,
    kernel_read_len, next_cluster_from_sector, DirEntryType, KernelFileRead, KernelReadStep,
};
use fioxa::mbr::{FSPartitionDisk, MasterBootRecord};

fn boot_sector_fat16() -> Vec<u8> {
    let mut b = vec![0u8; 512];
    b[0] = 0xEB;
    b[11] = 0x00;
    b[12] = 0x02; // 512 bytes per sector
    b[13] = 4; // sectors per cluster
    b[14] = 1; // reserved sectors
    b[16] = 2; // fat copies
    b[17] = 0x00;
    b[18] = 0x02; // 512 root entries
    b[19] = 0x00;
    b[20] = 0x00; // total sectors (16-bit) = 0
    b[22] = 0x40; // 64 sectors per fat
    b[32..36].copy_from_slice(&100_000u32.to_le_bytes());
    b[36] = 0x80; // drive number
    b[38] = 0x29; // signature
    b
}

#[test]
fn little_endian_reads_and_writes() {
    let b = [0x34u8, 0x12, 0x78, 0x56, 0x01, 0, 0, 0, 0xAA];
    assert_eq!(read_u16_le(&b, 0), 0x1234);
    assert_eq!(read_u32_le(&b, 0), 0x5678_1234);
    assert_eq!(read_u64_le(&b, 0), 0x0000_0001_5678_1234);
    let mut v = vec![0u8; 6];
    write_u16_le(&mut v, 1, 0xBEEF);
    write_u32_le(&mut v, 2, 0x0102_0304);
    assert_eq!(v, vec![0, 0xEF, 0x04, 0x03, 0x02, 0x01]);
}

#[test]
fn parameter_block_decodes() {
    let b = boot_sector_fat16();
    let bpb = BiosParameterBlock::from_bytes(&b);
    assert_eq!(bpb.bytes_per_sector, 512);
    assert_eq!(bpb.sectors_per_cluster, 4);
    assert_eq!(bpb.root_dir_entries, 512);
    assert_eq!(bpb.total_sectors_ext, 100_000);
    let e = FAT16Ext::from_bytes(&b[36..]);
    assert_eq!(e.drive_number, 0x80);
    assert_eq!(e.signature, 0x29);
}

#[test]
fn fat16_volume_type() {
    let b = boot_sector_fat16();
    let bpb = BiosParameterBlock::from_bytes(&b);
    let ext = FAT32Ext::from_bytes(&b[36..]);
    // data sectors: 100000 - (1 + 2*64 + 32) = 99839; clusters = 24959
    assert_eq!(get_fat_type(&bpb, &ext), (FatType::Fat16, 24959));
}

#[test]
fn fat12_and_fat32_volume_types() {
    let mut b = boot_sector_fat16();
    b[19] = 0x10;
    b[20] = 0x27; // 10000 sectors
    let bpb = BiosParameterBlock::from_bytes(&b);
    let ext = FAT32Ext::from_bytes(&b[36..]);
    // (10000 - 161) / 4 = 2459
    assert_eq!(get_fat_type(&bpb, &ext), (FatType::Fat12, 2459));
    let mut c = boot_sector_fat16();
    c[22] = 0;
    c[23] = 0; // no 16-bit FAT size: FAT32
    c[36..40].copy_from_slice(&800u32.to_le_bytes());
    let bpb = BiosParameterBlock::from_bytes(&c);
    let ext = FAT32Ext::from_bytes(&c[36..]);
    assert_eq!(ext.sectors_per_fat, 800);
    assert_eq!(get_fat_type(&bpb, &ext), (FatType::Fat32, 200));
}

fn fat16_volume() -> FAT {
    let b = boot_sector_fat16();
    let bpb = BiosParameterBlock::from_bytes(&b);
    let ext = FAT16Ext::from_bytes(&b[36..]);
    FAT {
        bios_parameter_block: bpb,
        fat_ebr: FatExtendedBootRecord::FAT16(ext),
        root_cluster: 0,
        total_clusters: 24959,
    }
}

#[test]
fn fat16_layout() {
    let fat = fat16_volume();
    assert_eq!(fat.root_dir_sectors(), 32);
    assert_eq!(fat.first_data_sector(), 1 + 64 * 2 + 32);
    assert_eq!(fat.get_root_directory_sector(), 129);
    assert_eq!(fat.get_start_sector_of_cluster(2), 161);
    assert_eq!(fat.get_start_sector_of_cluster(5), 161 + 12);
    assert_eq!(fat.cluster_entry_sector(300), 300 / 256 + 1);
}

#[test]
fn cluster_entries_read_and_write() {
    let fat = fat16_volume();
    let mut sector = vec![0u8; 512];
    let e = ClusterEntry { data: 7, fat: FatType::Fat16 };
    fat.set_cluster_entry(3, e, &mut sector);
    assert_eq!(sector[6], 7);
    assert_eq!(sector[7], 0);
    let r = fat.get_cluster_entry(3, &sector);
    assert_eq!(r.data, 7);
    let high = ClusterEntry { data: 0x0012_0034, fat: FatType::Fat16 };
    fat.set_cluster_entry(4, high, &mut sector);
    assert_eq!(fat.get_cluster_entry(4, &sector).data, 0x34);
    assert_eq!(fat.get_cluster_entry(3, &sector).data, 7);
    assert_eq!(r.get_next(), Some(7));
    assert!(!r.is_free());
    assert!(!r.is_eof());
    let eof = ClusterEntry::eof(FatType::Fat16);
    assert_eq!(eof.value(), 0xFFF8);
    assert!(eof.is_eof());
    assert_eq!(eof.get_next(), None);
    let free = ClusterEntry { data: 0xF000_0000, fat: FatType::Fat32 };
    assert!(free.is_free());
    assert_eq!(free.value(), 0);
    assert_eq!(FatExtendedBootRecord::FAT16(FAT16Ext::from_bytes(&[0u8; 26])).get_type(), FatType::Fat16);
}

fn short_entry(name: &[u8; 8], ext: &[u8; 3], attr: u8, cluster: u32, size: u32) -> [u8; 32] {
    let mut e = [0u8; 32];
    e[0..8].copy_from_slice(name);
    e[8..11].copy_from_slice(ext);
    e[11] = attr;
    e[20..22].copy_from_slice(&((cluster >> 16) as u16).to_le_bytes());
    e[26..28].copy_from_slice(&(cluster as u16).to_le_bytes());
    e[28..32].copy_from_slice(&size.to_le_bytes());
    e
}

fn long_entry(order: u8, name: &str) -> [u8; 32] {
    let mut units: Vec<u16> = name.encode_utf16().collect();
    if units.len() < 13 {
        units.push(0);
    }
    while units.len() < 13 {
        units.push(0xFFFF);
    }
    let mut e = [0u8; 32];
    e[0] = order;
    for i in 0..5 {
        e[1 + 2 * i..3 + 2 * i].copy_from_slice(&units[i].to_le_bytes());
    }
    e[11] = 0x0F;
    for i in 0..6 {
        e[14 + 2 * i..16 + 2 * i].copy_from_slice(&units[5 + i].to_le_bytes());
    }
    for i in 0..2 {
        e[28 + 2 * i..30 + 2 * i].copy_from_slice(&units[11 + i].to_le_bytes());
    }
    e
}

#[test]
fn directory_entry_cluster_halves() {
    let raw = short_entry(b"KERNEL  ", b"ELF", 0x20, 0x0003_0005, 1234);
    let mut e = DirectoryEntry::from_bytes(&raw, 0);
    assert_eq!(e.cluster(), 0x0003_0005);
    assert_eq!(e.size, 1234);
    e.set_cluster(0x0001_0002);
    assert_eq!(e.first_cluster_hi, 1);
    assert_eq!(e.first_cluster_low, 2);
    assert_eq!(e.cluster(), 0x0001_0002);
}

#[test]
fn long_name_part_decodes() {
    let raw = long_entry(0x41, "hello.txt");
    let l = LongFileName::from_bytes(&raw, 0);
    assert_eq!(l.name_part(), "hello.txt");
}

#[test]
fn directory_sector_names() {
    let mut sector = vec![0u8; 512];
    sector[0..32].copy_from_slice(&short_entry(b".       ", b"   ", 0x10, 0, 0));
    sector[32..64].copy_from_slice(&short_entry(b"README  ", b"TXT", 0x20, 3, 10));
    sector[64..96].copy_from_slice(&long_entry(0x41, "notes.md"));
    sector[96..128].copy_from_slice(&short_entry(b"NOTES~1 ", b"MD ", 0x20, 4, 20));
    sector[128..160].copy_from_slice(&short_entry(b"OLD     ", b"TXT", 0x20, 5, 1));
    sector[128] = 0xE5;
    sector[160..192].copy_from_slice(&short_entry(b"BIN     ", b"   ", 0x10, 6, 0));
    // entry 6 starts with 0: the end of the directory
    let mut r = DirectoryReader::new();
    assert!(!r.is_done());
    assert!(r.read_sector(40, &sector));
    let entries = r.into_entries();
    let names: Vec<&str> = entries.iter().map(|(n, _)| n.as_str()).collect();
    assert_eq!(names, vec!["README.TXT", "notes.md", "BIN"]);
    assert_eq!(entries[0].1.dir_entry_sector, Some(40));
    assert_eq!(entries[0].1.dir_entry_index, 1);
    assert_eq!(entries[2].1.entry_type, FATFileType::Folder);
    assert_eq!(entries[1].1.entry_type, FATFileType::File);
}

#[test]
fn directory_table_lookup_and_listing() {
    let mut sector = vec![0u8; 512];
    sector[0..32].copy_from_slice(&short_entry(b"A       ", b"TXT", 0x20, 3, 10));
    sector[32..64].copy_from_slice(&short_entry(b"DOCS    ", b"   ", 0x10, 4, 0));
    let mut r = DirectoryReader::new();
    assert!(r.read_sector(7, &sector));
    let t = r.into_table();
    let f = t.open_child("A.TXT").unwrap();
    assert_eq!(f.dir_entry_index, 0);
    assert!(t.open_child("missing").is_none());
    let mut listing = t.child_listing();
    listing.sort_by(|a, b| a.0.cmp(&b.0));
    assert_eq!(listing, vec![("A.TXT".to_string(), FATFileType::File), ("DOCS".to_string(), FATFileType::Folder)]);
}

#[test]
fn cluster_chain_walk() {
    let mut it = ClusterIterator::new(5);
    assert_eq!(it.peek(), Some(5));
    assert_eq!(it.next(&ClusterEntry { data: 9, fat: FatType::Fat16 }), Some(5));
    assert_eq!(it.peek(), Some(9));
    assert_eq!(it.next(&ClusterEntry::eof(FatType::Fat16)), Some(9));
    assert_eq!(it.peek(), None);
    assert_eq!(it.next(&ClusterEntry { data: 3, fat: FatType::Fat16 }), None);
}

#[test]
fn read_ranges_and_chunks() {
    assert_eq!(file_read_range(10, 100, 50), (10, 50));
    assert_eq!(file_read_range(10, 5, 50), (10, 15));
    // clusters of 2 sectors (1024 bytes); read 700..1500
    let k0 = plan_cluster_chunk(0, 2, 700, 1500).unwrap();
    assert_eq!((k0.start, k0.end), (700, 1024));
    assert_eq!(k0.sector_in_cluster, 1);
    assert_eq!(k0.offset_in_sector, 188);
    assert_eq!(k0.sector_count, 1);
    let k1 = plan_cluster_chunk(1, 2, 1024, 1500).unwrap();
    assert_eq!((k1.start, k1.end), (1024, 1500));
    assert_eq!(k1.sector_in_cluster, 0);
    assert_eq!(k1.sector_count, 1);
    assert!(plan_cluster_chunk(3, 2, 1500, 1500).is_none());
}

#[test]
fn write_prefill_choices() {
    let aligned = plan_cluster_chunk(0, 4, 0, 1024).unwrap();
    assert_eq!(plan_write_prefill(&aligned), WritePrefill::Aligned);
    let small = plan_cluster_chunk(0, 4, 10, 600).unwrap();
    assert_eq!(plan_write_prefill(&small), WritePrefill::Whole);
    let big = plan_cluster_chunk(0, 4, 10, 1600).unwrap();
    assert_eq!(plan_write_prefill(&big), WritePrefill::Ends { first: true, last: true });
    assert_eq!(clusters_needed(2049, 2), 3);
    assert_eq!(clusters_needed(2048, 2), 2);
    assert_eq!(clusters_needed(0, 2), 0);
}

#[test]
fn chain_growth_links_free_clusters() {
    // a file of one cluster (10, end of chain) grows to three clusters
    let mut g = ChainGrowth::new(10, ClusterEntry::eof(FatType::Fat16), 3);
    assert!(matches!(g.step(), GrowStep::Allocate));
    let (c, e) = g.allocated(20);
    assert_eq!((c, e.data), (10, 20));
    assert!(matches!(g.step(), GrowStep::Allocate));
    let (c, e) = g.allocated(21);
    assert_eq!((c, e.data), (20, 21));
    match g.step() {
        GrowStep::WriteEof { cluster, entry } => {
            assert_eq!(cluster, 21);
            assert_eq!(entry.data, 0xFFF8);
        }
        _ => panic!("the last cluster must be marked as the end"),
    }
}

#[test]
fn chain_growth_follows_existing_chain() {
    let mut g = ChainGrowth::new(4, ClusterEntry { data: 5, fat: FatType::Fat16 }, 2);
    match g.step() {
        GrowStep::Read(c) => assert_eq!(c, 5),
        _ => panic!("the chain must be followed"),
    }
    g.entry_read(ClusterEntry::eof(FatType::Fat16));
    assert!(matches!(g.step(), GrowStep::Done));
    let first = first_cluster_entry(FatType::Fat32);
    assert!(first.is_free());
}

#[test]
fn kernel_fat_decisions() {
    assert_eq!(kernel_fat_type(8000, 0, 4), (FatType::Fat12, 2000));
    assert_eq!(kernel_fat_type(0, 200_000, 4), (FatType::Fat16, 50_000));
    assert_eq!(kernel_fat_type(0, 4_000_000, 8), (FatType::Fat32, 500_000));
    assert_eq!(fat_entry_location(300, false, 4), (5, 44));
    assert_eq!(fat_entry_location(300, true, 4), (6, 44));
    let mut sector = vec![0u8; 512];
    sector[88..92].copy_from_slice(&0x0102_0304u32.to_le_bytes());
    assert_eq!(next_cluster_from_sector(&sector, 22, true), 0x0102_0304);
    assert_eq!(next_cluster_from_sector(&sector, 44, false), 0x0304);
    assert_eq!(entry_first_cluster(1, 2), 0x102);
    let f = kernel_file_of_entry(0, 9, 0x20, 77);
    assert_eq!(f.cluster, 9);
    assert_eq!(f.entry_type, DirEntryType::File(77));
    assert_eq!(kernel_file_of_entry(0, 9, 0x10, 77).entry_type, DirEntryType::Folder);
    assert_eq!(kernel_read_len(100, 100, 5), None);
    assert_eq!(kernel_read_len(100, 90, 50), Some(10));
}

#[test]
fn kernel_file_read_walk() {
    // clusters of 2 sectors; read 600 bytes from offset 1100
    let mut r = KernelFileRead::new(5, 200, 2, 1100, 600);
    assert_eq!(r.step(), KernelReadStep::NeedNextCluster(5));
    r.next_cluster(6, 202);
    assert_eq!(
        r.step(),
        KernelReadStep::Read { sector: 202, count: 1, from: 512 - 76, to: 512 }
    );
    assert_eq!(r.needs_next_cluster(), None);
    assert_eq!(
        r.step(),
        KernelReadStep::Read { sector: 203, count: 1, from: 0, to: 512 }
    );
    assert_eq!(r.needs_next_cluster(), Some(6));
    r.next_cluster(7, 204);
    assert_eq!(r.step(), KernelReadStep::Read { sector: 204, count: 1, from: 0, to: 12 });
    assert_eq!(r.step(), KernelReadStep::Done);
    let mut u = KernelFileRead::new(5, 200, 2, 100, 10);
    assert_eq!(u.step(), KernelReadStep::Underflow);
}

#[test]
fn master_boot_record_partitions() {
    let mut b = vec![0u8; 512];
    b[510] = 0x55;
    b[511] = 0xAA;
    // partition 0: bootable, starts at 2048, 4096 sectors
    b[446] = 0x80;
    b[450] = 0x0C;
    b[454..458].copy_from_slice(&2048u32.to_le_bytes());
    b[458..462].copy_from_slice(&4096u32.to_le_bytes());
    let mbr = MasterBootRecord::from_bytes(&b);
    assert!(mbr.has_valid_magic());
    let parts = mbr.partitions_to_load();
    assert_eq!(parts.len(), 1);
    assert!(parts[0].is_bootable());
    assert_eq!(parts[0].size_mb(), 2);
    let d = FSPartitionDisk::new(2048, 4096);
    assert_eq!(d.read_start(10, 4), 2058);
    b[511] = 0;
    assert!(!MasterBootRecord::from_bytes(&b).has_valid_magic());
}
