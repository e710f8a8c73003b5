//! End-to-end tests of the FAT core: the entry codec, the table engine,
//! and whole-volume scenarios over formatted in-memory media.

use fatrs::bpb::FatType;
use fatrs::device::BlockDevice;
use fatrs::dir_entry::{
    decode_lfn, decode_sfn, encode_lfn, encode_sfn, is_deleted, is_end_marker, is_lfn,
    lfn_pad_units, lfn_unpad_units, sfn_checksum,
};
use fatrs::error::FsError;
use fatrs::fat::{EntryKind, FileSystem};
use fatrs::file::SeekFrom;
use fatrs::format::{format_volume, FormatVolumeOptions};

fn small_volume() -> FileSystem {
    // 2 MiB, FAT12 by count.
    format_volume(&FormatVolumeOptions::new(4096)).unwrap()
}

fn fat16_volume() -> FileSystem {
    // 10 MiB, FAT16 by count.
    format_volume(&FormatVolumeOptions::new(20480)).unwrap()
}

fn fat32_volume() -> FileSystem {
    // About 33 MiB with one-sector clusters: the smallest cluster count
    // that lands in FAT32.
    let opts = FormatVolumeOptions {
        total_sectors: 68000,
        bytes_per_sector: 512,
        sectors_per_cluster: 1,
        num_fats: 2,
    };
    format_volume(&opts).unwrap()
}

#[test]
fn sfn_record_round_trip() {
    // An arbitrary 32-byte record decoded and re-encoded is unchanged.
    let mut rec: Vec<u8> = (0u8..32u8).collect();
    rec[0] = b'R';
    let e = decode_sfn(&rec);
    let back = encode_sfn(&e);
    assert_eq!(back, rec);
}

#[test]
fn sfn_checksum_known_values() {
    assert_eq!(sfn_checksum(&vec![0x20u8; 11]), 247);
    assert_eq!(sfn_checksum(&b"FILENAMEEXT".to_vec()), 246);
    assert_eq!(sfn_checksum(&b"A       TXT".to_vec()), 93);
    assert_eq!(sfn_checksum(&b"README  TXT".to_vec()), 115);
    assert_eq!(sfn_checksum(&b"KERNEL  SYS".to_vec()), 172);
    assert_eq!(sfn_checksum(&b"FOO     BAR".to_vec()), 83);
}

#[test]
fn record_markers() {
    let mut rec = vec![0u8; 32];
    assert!(is_end_marker(&rec));
    rec[0] = 0xE5;
    assert!(is_deleted(&rec));
    assert!(is_lfn(0x0F));
    assert!(!is_lfn(0x20));
}

#[test]
fn lfn_piece_round_trip() {
    let units: Vec<u16> = (100u16..113u16).collect();
    let rec = encode_lfn(0x41, &units, 0xCD);
    let piece = decode_lfn(&rec);
    assert_eq!(piece.ordinal, 0x41);
    assert_eq!(piece.checksum, 0xCD);
    assert_eq!(piece.units, units);
}

#[test]
fn lfn_name_round_trip_units() {
    // Any null-free name survives padding and stripping; 255 units is the cap.
    for len in [1usize, 12, 13, 14, 26, 200, 255] {
        let name: Vec<u16> = (1..=len as u16).collect();
        let padded = lfn_pad_units(&name);
        assert_eq!(padded.len() % 13, 0);
        let back = lfn_unpad_units(&padded);
        assert_eq!(back, name);
    }
}

#[test]
fn cluster_to_sector_mapping() {
    let fs = fat16_volume();
    let bpb = fs.bpb();
    let first_data = bpb.first_data_sector();
    assert_eq!(bpb.cluster_to_sector(2), first_data);
    let spc = bpb.sectors_per_cluster as u64;
    for c in 2..10u32 {
        assert_eq!(bpb.cluster_to_sector(c + 1) - bpb.cluster_to_sector(c), spc);
    }
}

#[test]
fn allocate_and_chain() {
    let mut fs = small_volume();
    let head = fs.allocate_one().unwrap();
    assert_eq!(fs.fat_kind(head), EntryKind::EndOfChain);
    let second = fs.extend(head).unwrap();
    assert_eq!(fs.fat_kind(head), EntryKind::Chained(second));
    assert_eq!(fs.fat_kind(second), EntryKind::EndOfChain);
    let chain = fs.read_chain(head).unwrap();
    assert_eq!(chain, vec![head, second]);
    // Allocation alone never ticks the generation counter.
    assert_eq!(fs.generation(), 0);
}

#[test]
fn truncate_chain_keeps_exactly_keep() {
    let mut fs = small_volume();
    let head = fs.allocate_one().unwrap();
    let mut cur = head;
    for _ in 0..4 {
        cur = fs.extend(cur).unwrap();
    }
    let before = fs.read_chain(head).unwrap();
    assert_eq!(before.len(), 5);

    fs.truncate_chain(head, 2).unwrap();
    let after = fs.read_chain(head).unwrap();
    assert_eq!(after.len(), 2);
    assert_eq!(&after[..], &before[..2]);
    // Every cluster beyond the kept prefix reads free again.
    for c in &before[2..] {
        assert_eq!(fs.fat_kind(*c), EntryKind::Free);
    }
    assert_eq!(fs.generation(), 1);
}

#[test]
fn free_chain_frees_all_and_ticks_generation() {
    let mut fs = small_volume();
    let head = fs.allocate_one().unwrap();
    let mid = fs.extend(head).unwrap();
    let tail = fs.extend(mid).unwrap();
    let g0 = fs.generation();

    fs.free_chain(head).unwrap();
    for c in [head, mid, tail] {
        assert_eq!(fs.fat_kind(c), EntryKind::Free);
    }
    assert!(fs.generation() >= g0 + 1);
}

#[test]
fn two_file_write_without_corruption() {
    let mut fs = fat32_volume();
    assert_eq!(fs.bpb().fat_type(), FatType::Fat32);
    let root = fs.root_dir();

    let mut a = fs.create_file(&root, "/A.TXT").unwrap();
    fs.file_write(&mut a, &b"Content from file A".to_vec()).unwrap();
    fs.file_flush(&mut a).unwrap();
    drop(a);

    let mut b = fs.create_file(&root, "/B.TXT").unwrap();
    fs.file_write(&mut b, &b"Content from file B".to_vec()).unwrap();
    fs.file_flush(&mut b).unwrap();
    drop(b);

    let mut a2 = fs.open_file(&root, "/A.TXT").unwrap();
    assert_eq!(a2.size, 19);
    let data = fs.file_read(&mut a2, 100).unwrap();
    assert_eq!(data, b"Content from file A".to_vec());
}

#[test]
fn truncate_to_zero_cycle() {
    let mut fs = fat16_volume();
    let root = fs.root_dir();

    let mut t = fs.create_file(&root, "/T").unwrap();
    fs.file_write(&mut t, &vec![7u8; 34]).unwrap();
    fs.file_flush(&mut t).unwrap();

    fs.file_seek(&mut t, SeekFrom::Start(0)).unwrap();
    fs.file_truncate(&mut t).unwrap();
    fs.file_write(&mut t, &b"second".to_vec()).unwrap();
    fs.file_flush(&mut t).unwrap();

    fs.file_seek(&mut t, SeekFrom::Start(0)).unwrap();
    fs.file_truncate(&mut t).unwrap();
    fs.file_write(&mut t, &b"final".to_vec()).unwrap();
    fs.file_flush(&mut t).unwrap();

    let mut t2 = fs.open_file(&root, "/T").unwrap();
    assert_eq!(t2.size, 5);
    let data = fs.file_read(&mut t2, 100).unwrap();
    assert_eq!(data, b"final".to_vec());
}

#[test]
fn cluster_boundary_write() {
    let mut fs = small_volume();
    let k = fs.bpb().bytes_per_cluster() as usize;
    let root = fs.root_dir();

    let mut f = fs.create_file(&root, "/EDGE.BIN").unwrap();
    fs.file_write(&mut f, &vec![0xAAu8; k]).unwrap();
    fs.file_write(&mut f, &vec![0xBBu8; k]).unwrap();
    fs.file_flush(&mut f).unwrap();

    let mut f2 = fs.open_file(&root, "/EDGE.BIN").unwrap();
    assert_eq!(f2.size as usize, 2 * k);
    let data = fs.file_read(&mut f2, 2 * k).unwrap();
    assert_eq!(data.len(), 2 * k);
    assert!(data[..k].iter().all(|b| *b == 0xAA));
    assert!(data[k..].iter().all(|b| *b == 0xBB));
    let chain = fs.read_chain(f2.first_cluster).unwrap();
    assert_eq!(chain.len(), 2);
}

#[test]
fn lfn_round_trip_with_rename() {
    let mut fs = fat16_volume();
    let root = fs.root_dir();
    let old_name = "/this_is_a_very_long_filename_that_requires_lfn_entries.txt";
    let new_name = "/another_extremely_long_filename_for_testing_purposes.dat";

    let mut f = fs.create_file(&root, old_name).unwrap();
    fs.file_write(&mut f, &b"long name content".to_vec()).unwrap();
    fs.file_flush(&mut f).unwrap();
    drop(f);

    fs.rename(&root, old_name, &root, new_name).unwrap();

    assert!(matches!(fs.open_file(&root, old_name), Err(FsError::NotFound)));

    let mut g = fs.open_file(&root, new_name).unwrap();
    let data = fs.file_read(&mut g, 100).unwrap();
    assert_eq!(data, b"long name content".to_vec());
}

#[test]
fn rename_to_existing_target_fails() {
    let mut fs = fat16_volume();
    let root = fs.root_dir();

    let mut f1 = fs.create_file(&root, "/file1.txt").unwrap();
    fs.file_write(&mut f1, &b"content1".to_vec()).unwrap();
    fs.file_flush(&mut f1).unwrap();
    let mut f2 = fs.create_file(&root, "/file2.txt").unwrap();
    fs.file_write(&mut f2, &b"content2".to_vec()).unwrap();
    fs.file_flush(&mut f2).unwrap();

    let r = fs.rename(&root, "file1.txt", &root, "file2.txt");
    assert!(matches!(r, Err(FsError::AlreadyExists)));

    let mut a = fs.open_file(&root, "file1.txt").unwrap();
    assert_eq!(fs.file_read(&mut a, 100).unwrap(), b"content1".to_vec());
    let mut b = fs.open_file(&root, "file2.txt").unwrap();
    assert_eq!(fs.file_read(&mut b, 100).unwrap(), b"content2".to_vec());
}

#[test]
fn generation_counter_scenario() {
    let mut fs = fat16_volume();
    let root = fs.root_dir();
    assert_eq!(fs.generation(), 0);

    for name in ["/F1.TXT", "/F2.TXT", "/F3.TXT", "/F4.TXT", "/F5.TXT"] {
        let mut f = fs.create_file(&root, name).unwrap();
        fs.file_write(&mut f, &b"payload".to_vec()).unwrap();
        fs.file_flush(&mut f).unwrap();
    }
    // Creation and writing only allocate; nothing was freed.
    assert_eq!(fs.generation(), 0);

    fs.remove(&root, "/F3.TXT").unwrap();
    assert!(fs.generation() >= 1);
}

#[test]
fn stale_handle_re_resolves_after_truncate() {
    let mut fs = fat16_volume();
    let root = fs.root_dir();

    let mut w = fs.create_file(&root, "/SHARED.TXT").unwrap();
    fs.file_write(&mut w, &vec![1u8; 2048]).unwrap();
    fs.file_flush(&mut w).unwrap();

    // A second handle opened before the truncation below.
    let mut early = fs.open_file(&root, "/SHARED.TXT").unwrap();
    let g_at_open = early.generation;

    // Another handle truncates the file to zero, freeing its chain and
    // ticking the generation.
    let mut b = fs.open_file(&root, "/SHARED.TXT").unwrap();
    fs.file_seek(&mut b, SeekFrom::Start(0)).unwrap();
    fs.file_truncate(&mut b).unwrap();
    assert!(fs.generation() > g_at_open);

    // The early handle's next write notices the stale generation,
    // re-resolves its entry by name, refreshes its view of the entry, and
    // lands consistently.
    fs.file_seek(&mut early, SeekFrom::Start(0)).unwrap();
    fs.file_write(&mut early, &b"recovered".to_vec()).unwrap();
    assert_eq!(early.generation, fs.generation());

    let mut check = fs.open_file(&root, "/SHARED.TXT").unwrap();
    assert_eq!(fs.file_read(&mut check, 100).unwrap(), b"recovered".to_vec());
}

#[test]
fn flush_and_remount_reads_back() {
    let mut fs = fat16_volume();
    let root = fs.root_dir();
    let mut f = fs.create_file(&root, "/KEEP.DAT").unwrap();
    fs.file_write(&mut f, &b"survives the remount".to_vec()).unwrap();
    fs.file_flush(&mut f).unwrap();

    let disk = fs.unmount();
    let mut fs2 = FileSystem::mount(disk).unwrap();
    assert_eq!(fs2.generation(), 0);
    let root2 = fs2.root_dir();
    let mut g = fs2.open_file(&root2, "/KEEP.DAT").unwrap();
    let data = fs2.file_read(&mut g, 100).unwrap();
    assert_eq!(data, b"survives the remount".to_vec());
}

#[test]
fn directories_create_list_remove() {
    let mut fs = fat16_volume();
    let root = fs.root_dir();

    let _sub = fs.create_dir(&root, "/SUB").unwrap();
    let mut f = fs.create_file(&root, "/SUB/inner.txt").unwrap();
    fs.file_write(&mut f, &b"inside".to_vec()).unwrap();
    fs.file_flush(&mut f).unwrap();

    let mut g = fs.open_file(&root, "/SUB/inner.txt").unwrap();
    assert_eq!(fs.file_read(&mut g, 10).unwrap(), b"inside".to_vec());

    // A populated directory refuses removal; empty it first.
    assert!(matches!(fs.remove(&root, "/SUB"), Err(FsError::DirectoryNotEmpty)));
    fs.remove(&root, "/SUB/inner.txt").unwrap();
    fs.remove(&root, "/SUB").unwrap();
    assert!(matches!(fs.open_dir(&root, "/SUB"), Err(FsError::NotFound)));
}

#[test]
fn seek_variants() {
    let mut fs = small_volume();
    let root = fs.root_dir();
    let mut f = fs.create_file(&root, "/SEEK.BIN").unwrap();
    fs.file_write(&mut f, &vec![9u8; 100]).unwrap();

    assert_eq!(fs.file_seek(&mut f, SeekFrom::Start(10)).unwrap(), 10);
    assert_eq!(fs.file_seek(&mut f, SeekFrom::Current(-5)).unwrap(), 5);
    assert_eq!(fs.file_seek(&mut f, SeekFrom::End(-20)).unwrap(), 80);
    assert!(matches!(
        fs.file_seek(&mut f, SeekFrom::Current(-1000)),
        Err(FsError::InvalidInput)
    ));
    // A seek past the end then a write zero-fills the gap.
    assert_eq!(fs.file_seek(&mut f, SeekFrom::End(28)).unwrap(), 128);
    fs.file_write(&mut f, &b"x".to_vec()).unwrap();
    let mut g = fs.open_file(&root, "/SEEK.BIN").unwrap();
    assert_eq!(g.size, 129);
    let all = fs.file_read(&mut g, 200).unwrap();
    assert_eq!(all[99], 9);
    assert_eq!(all[100], 0);
    assert_eq!(all[127], 0);
    assert_eq!(all[128], b'x');
}

#[test]
fn no_space_reported_when_volume_fills() {
    let mut fs = format_volume(&FormatVolumeOptions::new(128)).unwrap();
    let cc = fs.bpb().cluster_count();
    // Claim every cluster, then one more must fail.
    for _ in 0..cc {
        fs.allocate_one().unwrap();
    }
    assert!(matches!(fs.allocate_one(), Err(FsError::NoSpace)));
}

#[test]
fn deleted_name_not_found_and_reusable() {
    let mut fs = fat16_volume();
    let root = fs.root_dir();
    let mut f = fs.create_file(&root, "/GONE.TXT").unwrap();
    fs.file_write(&mut f, &b"old".to_vec()).unwrap();
    fs.file_flush(&mut f).unwrap();
    fs.remove(&root, "/GONE.TXT").unwrap();
    assert!(matches!(fs.open_file(&root, "/GONE.TXT"), Err(FsError::NotFound)));

    let mut f2 = fs.create_file(&root, "/GONE.TXT").unwrap();
    fs.file_write(&mut f2, &b"new".to_vec()).unwrap();
    let mut g = fs.open_file(&root, "/GONE.TXT").unwrap();
    assert_eq!(fs.file_read(&mut g, 10).unwrap(), b"new".to_vec());
}

#[test]
fn create_duplicate_fails() {
    let mut fs = small_volume();
    let root = fs.root_dir();
    fs.create_file(&root, "/DUP.TXT").unwrap();
    assert!(matches!(
        fs.create_file(&root, "/DUP.TXT"),
        Err(FsError::AlreadyExists)
    ));
}

#[test]
fn fat12_volume_read_write() {
    let mut fs = small_volume();
    assert_eq!(fs.bpb().fat_type(), FatType::Fat12);
    let root = fs.root_dir();
    let mut f = fs.create_file(&root, "/ODD.BIN").unwrap();
    let payload: Vec<u8> = (0..=255u8).cycle().take(1500).collect();
    fs.file_write(&mut f, &payload).unwrap();
    fs.file_flush(&mut f).unwrap();

    let mut g = fs.open_file(&root, "/ODD.BIN").unwrap();
    assert_eq!(fs.file_read(&mut g, 1500).unwrap(), payload);
}

#[test]
fn cluster_ownership_invariant_holds_after_operations() {
    let mut fs = fat16_volume();
    let root = fs.root_dir();

    let mut a = fs.create_file(&root, "/ONE.TXT").unwrap();
    fs.file_write(&mut a, &vec![1u8; 3000]).unwrap();
    fs.file_flush(&mut a).unwrap();
    let _sub = fs.create_dir(&root, "/NEST").unwrap();
    let mut b = fs.create_file(&root, "/NEST/two.bin").unwrap();
    fs.file_write(&mut b, &vec![2u8; 700]).unwrap();
    fs.file_flush(&mut b).unwrap();
    fs.remove(&root, "/ONE.TXT").unwrap();

    // Every allocated cluster is owned by exactly one entry.
    fs.check_cluster_ownership().unwrap();
}

#[test]
fn cluster_ownership_detects_cross_link() {
    let mut fs = fat16_volume();
    let root = fs.root_dir();

    let mut a = fs.create_file(&root, "/A1.DAT").unwrap();
    fs.file_write(&mut a, &vec![1u8; 600]).unwrap();
    let mut b = fs.create_file(&root, "/B1.DAT").unwrap();
    fs.file_write(&mut b, &vec![2u8; 600]).unwrap();
    fs.check_cluster_ownership().unwrap();

    // Cross-link the two chains behind the directory layer's back.
    let a2 = fs.open_file(&root, "/A1.DAT").unwrap();
    let b2 = fs.open_file(&root, "/B1.DAT").unwrap();
    fs.fat_write(a2.first_cluster, b2.first_cluster);
    assert!(fs.check_cluster_ownership().is_err());
}

#[test]
fn mount_rejects_garbage() {
    let dev = BlockDevice::new(512, 64);
    // All zeros: no signature, no sane geometry.
    assert!(matches!(FileSystem::mount(dev), Err(FsError::Corrupted)));
}

#[test]
fn invalid_names_rejected() {
    let mut fs = small_volume();
    let root = fs.root_dir();
    assert!(matches!(fs.create_file(&root, "///"), Err(FsError::InvalidInput)));
    assert!(matches!(fs.open_file(&root, ""), Err(FsError::InvalidInput)));
}

#[test]
fn missing_intermediate_component_not_found() {
    let mut fs = small_volume();
    let root = fs.root_dir();
    assert!(matches!(
        fs.create_file(&root, "/NOPE/level.txt"),
        Err(FsError::NotFound)
    ));
    assert!(matches!(fs.open_dir(&root, "/NOPE"), Err(FsError::NotFound)));
}

#[test]
fn fixed_root_reports_directory_full() {
    let mut fs = small_volume();
    let root = fs.root_dir();
    // The fixed FAT12/16 root has 512 slots; plain 8.3 names use one each.
    let mut full = false;
    for i in 0..513 {
        let name = format!("/F{i:04}.TXT");
        match fs.create_file(&root, &name) {
            Ok(_) => {}
            Err(FsError::DirectoryFull) => {
                full = true;
                break;
            }
            Err(e) => panic!("unexpected error: {:?}", e),
        }
    }
    assert!(full);
}

#[test]
fn read_only_handle_refuses_mutation() {
    let mut fs = small_volume();
    let root = fs.root_dir();
    let mut f = fs.create_file(&root, "/RO.TXT").unwrap();
    fs.file_write(&mut f, &b"locked".to_vec()).unwrap();

    let mut ro = fs.open_file(&root, "/RO.TXT").unwrap();
    ro.read_only = true;
    assert!(matches!(
        fs.file_write(&mut ro, &b"nope".to_vec()),
        Err(FsError::InvalidInput)
    ));
    assert!(matches!(fs.file_truncate(&mut ro), Err(FsError::InvalidInput)));
    // Reading is still fine.
    assert_eq!(fs.file_read(&mut ro, 10).unwrap(), b"locked".to_vec());
}

#[test]
fn test_rename_to_same_name() {
    let mut fs = fat16_volume();
    let root = fs.root_dir();

    let mut file = fs.create_file(&root, "test.txt").unwrap();
    fs.file_write(&mut file, &b"content".to_vec()).unwrap();
    fs.file_flush(&mut file).unwrap();
    drop(file);

    // Renaming onto the very same name refuses the clash but changes
    // nothing; the file stays readable with its content.
    let _ = fs.rename(&root, "test.txt", &root, "test.txt");

    let mut file = fs.open_file(&root, "test.txt").unwrap();
    let buf = fs.file_read(&mut file, 10).unwrap();
    assert_eq!(buf, b"content".to_vec());
}

#[test]
fn test_multiple_sequential_renames() {
    let mut fs = fat16_volume();
    let root = fs.root_dir();

    let mut file = fs.create_file(&root, "original.txt").unwrap();
    fs.file_write(&mut file, &b"test data".to_vec()).unwrap();
    fs.file_flush(&mut file).unwrap();
    drop(file);

    fs.rename(&root, "original.txt", &root, "renamed1.txt").unwrap();
    fs.rename(&root, "renamed1.txt", &root, "renamed2.txt").unwrap();
    fs.rename(&root, "renamed2.txt", &root, "final.txt").unwrap();

    assert!(fs.open_file(&root, "original.txt").is_err());
    assert!(fs.open_file(&root, "renamed1.txt").is_err());
    assert!(fs.open_file(&root, "renamed2.txt").is_err());

    let mut file = fs.open_file(&root, "final.txt").unwrap();
    let buf = fs.file_read(&mut file, 10).unwrap();
    assert_eq!(buf, b"test data".to_vec());
}

#[test]
fn test_rename_fat16() {
    let mut fs = fat16_volume();
    assert_eq!(fs.bpb().fat_type(), FatType::Fat16);
    let root = fs.root_dir();

    let mut file = fs.create_file(&root, "fat16test.txt").unwrap();
    fs.file_write(&mut file, &b"fat16 content".to_vec()).unwrap();
    fs.file_flush(&mut file).unwrap();
    drop(file);

    fs.rename(&root, "fat16test.txt", &root, "fat16new.txt").unwrap();

    assert!(fs.open_file(&root, "fat16test.txt").is_err());
    let mut file = fs.open_file(&root, "fat16new.txt").unwrap();
    let buf = fs.file_read(&mut file, 20).unwrap();
    assert_eq!(buf, b"fat16 content".to_vec());
}

#[test]
fn test_multiple_truncates() {
    let mut fs = fat16_volume();
    let root = fs.root_dir();

    let mut file = fs.create_file(&root, "truncate.txt").unwrap();
    fs.file_write(&mut file, &b"initial content that is quite long".to_vec()).unwrap();
    fs.file_flush(&mut file).unwrap();

    fs.file_seek(&mut file, SeekFrom::Start(0)).unwrap();
    fs.file_truncate(&mut file).unwrap();
    fs.file_write(&mut file, &b"second".to_vec()).unwrap();
    fs.file_flush(&mut file).unwrap();

    fs.file_seek(&mut file, SeekFrom::Start(0)).unwrap();
    fs.file_truncate(&mut file).unwrap();
    fs.file_write(&mut file, &b"third".to_vec()).unwrap();
    fs.file_flush(&mut file).unwrap();

    fs.file_seek(&mut file, SeekFrom::Start(0)).unwrap();
    fs.file_truncate(&mut file).unwrap();
    fs.file_write(&mut file, &b"final".to_vec()).unwrap();
    fs.file_flush(&mut file).unwrap();
    drop(file);

    let mut file = fs.open_file(&root, "truncate.txt").unwrap();
    let buf = fs.file_read(&mut file, 50).unwrap();
    assert_eq!(buf, b"final".to_vec());
}

#[test]
fn test_truncate_empty_file() {
    let mut fs = fat16_volume();
    let root = fs.root_dir();

    let mut file = fs.create_file(&root, "empty.txt").unwrap();
    fs.file_flush(&mut file).unwrap();

    fs.file_truncate(&mut file).unwrap();
    fs.file_flush(&mut file).unwrap();

    fs.file_write(&mut file, &b"now has content".to_vec()).unwrap();
    fs.file_flush(&mut file).unwrap();
    drop(file);

    let mut file = fs.open_file(&root, "empty.txt").unwrap();
    let buf = fs.file_read(&mut file, 20).unwrap();
    assert_eq!(buf, b"now has content".to_vec());
}

#[test]
fn test_overwrite_middle_of_file() {
    let mut fs = fat16_volume();
    let root = fs.root_dir();

    let mut file = fs.create_file(&root, "overwrite.txt").unwrap();
    fs.file_write(&mut file, &b"AAAAAAAAAAAAAAAAAAAAAAAAAAAAAAAAAAAAAAAA".to_vec())
        .unwrap();
    fs.file_flush(&mut file).unwrap();
    drop(file);

    let mut file = fs.open_file(&root, "overwrite.txt").unwrap();
    fs.file_seek(&mut file, SeekFrom::Start(10)).unwrap();
    fs.file_write(&mut file, &b"BBBBBBBBBB".to_vec()).unwrap();
    fs.file_flush(&mut file).unwrap();
    drop(file);

    let mut file = fs.open_file(&root, "overwrite.txt").unwrap();
    let buf = fs.file_read(&mut file, 50).unwrap();
    assert_eq!(buf.len(), 40);
    assert_eq!(&buf[..10], b"AAAAAAAAAA");
    assert_eq!(&buf[10..20], b"BBBBBBBBBB");
    assert_eq!(&buf[20..40], b"AAAAAAAAAAAAAAAAAAAA");
}

#[test]
fn test_seek_to_zero() {
    let mut fs = fat16_volume();
    let root = fs.root_dir();

    let mut file = fs.create_file(&root, "seek.txt").unwrap();
    fs.file_write(&mut file, &b"0123456789".to_vec()).unwrap();
    fs.file_flush(&mut file).unwrap();

    fs.file_seek(&mut file, SeekFrom::Start(5)).unwrap();
    let pos = fs.file_seek(&mut file, SeekFrom::Start(0)).unwrap();
    assert_eq!(pos, 0);

    let buf = fs.file_read(&mut file, 10).unwrap();
    assert_eq!(buf, b"0123456789".to_vec());
}

#[test]
fn test_seek_current_negative() {
    let mut fs = fat16_volume();
    let root = fs.root_dir();

    let mut file = fs.create_file(&root, "seek_neg.txt").unwrap();
    fs.file_write(&mut file, &b"ABCDEFGHIJ".to_vec()).unwrap();
    fs.file_flush(&mut file).unwrap();

    fs.file_seek(&mut file, SeekFrom::End(0)).unwrap();
    let pos = fs.file_seek(&mut file, SeekFrom::Current(-5)).unwrap();
    assert_eq!(pos, 5);

    let buf = fs.file_read(&mut file, 5).unwrap();
    assert_eq!(buf, b"FGHIJ".to_vec());
}

#[test]
fn test_seek_from_end() {
    let mut fs = fat16_volume();
    let root = fs.root_dir();

    let mut file = fs.create_file(&root, "seek_end.txt").unwrap();
    fs.file_write(&mut file, &b"0123456789".to_vec()).unwrap();
    fs.file_flush(&mut file).unwrap();

    let pos = fs.file_seek(&mut file, SeekFrom::End(0)).unwrap();
    assert_eq!(pos, 10);

    let pos = fs.file_seek(&mut file, SeekFrom::End(-3)).unwrap();
    assert_eq!(pos, 7);

    let buf = fs.file_read(&mut file, 3).unwrap();
    assert_eq!(buf, b"789".to_vec());
}

#[test]
fn test_delete_and_recreate() {
    let mut fs = fat16_volume();
    let root = fs.root_dir();

    for cycle in 0..5 {
        let mut file = fs.create_file(&root, "cycle.txt").unwrap();
        let content = format!("cycle {}", cycle);
        fs.file_write(&mut file, &content.as_bytes().to_vec()).unwrap();
        fs.file_flush(&mut file).unwrap();
        drop(file);

        let mut file = fs.open_file(&root, "cycle.txt").unwrap();
        let buf = fs.file_read(&mut file, 20).unwrap();
        assert_eq!(buf, content.as_bytes().to_vec());
        drop(file);

        fs.remove(&root, "cycle.txt").unwrap();
        assert!(fs.open_file(&root, "cycle.txt").is_err());
    }
}

#[test]
fn test_delete_long_filename() {
    let mut fs = fat16_volume();
    let root = fs.root_dir();

    let long_name = "this_is_a_file_with_a_very_long_name_that_needs_lfn.txt";
    let mut file = fs.create_file(&root, long_name).unwrap();
    fs.file_write(&mut file, &b"long name file".to_vec()).unwrap();
    fs.file_flush(&mut file).unwrap();
    drop(file);

    fs.remove(&root, long_name).unwrap();
    assert!(fs.open_file(&root, long_name).is_err());

    let mut file = fs.create_file(&root, "short.txt").unwrap();
    fs.file_write(&mut file, &b"short".to_vec()).unwrap();
    fs.file_flush(&mut file).unwrap();
}

#[test]
fn test_generation_counter_starts_at_zero() {
    let fs = fat16_volume();
    let generation = fs.generation();
    assert_eq!(generation, 0, "New filesystem should start with generation 0");
}

#[test]
fn test_generation_doesnt_change_on_write() {
    let mut fs = fat16_volume();
    let root = fs.root_dir();

    let gen_before = fs.generation();

    for i in 0..5 {
        let filename = format!("file{}.txt", i);
        let mut file = fs.create_file(&root, &filename).unwrap();
        fs.file_write(&mut file, &b"some content".to_vec()).unwrap();
        fs.file_flush(&mut file).unwrap();
    }

    let gen_after = fs.generation();
    assert_eq!(
        gen_after, gen_before,
        "Generation should NOT increment when only allocating clusters"
    );
}

#[test]
fn test_write_two_files_no_corruption() {
    let mut fs = fat16_volume();
    let root = fs.root_dir();

    let mut file_a = fs.create_file(&root, "fileA.txt").unwrap();
    fs.file_write(&mut file_a, &b"Content from file A".to_vec()).unwrap();
    fs.file_flush(&mut file_a).unwrap();
    drop(file_a);

    let mut file_b = fs.create_file(&root, "fileB.txt").unwrap();
    fs.file_write(&mut file_b, &b"Content from file B".to_vec()).unwrap();
    fs.file_flush(&mut file_b).unwrap();
    drop(file_b);

    let mut file_a = fs.open_file(&root, "fileA.txt").unwrap();
    let size_a = file_a.size as usize;
    let buf = fs.file_read(&mut file_a, size_a).unwrap();
    assert_eq!(buf, b"Content from file A".to_vec(), "fileA.txt was corrupted!");

    let mut file_b = fs.open_file(&root, "fileB.txt").unwrap();
    let size_b = file_b.size as usize;
    let buf = fs.file_read(&mut file_b, size_b).unwrap();
    assert_eq!(buf, b"Content from file B".to_vec(), "fileB.txt has wrong content!");
}

#[test]
fn test_write_multiple_files_sequential() {
    let mut fs = fat16_volume();
    let root = fs.root_dir();

    for i in 0..5 {
        let filename = format!("file{}.txt", i);
        let content = format!("Content for file {}", i);

        let mut file = fs.create_file(&root, &filename).unwrap();
        fs.file_write(&mut file, &content.as_bytes().to_vec()).unwrap();
        fs.file_flush(&mut file).unwrap();
        drop(file);
    }

    for i in 0..5 {
        let filename = format!("file{}.txt", i);
        let expected_content = format!("Content for file {}", i);

        let mut file = fs.open_file(&root, &filename).unwrap();
        let size = file.size as usize;
        let buf = fs.file_read(&mut file, size).unwrap();

        assert_eq!(
            String::from_utf8_lossy(&buf),
            expected_content,
            "File {} was corrupted!",
            filename
        );
    }
}

#[test]
fn test_write_without_explicit_flush() {
    // The write path pushes the size update through the directory entry
    // synchronously, so dropping a handle without a flush loses nothing.
    let mut fs = fat16_volume();
    let root = fs.root_dir();

    {
        let mut file = fs.create_file(&root, "test.txt").unwrap();
        fs.file_write(&mut file, &b"Test content".to_vec()).unwrap();
    }

    let mut file = fs.open_file(&root, "test.txt").unwrap();
    let size = file.size as usize;
    let buf = fs.file_read(&mut file, size).unwrap();
    assert_eq!(buf, b"Test content".to_vec(), "File content incorrect");
}

#[test]
fn test_overwrite_existing_file() {
    let mut fs = fat16_volume();
    let root = fs.root_dir();

    let mut file = fs.create_file(&root, "overwrite.txt").unwrap();
    fs.file_write(&mut file, &b"Initial content that is quite long".to_vec()).unwrap();
    fs.file_flush(&mut file).unwrap();
    drop(file);

    let mut file = fs.open_file(&root, "overwrite.txt").unwrap();
    fs.file_seek(&mut file, SeekFrom::Start(0)).unwrap();
    fs.file_write(&mut file, &b"Short".to_vec()).unwrap();
    fs.file_truncate(&mut file).unwrap();
    fs.file_flush(&mut file).unwrap();
    drop(file);

    let mut file = fs.open_file(&root, "overwrite.txt").unwrap();
    let size = file.size as usize;
    let buf = fs.file_read(&mut file, size).unwrap();
    assert_eq!(buf, b"Short".to_vec(), "File was not properly overwritten");
}

#[test]
fn test_directory_entry_size_updated() {
    let mut fs = fat16_volume();
    let root = fs.root_dir();

    let mut file = fs.create_file(&root, "sized.txt").unwrap();
    fs.file_write(&mut file, &b"Exactly 25 characters!!".to_vec()).unwrap();
    fs.file_flush(&mut file).unwrap();
    drop(file);

    let entries = fs.list_dir(&root).unwrap();
    let mut found = false;
    for entry in &entries {
        if String::from_utf16_lossy(&entry.name) == "sized.txt" {
            assert_eq!(entry.sfn.size, 23, "Directory entry size is wrong");
            found = true;
            break;
        }
    }

    assert!(found, "File not found in directory");
}

#[test]
fn test_concurrent_file_handles() {
    let mut fs = fat16_volume();
    let root = fs.root_dir();

    let mut file_a = fs.create_file(&root, "concurrent_a.txt").unwrap();
    let mut file_b = fs.create_file(&root, "concurrent_b.txt").unwrap();

    fs.file_write(&mut file_a, &b"AAA".to_vec()).unwrap();
    fs.file_write(&mut file_b, &b"BBB".to_vec()).unwrap();
    fs.file_write(&mut file_a, &b"AAA".to_vec()).unwrap();
    fs.file_write(&mut file_b, &b"BBB".to_vec()).unwrap();

    fs.file_flush(&mut file_a).unwrap();
    fs.file_flush(&mut file_b).unwrap();
    drop(file_a);
    drop(file_b);

    let mut file_a = fs.open_file(&root, "concurrent_a.txt").unwrap();
    let size_a = file_a.size as usize;
    let buf_a = fs.file_read(&mut file_a, size_a).unwrap();
    assert_eq!(buf_a, b"AAAAAA".to_vec(), "File A corrupted");

    let mut file_b = fs.open_file(&root, "concurrent_b.txt").unwrap();
    let size_b = file_b.size as usize;
    let buf_b = fs.file_read(&mut file_b, size_b).unwrap();
    assert_eq!(buf_b, b"BBBBBB".to_vec(), "File B corrupted");
}

#[test]
fn test_rename_in_nested_directory() {
    let mut fs = fat16_volume();
    let root = fs.root_dir();

    fs.create_dir(&root, "level1").unwrap();
    let level1 = fs.open_dir(&root, "level1").unwrap();
    fs.create_dir(&level1, "level2").unwrap();
    let level2 = fs.open_dir(&level1, "level2").unwrap();

    let mut file = fs.create_file(&level2, "nested.txt").unwrap();
    fs.file_write(&mut file, &b"nested content".to_vec()).unwrap();
    fs.file_flush(&mut file).unwrap();
    drop(file);

    fs.rename(&level2, "nested.txt", &level2, "renamed.txt").unwrap();

    assert!(fs.open_file(&level2, "nested.txt").is_err());

    let mut file = fs.open_file(&level2, "renamed.txt").unwrap();
    let buf = fs.file_read(&mut file, 20).unwrap();
    assert_eq!(buf, b"nested content".to_vec());
}

#[test]
fn test_truncate_then_large_write() {
    let mut fs = fat16_volume();
    let root = fs.root_dir();

    let mut file = fs.create_file(&root, "large.txt").unwrap();
    fs.file_write(&mut file, &vec![0xAA; 10000]).unwrap();
    fs.file_flush(&mut file).unwrap();

    fs.file_seek(&mut file, SeekFrom::Start(0)).unwrap();
    fs.file_truncate(&mut file).unwrap();

    let large_data = vec![0xBB; 100000];
    fs.file_write(&mut file, &large_data).unwrap();
    fs.file_flush(&mut file).unwrap();
    drop(file);

    let mut file = fs.open_file(&root, "large.txt").unwrap();
    let size = fs.file_seek(&mut file, SeekFrom::End(0)).unwrap();
    assert_eq!(size, 100000);

    fs.file_seek(&mut file, SeekFrom::Start(0)).unwrap();
    let buf = fs.file_read(&mut file, 100000).unwrap();
    assert_eq!(buf.len(), 100000);
    assert!(buf.iter().all(|&b| b == 0xBB));
}

#[test]
fn test_write_at_cluster_boundary() {
    let mut fs = fat16_volume();
    let root = fs.root_dir();

    let cluster_size = fs.bpb().bytes_per_cluster() as usize;

    let mut file = fs.create_file(&root, "boundary.txt").unwrap();
    let data1 = vec![0xAA; cluster_size];
    fs.file_write(&mut file, &data1).unwrap();
    fs.file_flush(&mut file).unwrap();

    let data2 = vec![0xBB; cluster_size];
    fs.file_write(&mut file, &data2).unwrap();
    fs.file_flush(&mut file).unwrap();
    drop(file);

    let mut file = fs.open_file(&root, "boundary.txt").unwrap();
    let size = fs.file_seek(&mut file, SeekFrom::End(0)).unwrap();
    assert_eq!(size, (cluster_size * 2) as u64);

    fs.file_seek(&mut file, SeekFrom::Start(0)).unwrap();
    let buf = fs.file_read(&mut file, cluster_size * 2).unwrap();
    assert_eq!(buf.len(), cluster_size * 2);
    assert!(buf[..cluster_size].iter().all(|&b| b == 0xAA));
    assert!(buf[cluster_size..].iter().all(|&b| b == 0xBB));
}

#[test]
fn test_many_small_writes() {
    let mut fs = fat16_volume();
    let root = fs.root_dir();

    let mut file = fs.create_file(&root, "small.txt").unwrap();

    for i in 0..1000 {
        fs.file_write(&mut file, &vec![i as u8]).unwrap();
    }
    fs.file_flush(&mut file).unwrap();
    drop(file);

    let mut file = fs.open_file(&root, "small.txt").unwrap();
    let size = fs.file_seek(&mut file, SeekFrom::End(0)).unwrap();
    assert_eq!(size, 1000);

    fs.file_seek(&mut file, SeekFrom::Start(0)).unwrap();
    let buf = fs.file_read(&mut file, 1000).unwrap();
    assert_eq!(buf.len(), 1000);
    for (i, &byte) in buf.iter().enumerate() {
        assert_eq!(byte, i as u8, "Mismatch at position {}", i);
    }
}

#[test]
fn test_interleaved_file_operations() {
    let mut fs = fat16_volume();
    let root = fs.root_dir();

    let mut file_a = fs.create_file(&root, "file_a.txt").unwrap();
    let mut file_b = fs.create_file(&root, "file_b.txt").unwrap();
    let mut file_c = fs.create_file(&root, "file_c.txt").unwrap();

    for i in 0..100 {
        fs.file_write(&mut file_a, &format!("A{}", i).as_bytes().to_vec()).unwrap();
        fs.file_write(&mut file_b, &format!("B{}", i).as_bytes().to_vec()).unwrap();
        fs.file_write(&mut file_c, &format!("C{}", i).as_bytes().to_vec()).unwrap();
    }

    fs.file_flush(&mut file_a).unwrap();
    fs.file_flush(&mut file_b).unwrap();
    fs.file_flush(&mut file_c).unwrap();
    drop(file_a);
    drop(file_b);
    drop(file_c);

    let mut file_a = fs.open_file(&root, "file_a.txt").unwrap();
    let buf = fs.file_read(&mut file_a, 1000).unwrap();
    let content_a = String::from_utf8_lossy(&buf);
    assert!(content_a.starts_with("A0A1A2"));

    let mut file_b = fs.open_file(&root, "file_b.txt").unwrap();
    let buf = fs.file_read(&mut file_b, 1000).unwrap();
    let content_b = String::from_utf8_lossy(&buf);
    assert!(content_b.starts_with("B0B1B2"));

    let mut file_c = fs.open_file(&root, "file_c.txt").unwrap();
    let buf = fs.file_read(&mut file_c, 1000).unwrap();
    let content_c = String::from_utf8_lossy(&buf);
    assert!(content_c.starts_with("C0C1C2"));
}

#[test]
fn test_create_many_small_files() {
    let mut fs = fat16_volume();
    let root = fs.root_dir();

    let file_count = 100;
    for i in 0..file_count {
        let name = format!("f{:05}.txt", i);
        let mut file = fs.create_file(&root, &name).unwrap();
        let content = format!("content{}", i);
        fs.file_write(&mut file, &content.as_bytes().to_vec()).unwrap();
        fs.file_flush(&mut file).unwrap();
    }

    for i in 0..file_count {
        let name = format!("f{:05}.txt", i);
        let mut file = fs.open_file(&root, &name).unwrap();
        let buf = fs.file_read(&mut file, 20).unwrap();
        let expected = format!("content{}", i);
        assert_eq!(buf, expected.as_bytes().to_vec(), "File {} content mismatch", name);
    }
}
