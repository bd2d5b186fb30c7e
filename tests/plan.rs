use std::io::Cursor;

use dir2img::gpt_disk::place_gpt_partition;
use dir2img::plan::{
    gpt_total_size, plan_bare, plan_gpt, plan_mbr, protective_mbr_sectors, PartitionPlan, PartitionTable, PlanError,
    BOOT_INDICATOR_ACTIVE, BOOT_INDICATOR_INACTIVE, EFI_SYSTEM_TYPE, MBR_MAX_PAYLOAD,
};

fn contained(p: &PartitionPlan, payload: u64) -> bool {
    p.partition_start_offset + p.partition_length <= p.total_image_size && p.partition_length >= payload
}

const PAYLOADS: [u64; 8] = [1, 511, 512, 513, 4096, 100000, 30360, MBR_MAX_PAYLOAD];

#[test]
fn bare_plan_is_the_whole_image() {
    let p = plan_bare(30360, true);
    assert_eq!(
        p,
        PartitionPlan {
            table: PartitionTable::NoTable,
            total_image_size: 30360,
            partition_start_offset: 0,
            partition_length: 30360,
            bootable: true,
        }
    );
    assert_eq!(p.mbr_entry(), None);
}

#[test]
fn mbr_plan_rounds_to_sectors_after_the_table() {
    let p = plan_mbr(1000, false).unwrap();
    assert_eq!(p.table, PartitionTable::Mbr);
    assert_eq!(p.partition_start_offset, 512);
    assert_eq!(p.partition_length, 1024);
    assert_eq!(p.total_image_size, 1536);
    let e = p.mbr_entry().unwrap();
    assert_eq!((e.starting_lba, e.sectors, e.sys), (1, 2, EFI_SYSTEM_TYPE));
}

#[test]
fn mbr_plan_refuses_what_cannot_be_placed() {
    assert_eq!(plan_mbr(0, false), Err(PlanError::NoPlacement));
    assert_eq!(plan_mbr(MBR_MAX_PAYLOAD + 1, false), Err(PlanError::NoPlacement));
    assert_eq!(plan_mbr(u64::MAX, true), Err(PlanError::NoPlacement));
    assert!(plan_mbr(MBR_MAX_PAYLOAD, true).is_ok());
}

#[test]
fn plans_contain_the_payload() {
    for &n in PAYLOADS.iter() {
        assert!(contained(&plan_bare(n, false), n));
        let p = plan_mbr(n, false).unwrap();
        assert!(contained(&p, n));
        assert_eq!(p.partition_start_offset % 512, 0);
        assert_eq!(p.partition_length % 512, 0);
    }
}

#[test]
fn mbr_boot_flag_follows_bootable() {
    assert_eq!(plan_mbr(5000, true).unwrap().mbr_entry().unwrap().boot, BOOT_INDICATOR_ACTIVE);
    assert_eq!(plan_mbr(5000, false).unwrap().mbr_entry().unwrap().boot, BOOT_INDICATOR_INACTIVE);
    assert_eq!(BOOT_INDICATOR_ACTIVE, mbrman::BOOT_ACTIVE);
    assert_eq!(BOOT_INDICATOR_INACTIVE, mbrman::BOOT_INACTIVE);
}

#[test]
fn mbr_table_written_from_plan_keeps_boot_flag() {
    for bootable in [true, false] {
        let plan = plan_mbr(5000, bootable).unwrap();
        let e = plan.mbr_entry().unwrap();
        let mut disk = Cursor::new(vec![0u8; plan.total_image_size as usize]);
        let mut mbr = mbrman::MBR::new_from(&mut disk, 512, [0xff; 4]).unwrap();
        mbr.align = 1;
        assert_eq!(mbr.find_optimal_place(e.sectors), Some(e.starting_lba));
        mbr[1] = mbrman::MBRPartitionEntry {
            boot: e.boot,
            first_chs: mbrman::CHS::empty(),
            sys: e.sys,
            last_chs: mbrman::CHS::empty(),
            starting_lba: e.starting_lba,
            sectors: e.sectors,
        };
        mbr.write_into(&mut disk).unwrap();
        let back = mbrman::MBR::read_from(&mut disk, 512).unwrap();
        assert_eq!(back[1].boot == mbrman::BOOT_ACTIVE, bootable);
        assert_eq!(back[1].sys, 0xef);
    }
}

#[test]
fn gpt_sizes() {
    assert_eq!(gpt_total_size(30360), Ok(30360 + 131072));
    assert_eq!(gpt_total_size(u64::MAX), Err(PlanError::TooLarge));
    assert_eq!(protective_mbr_sectors(1024), 1);
    assert_eq!(protective_mbr_sectors(u64::MAX), u32::MAX);
}

#[test]
fn gpt_plan_checks_the_assigned_region() {
    let total = 30720 + 131072;
    let p = plan_gpt(30720, 17408, 30720, false).unwrap();
    assert_eq!(p.total_image_size, total);
    assert_eq!((p.partition_start_offset, p.partition_length), (17408, 30720));
    assert_eq!(plan_gpt(30720, 17408, 30208, false), Err(PlanError::NoPlacement));
    assert_eq!(plan_gpt(30720, 17409, 30720, false), Err(PlanError::NoPlacement));
    assert_eq!(plan_gpt(30720, total - 512, 30720, false), Err(PlanError::NoPlacement));
    assert_eq!(plan_gpt(u64::MAX, 0, 512, false), Err(PlanError::TooLarge));
}

#[test]
fn gpt_allocation_fits_the_plan() {
    for &payload in [30360u64, 4096, 100000].iter() {
        let total = gpt_total_size(payload).unwrap();
        let mut disk = Cursor::new(vec![0u8; total as usize]);
        gpt::mbr::ProtectiveMBR::with_lb_size(protective_mbr_sectors(total)).overwrite_lba0(&mut disk).unwrap();
        let mut g = gpt::GptConfig::default()
            .initialized(false)
            .writable(true)
            .logical_block_size(gpt::disk::LogicalBlockSize::Lb512)
            .create_from_device(Box::new(disk), None)
            .unwrap();
        g.update_partitions(std::collections::BTreeMap::new()).unwrap();
        let plan = place_gpt_partition(&mut g, payload, false).unwrap();
        assert_eq!(plan.table, PartitionTable::Gpt);
        assert_eq!(plan.total_image_size, total);
        // the allocator rounds the payload up to whole blocks
        assert_eq!(plan.partition_length, (payload + 511) / 512 * 512);
        assert_eq!(plan.partition_start_offset % 512, 0);
        assert!(contained(&plan, payload));
    }
}

#[test]
fn gpt_placement_refuses_empty_payload() {
    let total = gpt_total_size(0).unwrap();
    let disk = Cursor::new(vec![0u8; total as usize]);
    let mut g = gpt::GptConfig::default()
        .initialized(false)
        .writable(true)
        .logical_block_size(gpt::disk::LogicalBlockSize::Lb512)
        .create_from_device(Box::new(disk), None)
        .unwrap();
    g.update_partitions(std::collections::BTreeMap::new()).unwrap();
    assert_eq!(place_gpt_partition(&mut g, 0, false), Err(PlanError::NoPlacement));
}
