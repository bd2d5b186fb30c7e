use vstd::prelude::*;
use crate::estimate::estimated;
use crate::tree::{Entry, entries_view, walked};

verus! {

/// Bytes of one sector of the image.
pub const SECTOR_BYTES: u64 = 512;
/// Bytes a GUID partition table adds to the image: protective MBR, headers and
/// both partition-entry arrays.
pub const GPT_OVERHEAD_BYTES: u64 = 131072;
/// Largest payload an MBR partition can take: the sector count fits in 32
/// bits with the table's own sector before it.
pub const MBR_MAX_PAYLOAD: u64 = 4294967294 * 512;
/// Boot indicator of an active MBR partition.
pub const BOOT_INDICATOR_ACTIVE: u8 = 128;
/// Boot indicator of an inactive MBR partition.
pub const BOOT_INDICATOR_INACTIVE: u8 = 0;
/// MBR partition type of an EFI system partition.
pub const EFI_SYSTEM_TYPE: u8 = 239;
/// Sector alignment of the single MBR partition.
pub const MBR_ALIGN_SECTORS: u32 = 1;

/// The partition table wrapped around the filesystem.
#[derive(Debug, Clone, Copy, PartialEq, Eq, Structural)]
pub enum PartitionTable {
    Gpt,
    Mbr,
    NoTable,
}

/// Where the filesystem goes in the image, and how large the image is.
#[derive(Debug, Clone, Copy, PartialEq, Eq, Structural)]
pub struct PartitionPlan {
    pub table: PartitionTable,
    pub total_image_size: u64,
    pub partition_start_offset: u64,
    pub partition_length: u64,
    pub bootable: bool,
}

/// Why no partition could be placed.
#[derive(Debug, Clone, Copy, PartialEq, Eq, Structural)]
pub enum PlanError {
    /// No place in the table holds a partition of the requested size.
    NoPlacement,
    /// The image size does not fit in 64 bits.
    TooLarge,
}

/// The values of the single entry of an MBR partition table.
#[derive(Debug, Clone, Copy, PartialEq, Eq, Structural)]
pub struct MbrEntry {
    pub boot: u8,
    pub sys: u8,
    pub starting_lba: u32,
    pub sectors: u32,
}

/// `n` rounded up to whole sectors.
pub open spec fn round_to_sector(n: nat) -> nat {
    ((n + 511) / 512) * 512
}

/// The partition lies in the image and is no smaller than the payload.
pub open spec fn contains_payload(p: PartitionPlan, payload: nat) -> bool {
    &&& p.partition_start_offset + p.partition_length <= p.total_image_size
    &&& p.partition_length >= payload
}

/// Start and length of the partition are whole sectors.
pub open spec fn sector_aligned(p: PartitionPlan) -> bool {
    &&& p.partition_start_offset % 512 == 0
    &&& p.partition_length % 512 == 0
}

pub open spec fn bare_plan(payload: u64, bootable: bool) -> PartitionPlan {
    PartitionPlan {
        table: PartitionTable::NoTable,
        total_image_size: payload,
        partition_start_offset: 0,
        partition_length: payload,
        bootable,
    }
}

/// The MBR layout: the table's sector, then the payload rounded up to sectors.
pub open spec fn mbr_plan(payload: u64, bootable: bool) -> Result<PartitionPlan, PlanError> {
    if 0 < payload <= MBR_MAX_PAYLOAD {
        let len = round_to_sector(payload as nat);
        Ok(PartitionPlan {
            table: PartitionTable::Mbr,
            total_image_size: (len + 512) as u64,
            partition_start_offset: 512,
            partition_length: len as u64,
            bootable,
        })
    } else {
        Err(PlanError::NoPlacement)
    }
}

/// Image size for a GUID partition table around `payload` bytes.
pub open spec fn gpt_image_size(payload: u64) -> nat {
    (payload + GPT_OVERHEAD_BYTES) as nat
}

/// The GPT layout, given the region the table's allocator assigned.
pub open spec fn gpt_plan(payload: u64, start: u64, len: u64, bootable: bool) -> Result<PartitionPlan, PlanError> {
    if gpt_image_size(payload) > u64::MAX {
        Err(PlanError::TooLarge)
    } else if start % 512 == 0 && len % 512 == 0 && len >= payload && start + len <= gpt_image_size(payload) {
        Ok(PartitionPlan {
            table: PartitionTable::Gpt,
            total_image_size: gpt_image_size(payload) as u64,
            partition_start_offset: start,
            partition_length: len,
            bootable,
        })
    } else {
        Err(PlanError::NoPlacement)
    }
}

/// Relies on mbrman::MBR::find_optimal_place for a table with no partition
/// in use, as mbrman::MBR::new_from makes it, on a disk of `disk_sectors`
/// sectors: the one free region starts at sector `align` and ends with the
/// disk, so a partition of `sectors` sectors goes at `align` when it fits.
#[verifier::external_body]
fn optimal_start(sector_size: u32, disk_sectors: u32, align: u32, sectors: u32) -> (r: Option<u32>)
    requires
        disk_sectors >= 1,
        align >= 1,
    ensures
        r == (if disk_sectors > align && sectors <= disk_sectors - align {
            Some(align)
        } else {
            None::<u32>
        }),
{
    let mbr = mbrman::MBR {
        sector_size,
        header: mbrman::MBRHeader::new([255; 4]),
        logical_partitions: Vec::new(),
        align,
        cylinders: 0,
        heads: 0,
        sectors: 0,
        disk_size: disk_sectors,
    };
    mbr.find_optimal_place(sectors)
}

/// The plan without a partition table: the filesystem is the whole image.
pub fn plan_bare(payload: u64, bootable: bool) -> (r: PartitionPlan)
    ensures
        r == bare_plan(payload, bootable),
{
    PartitionPlan {
        table: PartitionTable::NoTable,
        total_image_size: payload,
        partition_start_offset: 0,
        partition_length: payload,
        bootable,
    }
}

/// The plan under an MBR: the payload is rounded up to whole sectors, one
/// sector is added for the table, and the partition is placed as early as
/// sector alignment allows.
pub fn plan_mbr(payload: u64, bootable: bool) -> (r: Result<PartitionPlan, PlanError>)
    ensures
        r == mbr_plan(payload, bootable),
{
    if payload > MBR_MAX_PAYLOAD {
        return Err(PlanError::NoPlacement);
    }
    let rounded: u64 = (payload + 511) / 512 * 512;
    let total: u64 = rounded + 512;
    let sectors: u64 = rounded / 512;
    let disk_sectors: u32 = (total / 512) as u32;
    assert(sectors <= 4294967294);
    assert(disk_sectors == sectors + 1);
    match optimal_start(SECTOR_BYTES as u32, disk_sectors, MBR_ALIGN_SECTORS, sectors as u32) {
        None => Err(PlanError::NoPlacement),
        Some(lba) => Ok(PartitionPlan {
            table: PartitionTable::Mbr,
            total_image_size: total,
            partition_start_offset: lba as u64 * 512,
            partition_length: sectors * 512,
            bootable,
        }),
    }
}

/// Size of the image to allocate before a GUID partition table is written
/// into it: the payload and the table's fixed overhead.
pub fn gpt_total_size(payload: u64) -> (r: Result<u64, PlanError>)
    ensures
        match r {
            Ok(v) => v == gpt_image_size(payload),
            Err(err) => err == PlanError::TooLarge && gpt_image_size(payload) > u64::MAX,
        },
{
    if payload > u64::MAX - GPT_OVERHEAD_BYTES {
        Err(PlanError::TooLarge)
    } else {
        Ok(payload + GPT_OVERHEAD_BYTES)
    }
}

/// Sector count recorded in the protective MBR of an image of `total` bytes:
/// every sector after the first, or the largest 32-bit count.
pub fn protective_mbr_sectors(total: u64) -> (r: u32)
    requires
        total >= 512,
    ensures
        r == (if total / 512 - 1 > u32::MAX { u32::MAX as int } else { total / 512 - 1 }),
{
    let n: u64 = total / 512 - 1;
    if n > u32::MAX as u64 {
        u32::MAX
    } else {
        n as u32
    }
}

/// The plan under a GUID partition table, from the byte region the table's
/// allocator assigned to the partition. The region is accepted when it is
/// whole sectors, holds the payload, and lies inside the image.
pub fn plan_gpt(payload: u64, assigned_start: u64, assigned_len: u64, bootable: bool) -> (r: Result<PartitionPlan, PlanError>)
    ensures
        r == gpt_plan(payload, assigned_start, assigned_len, bootable),
{
    let total = match gpt_total_size(payload) {
        Ok(v) => v,
        Err(err) => return Err(err),
    };
    if assigned_start % 512 == 0 && assigned_len % 512 == 0 && assigned_len >= payload
        && assigned_start as u128 + assigned_len as u128 <= total as u128 {
        Ok(PartitionPlan {
            table: PartitionTable::Gpt,
            total_image_size: total,
            partition_start_offset: assigned_start,
            partition_length: assigned_len,
            bootable,
        })
    } else {
        Err(PlanError::NoPlacement)
    }
}

/// What the single MBR entry of a plan records.
pub open spec fn mbr_entry_of(p: PartitionPlan) -> Option<MbrEntry> {
    if p.table == PartitionTable::Mbr && sector_aligned(p) && p.partition_start_offset / 512
        <= u32::MAX && p.partition_length / 512 <= u32::MAX {
        Some(MbrEntry {
            boot: if p.bootable { BOOT_INDICATOR_ACTIVE } else { BOOT_INDICATOR_INACTIVE },
            sys: EFI_SYSTEM_TYPE,
            starting_lba: (p.partition_start_offset / 512) as u32,
            sectors: (p.partition_length / 512) as u32,
        })
    } else {
        None
    }
}

impl PartitionPlan {
    /// The entry an MBR plan writes into its table: the boot indicator set
    /// exactly when the plan is bootable, the EFI system type, and the
    /// partition's place in sectors. `None` for a plan of another table.
    pub fn mbr_entry(&self) -> (r: Option<MbrEntry>)
        ensures
            r == mbr_entry_of(*self),
    {
        if self.table == PartitionTable::Mbr && self.partition_start_offset % 512 == 0
            && self.partition_length % 512 == 0 && self.partition_start_offset / 512 <= u32::MAX as u64
            && self.partition_length / 512 <= u32::MAX as u64 {
            Some(MbrEntry {
                boot: if self.bootable { BOOT_INDICATOR_ACTIVE } else { BOOT_INDICATOR_INACTIVE },
                sys: EFI_SYSTEM_TYPE,
                starting_lba: (self.partition_start_offset / 512) as u32,
                sectors: (self.partition_length / 512) as u32,
            })
        } else {
            None
        }
    }
}

/// Every plan keeps the partition inside the image and at least as large as
/// the payload; under a partition table the partition is whole sectors.
pub proof fn partition_containment(payload: u64, bootable: bool, assigned_start: u64, assigned_len: u64)
    ensures
        contains_payload(bare_plan(payload, bootable), payload as nat),
        mbr_plan(payload, bootable) matches Ok(p) ==> contains_payload(p, payload as nat) && sector_aligned(p),
        gpt_plan(payload, assigned_start, assigned_len, bootable) matches Ok(p) ==> contains_payload(p, payload as nat)
            && sector_aligned(p),
{
    if 0 < payload <= MBR_MAX_PAYLOAD {
        let len = round_to_sector(payload as nat);
        assert(len >= payload && len % 512 == 0) by (nonlinear_arith)
            requires
                len == ((payload + 511) / 512) * 512,
        ;
    }
}

/// Under an MBR, the single entry's boot indicator is set exactly when the
/// image is bootable.
pub proof fn mbr_boot_flag(payload: u64, bootable: bool)
    requires
        0 < payload <= MBR_MAX_PAYLOAD,
    ensures
        mbr_plan(payload, bootable) matches Ok(p) && mbr_entry_of(p) matches Some(e) && (e.boot
            == BOOT_INDICATOR_ACTIVE) == bootable && e.boot == (if bootable { BOOT_INDICATOR_ACTIVE } else { BOOT_INDICATOR_INACTIVE })
            && e.sys == EFI_SYSTEM_TYPE,
{
    partition_containment(payload, bootable, 0, 0);
    let len = round_to_sector(payload as nat);
    assert(len <= MBR_MAX_PAYLOAD);
}

/// Two scans of the same tree with the same link policy give the same
/// estimate; the plans built on it are spec functions of their arguments, so
/// the same configuration lays the image out the same way.
pub proof fn layout_is_determined(a: Seq<Entry>, b: Seq<Entry>, follow_symlinks: bool)
    requires
        entries_view(a) == entries_view(b),
    ensures
        estimated(walked(entries_view(a), follow_symlinks)) == estimated(walked(entries_view(b), follow_symlinks)),
{
}

} // verus!
