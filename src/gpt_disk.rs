use vstd::prelude::*;
use crate::plan::{contains_payload, gpt_plan, plan_gpt, sector_aligned, PartitionPlan, PlanError};

verus! {

#[verifier::external_type_specification]
#[verifier::external_body]
pub struct ExGptDisk<'a>(gpt::GptDisk<'a>);

#[verifier::external_type_specification]
#[verifier::external_body]
pub struct ExIoError(std::io::Error);

/// Relies on gpt::GptDisk::add_partition: it allocates `size` bytes, rounded
/// up to whole blocks, in the first free region that holds them, and refuses
/// a size of zero.
#[verifier::external_body]
fn add_efi_partition(disk: &mut gpt::GptDisk, name: &str, size: u64) -> (r: Result<u32, std::io::Error>)
    ensures
        size == 0 ==> r is Err,
{
    disk.add_partition(name, size, gpt::partition_types::EFI, 0, None)
}

/// Relies on gpt::GptDisk::logical_block_size and gpt::GptDisk::partitions,
/// and on gpt::partition::Partition::bytes_start and bytes_len: the byte
/// region of partition `id`, if the table has it. Nothing is claimed of it.
#[verifier::external_body]
fn partition_region(disk: &gpt::GptDisk, id: u32) -> (r: Option<(u64, u64)>)
{
    let lb_size = *disk.logical_block_size();
    let part = disk.partitions().get(&id)?;
    Some((part.bytes_start(lb_size).ok()?, part.bytes_len(lb_size).ok()?))
}

/// Adds the filesystem's partition to a fresh GUID partition table and plans
/// the image around the region the table's allocator assigned to it.
/// Whatever the allocator chose, a plan that comes back is one `plan_gpt`
/// accepts: whole sectors, no smaller than the payload, inside the image.
pub fn place_gpt_partition(disk: &mut gpt::GptDisk, payload: u64, bootable: bool) -> (r: Result<PartitionPlan, PlanError>)
    ensures
        r matches Ok(p) ==> (exists|start: u64, len: u64| gpt_plan(payload, start, len, bootable) == Ok::<PartitionPlan, PlanError>(p)),
        r matches Ok(p) ==> contains_payload(p, payload as nat) && sector_aligned(p),
        payload == 0 ==> r is Err,
{
    let id = match add_efi_partition(disk, "EFI", payload) {
        Ok(id) => id,
        Err(_) => return Err(PlanError::NoPlacement),
    };
    match partition_region(disk, id) {
        Some((start, len)) => {
            let r = plan_gpt(payload, start, len, bootable);
            proof {
                crate::plan::partition_containment(payload, bootable, start, len);
            }
            r
        },
        None => Err(PlanError::NoPlacement),
    }
}

} // verus!
