//! Writes of one process to the memory of another.
use vstd::prelude::*;

verus! {

/// A write that may change the command line of another process.
#[derive(Debug)]
pub struct SuspiciousMemoryWrite {
    /// The process that was written to.
    pub target_pid: u32,
    /// The process that wrote.
    pub source_pid: u32,
    /// The name of the process that wrote.
    pub source_process: String,
    /// Where it wrote.
    pub target_address: u64,
    /// How much it wrote.
    pub write_size: usize,
    /// Whether it wrote to the process parameters.
    pub targets_process_parameters: bool,
    /// Whether it wrote to the command line.
    pub targets_cmdline_buffer: bool,
    /// When it wrote, in milliseconds.
    pub timestamp_ms: u64,
}

/// Whether some address lies both in a write and in a block, each given by where
/// it begins and how long it is.
pub open spec fn overlaps(block: (u64, u64), address: u64, size: usize) -> bool {
    block.1 > 0 && size > 0 && address < block.0 + block.1 && block.0 < address + size
}

/// Whether a write falls into the process parameters of a process. They are given
/// by where they begin and how long they are; nothing falls into them where they
/// were not found.
pub fn is_process_parameters_region(block: Option<(u64, u64)>, address: u64, size: usize) -> (r:
    bool)
    ensures
        r == (block matches Some(b) && overlaps(b, address, size)),
{
    match block {
        Some((start, len)) => len > 0 && size > 0 && (address as u128) < start as u128 + len as u128
            && (start as u128) < address as u128 + size as u128,
        None => false,
    }
}

/// Judges a write of one process to the memory of another. The name of the writer
/// is that of the process that wrote. `targets_params` says whether the process
/// parameters were hit: a process may write to its own, and a write elsewhere is
/// of no interest.
pub fn judge_write(
    target_pid: u32,
    source_pid: u32,
    source_process: String,
    address: u64,
    size: usize,
    targets_params: bool,
    now: u64,
) -> (r: Option<SuspiciousMemoryWrite>)
    ensures
        r is Some <==> target_pid != source_pid && targets_params,
        r matches Some(w) ==> {
            &&& w.target_pid == target_pid
            &&& w.source_pid == source_pid
            &&& w.source_process@ == source_process@
            &&& w.target_address == address
            &&& w.write_size == size
            &&& w.targets_process_parameters
            &&& !w.targets_cmdline_buffer
            &&& w.timestamp_ms == now
        },
{
    if target_pid == source_pid || !targets_params {
        return None;
    }
    Some(
        SuspiciousMemoryWrite {
            target_pid,
            source_pid,
            source_process,
            target_address: address,
            write_size: size,
            targets_process_parameters: targets_params,
            targets_cmdline_buffer: false,
            timestamp_ms: now,
        },
    )
}

/// Judges a write of one process to the memory of another, whose process parameters
/// lie in a block. A write of a process to another's parameters is reported, and
/// no other.
pub fn analyze_write(
    target_pid: u32,
    source_pid: u32,
    source_process: String,
    block: Option<(u64, u64)>,
    address: u64,
    size: usize,
    now: u64,
) -> (r: Option<SuspiciousMemoryWrite>)
    ensures
        r is Some <==> target_pid != source_pid && (block matches Some(b) && overlaps(
            b,
            address,
            size,
        )),
        r matches Some(w) ==> {
            &&& w.target_pid == target_pid
            &&& w.source_pid == source_pid
            &&& w.source_process@ == source_process@
            &&& w.target_address == address
            &&& w.write_size == size
            &&& w.targets_process_parameters
            &&& !w.targets_cmdline_buffer
            &&& w.timestamp_ms == now
        },
{
    let targets_params = is_process_parameters_region(block, address, size);
    judge_write(target_pid, source_pid, source_process, address, size, targets_params, now)
}

/// A write falls into a block where there is an address that lies in both.
pub proof fn law_writes_fall_into_blocks(block: (u64, u64), address: u64, size: usize)
    ensures
        overlaps(block, address, size) <==> exists|x: int|
            #![trigger inside(block.0 as int, block.1 as int, x)]
            inside(block.0 as int, block.1 as int, x) && inside(address as int, size as int, x),
{
    let x = if address >= block.0 {
        address as int
    } else {
        block.0 as int
    };
    if overlaps(block, address, size) {
        assert(inside(block.0 as int, block.1 as int, x));
    }
}

/// Whether `x` is one of the `len` addresses from `start` on.
pub open spec fn inside(start: int, len: int, x: int) -> bool {
    start <= x < start + len
}

} // verus!
