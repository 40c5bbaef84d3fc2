//! Constants of the Linux `perf_event_open` ring-buffer ABI: record kinds,
//! misc flags, `sample_type` bits and `read_format` bits.

use vstd::prelude::*;

verus! {

pub const PERF_RECORD_MMAP: u32 = 1;
pub const PERF_RECORD_LOST: u32 = 2;
pub const PERF_RECORD_COMM: u32 = 3;
pub const PERF_RECORD_EXIT: u32 = 4;
pub const PERF_RECORD_THROTTLE: u32 = 5;
pub const PERF_RECORD_UNTHROTTLE: u32 = 6;
pub const PERF_RECORD_FORK: u32 = 7;
pub const PERF_RECORD_SAMPLE: u32 = 9;
pub const PERF_RECORD_MMAP2: u32 = 10;
pub const PERF_RECORD_SWITCH: u32 = 14;

pub const PERF_RECORD_MISC_CPUMODE_MASK: u16 = 7;
pub const PERF_RECORD_MISC_KERNEL: u16 = 1;
pub const PERF_RECORD_MISC_USER: u16 = 2;
pub const PERF_RECORD_MISC_GUEST_KERNEL: u16 = 4;
pub const PERF_RECORD_MISC_GUEST_USER: u16 = 5;

/// Shared bit 13: meaning depends on the record kind that carries it.
pub const PERF_RECORD_MISC_MMAP_DATA: u16 = 1u16 << 13;
pub const PERF_RECORD_MISC_COMM_EXEC: u16 = 1u16 << 13;
pub const PERF_RECORD_MISC_SWITCH_OUT: u16 = 1u16 << 13;
/// Shared bit 14: meaning depends on the record kind that carries it.
pub const PERF_RECORD_MISC_SWITCH_OUT_PREEMPT: u16 = 1u16 << 14;
pub const PERF_RECORD_MISC_MMAP_BUILD_ID: u16 = 1u16 << 14;

pub const PERF_SAMPLE_IP: u64 = 1u64 << 0;
pub const PERF_SAMPLE_TID: u64 = 1u64 << 1;
pub const PERF_SAMPLE_TIME: u64 = 1u64 << 2;
pub const PERF_SAMPLE_ADDR: u64 = 1u64 << 3;
pub const PERF_SAMPLE_READ: u64 = 1u64 << 4;
pub const PERF_SAMPLE_CALLCHAIN: u64 = 1u64 << 5;
pub const PERF_SAMPLE_ID: u64 = 1u64 << 6;
pub const PERF_SAMPLE_CPU: u64 = 1u64 << 7;
pub const PERF_SAMPLE_PERIOD: u64 = 1u64 << 8;
pub const PERF_SAMPLE_STREAM_ID: u64 = 1u64 << 9;
pub const PERF_SAMPLE_RAW: u64 = 1u64 << 10;
pub const PERF_SAMPLE_BRANCH_STACK: u64 = 1u64 << 11;
pub const PERF_SAMPLE_REGS_USER: u64 = 1u64 << 12;
pub const PERF_SAMPLE_STACK_USER: u64 = 1u64 << 13;
pub const PERF_SAMPLE_WEIGHT: u64 = 1u64 << 14;
pub const PERF_SAMPLE_DATA_SRC: u64 = 1u64 << 15;
pub const PERF_SAMPLE_IDENTIFIER: u64 = 1u64 << 16;
pub const PERF_SAMPLE_TRANSACTION: u64 = 1u64 << 17;
pub const PERF_SAMPLE_REGS_INTR: u64 = 1u64 << 18;
pub const PERF_SAMPLE_PHYS_ADDR: u64 = 1u64 << 19;
pub const PERF_SAMPLE_AUX: u64 = 1u64 << 20;
pub const PERF_SAMPLE_DATA_PAGE_SIZE: u64 = 1u64 << 22;
pub const PERF_SAMPLE_CODE_PAGE_SIZE: u64 = 1u64 << 23;

/// Bit of the kernel's `branch_sample_type` enumeration; the decoder tests it
/// against `sample_type`, as the capture layer that feeds it does.
pub const PERF_SAMPLE_BRANCH_HW_INDEX: u64 = 1u64 << 17;

pub const PERF_FORMAT_TOTAL_TIME_ENABLED: u64 = 1u64 << 0;
pub const PERF_FORMAT_TOTAL_TIME_RUNNING: u64 = 1u64 << 1;
pub const PERF_FORMAT_ID: u64 = 1u64 << 2;
pub const PERF_FORMAT_GROUP: u64 = 1u64 << 3;

} // verus!
