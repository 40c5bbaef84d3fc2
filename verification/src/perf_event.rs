//! The perf record decoder and the typed event model it emits.
//!
//! A `RawEvent` is one framed ring-buffer record: its kind, its misc flags and
//! its body bytes. `RawEvent::parse` dispatches on the kind and decodes the
//! body strictly in the order the ABI mandates. Every multi-byte field is read
//! in the session's byte order, and any field that would run past the end of
//! the body is a `ParseError::Truncated` — the decoder never panics and never
//! silently truncates.

use vstd::prelude::*;
use vstd::slice::slice_to_vec;
use crate::byteread::{Endian, i32_at, read_i32_at, read_u32_at, read_u64_at, u32_at, u64_at};
use crate::dso_key::{spec_detect, DsoKey, DsoKeyView};
use crate::perf_event_raw::{
    PERF_FORMAT_GROUP, PERF_FORMAT_ID, PERF_FORMAT_TOTAL_TIME_ENABLED,
    PERF_FORMAT_TOTAL_TIME_RUNNING, PERF_RECORD_COMM, PERF_RECORD_EXIT, PERF_RECORD_FORK,
    PERF_RECORD_LOST, PERF_RECORD_MMAP, PERF_RECORD_MMAP2, PERF_RECORD_SAMPLE, PERF_RECORD_SWITCH,
    PERF_RECORD_THROTTLE, PERF_RECORD_UNTHROTTLE, PERF_RECORD_MISC_COMM_EXEC,
    PERF_RECORD_MISC_MMAP_BUILD_ID,
    PERF_RECORD_MISC_MMAP_DATA, PERF_RECORD_MISC_SWITCH_OUT, PERF_RECORD_MISC_SWITCH_OUT_PREEMPT,
    PERF_SAMPLE_ADDR, PERF_SAMPLE_AUX, PERF_SAMPLE_BRANCH_HW_INDEX, PERF_SAMPLE_BRANCH_STACK,
    PERF_SAMPLE_CALLCHAIN, PERF_SAMPLE_CODE_PAGE_SIZE, PERF_SAMPLE_CPU, PERF_SAMPLE_DATA_PAGE_SIZE,
    PERF_SAMPLE_DATA_SRC, PERF_SAMPLE_ID, PERF_SAMPLE_IDENTIFIER, PERF_SAMPLE_IP,
    PERF_SAMPLE_PERIOD, PERF_SAMPLE_PHYS_ADDR, PERF_SAMPLE_RAW, PERF_SAMPLE_READ,
    PERF_SAMPLE_REGS_INTR, PERF_SAMPLE_REGS_USER, PERF_SAMPLE_STACK_USER, PERF_SAMPLE_STREAM_ID,
    PERF_SAMPLE_TID, PERF_SAMPLE_TIME, PERF_SAMPLE_TRANSACTION, PERF_SAMPLE_WEIGHT,
};
use crate::raw_data::RawData;
use crate::raw_data::RawRegs;

verus! {

/// Typed decode failure.
#[derive(Clone, Copy, PartialEq, Eq, Structural, Debug)]
pub enum ParseError {
    /// A field read would exceed the record body.
    Truncated,
    /// An MMAP2 build-id record declared an identifier longer than 20 bytes.
    InvalidBuildIdLength,
}

/// One framed perf ring-buffer record, not yet decoded.
#[derive(Clone, Copy, Debug)]
pub struct RawEvent<'a> {
    pub kind: u32,
    pub misc: u16,
    pub data: RawData<'a>,
}

/// Sampled register values: a mask of present registers plus the packed words.
#[derive(Clone, Copy, Debug)]
pub struct Regs<'a> {
    regs_mask: u64,
    raw_regs: RawRegs<'a>,
}

#[verifier::ext_equal]
pub struct RegsView {
    pub mask: u64,
    pub words: Seq<u64>,
}

impl<'a> View for Regs<'a> {
    type V = RegsView;

    closed spec fn view(&self) -> RegsView {
        RegsView { mask: self.regs_mask, words: self.raw_regs@ }
    }
}

/// Number of bits of `mask` set strictly below bit `r`.
pub open spec fn bits_below(mask: u64, r: int) -> int
    decreases r,
{
    if r <= 0 {
        0
    } else {
        bits_below(mask, r - 1) + if mask & (1u64 << (r - 1)) != 0 {
            1int
        } else {
            0int
        }
    }
}

impl<'a> Regs<'a> {
    pub fn new(regs_mask: u64, raw_regs: RawRegs<'a>) -> (r: Self)
        ensures
            r@.mask == regs_mask,
            r@.words == raw_regs@,
    {
        Self { regs_mask, raw_regs }
    }

    /// The sampled value of register `register`, if bit `register` of the mask
    /// is set: the word whose index is the number of mask bits below that bit.
    /// Absent when the bit is clear.
    pub fn get(&self, register: u64) -> (r: Option<u64>)
        requires
            register < 64,
            self@.mask & (1u64 << register) != 0 ==> bits_below(self@.mask, register as int)
                < self@.words.len(),
        ensures
            self@.mask & (1u64 << register) == 0 ==> r is None,
            self@.mask & (1u64 << register) != 0 ==> r == Some(
                self@.words[bits_below(self@.mask, register as int)],
            ),
    {
        if self.regs_mask & (1u64 << register) == 0 {
            return None;
        }
        let mut index: usize = 0;
        let mut i: u64 = 0;
        while i < register
            invariant
                i <= register < 64,
                index == bits_below(self.regs_mask, i as int),
                index <= i,
        decreases register - i,
        {
            if self.regs_mask & (1u64 << i) != 0 {
                index += 1;
            }
            i += 1;
        }
        Some(self.raw_regs.get(index))
    }
}

/// Sample record: each optional field is present exactly when the session's
/// `sample_type` has the matching flag bit.
#[derive(Debug)]
pub struct SampleEvent<'a> {
    pub timestamp: Option<u64>,
    pub pid: Option<i32>,
    pub tid: Option<i32>,
    pub cpu: Option<u32>,
    pub period: Option<u64>,
    pub regs: Option<Regs<'a>>,
    pub dynamic_stack_size: u64,
    pub stack: RawData<'a>,
    pub callchain: Option<Vec<u64>>,
}

#[verifier::ext_equal]
pub struct SampleView {
    pub timestamp: Option<u64>,
    pub pid: Option<i32>,
    pub tid: Option<i32>,
    pub cpu: Option<u32>,
    pub period: Option<u64>,
    pub regs: Option<RegsView>,
    pub dynamic_stack_size: u64,
    pub stack: Seq<u8>,
    pub callchain: Option<Seq<u64>>,
}

impl<'a> View for SampleEvent<'a> {
    type V = SampleView;

    open spec fn view(&self) -> SampleView {
        SampleView {
            timestamp: self.timestamp,
            pid: self.pid,
            tid: self.tid,
            cpu: self.cpu,
            period: self.period,
            regs: match self.regs {
                Some(r) => Some(r@),
                None => None,
            },
            dynamic_stack_size: self.dynamic_stack_size,
            stack: self.stack@,
            callchain: match self.callchain {
                Some(c) => Some(c@),
                None => None,
            },
        }
    }
}

/// Exit and fork records share this layout.
#[derive(Clone, Copy, PartialEq, Eq, Structural, Debug)]
pub struct ProcessEvent {
    pub pid: i32,
    pub ppid: i32,
    pub tid: i32,
    pub ptid: i32,
    pub timestamp: u64,
}

/// Task-rename record: the thread's new command name.
#[derive(Clone, PartialEq, Eq, Debug)]
pub struct CommEvent {
    pub pid: i32,
    pub tid: i32,
    pub name: Vec<u8>,
    pub is_execve: bool,
}

#[verifier::ext_equal]
pub struct CommView {
    pub pid: i32,
    pub tid: i32,
    pub name: Seq<u8>,
    pub is_execve: bool,
}

impl View for CommEvent {
    type V = CommView;

    open spec fn view(&self) -> CommView {
        CommView { pid: self.pid, tid: self.tid, name: self.name@, is_execve: self.is_execve }
    }
}

/// Mapping record. The kernel nowadays emits MMAP2 instead, but synthesized
/// records for the kernel image still use this layout.
#[derive(Clone, PartialEq, Eq, Debug)]
pub struct MmapEvent {
    pub pid: i32,
    pub tid: i32,
    pub address: u64,
    pub length: u64,
    pub page_offset: u64,
    pub is_executable: bool,
    pub dso_key: Option<DsoKey>,
    pub path: Vec<u8>,
}

#[verifier::ext_equal]
pub struct MmapView {
    pub pid: i32,
    pub tid: i32,
    pub address: u64,
    pub length: u64,
    pub page_offset: u64,
    pub is_executable: bool,
    pub dso_key: Option<DsoKeyView>,
    pub path: Seq<u8>,
}

impl View for MmapEvent {
    type V = MmapView;

    open spec fn view(&self) -> MmapView {
        MmapView {
            pid: self.pid,
            tid: self.tid,
            address: self.address,
            length: self.length,
            page_offset: self.page_offset,
            is_executable: self.is_executable,
            dso_key: self.dso_key.deep_view(),
            path: self.path@,
        }
    }
}

#[derive(Clone, Copy, PartialEq, Eq, Structural, Debug)]
pub struct Mmap2InodeAndVersion {
    pub major: u32,
    pub minor: u32,
    pub inode: u64,
    pub inode_generation: u64,
}

/// How an MMAP2 record identifies the mapped file: device/inode numbers, or a
/// build-id of at most 20 bytes.
#[derive(Clone, PartialEq, Eq, Debug)]
pub enum Mmap2FileId {
    InodeAndVersion(Mmap2InodeAndVersion),
    BuildId(Vec<u8>),
}

#[verifier::ext_equal]
pub enum Mmap2FileIdView {
    InodeAndVersion(Mmap2InodeAndVersion),
    BuildId(Seq<u8>),
}

impl View for Mmap2FileId {
    type V = Mmap2FileIdView;

    open spec fn view(&self) -> Mmap2FileIdView {
        match self {
            Mmap2FileId::InodeAndVersion(v) => Mmap2FileIdView::InodeAndVersion(*v),
            Mmap2FileId::BuildId(b) => Mmap2FileIdView::BuildId(b@),
        }
    }
}

#[derive(Clone, PartialEq, Eq, Debug)]
pub struct Mmap2Event {
    pub pid: i32,
    pub tid: i32,
    pub address: u64,
    pub length: u64,
    pub page_offset: u64,
    pub file_id: Mmap2FileId,
    pub protection: u32,
    pub flags: u32,
    pub dso_key: Option<DsoKey>,
    pub path: Vec<u8>,
}

#[verifier::ext_equal]
pub struct Mmap2View {
    pub pid: i32,
    pub tid: i32,
    pub address: u64,
    pub length: u64,
    pub page_offset: u64,
    pub file_id: Mmap2FileIdView,
    pub protection: u32,
    pub flags: u32,
    pub dso_key: Option<DsoKeyView>,
    pub path: Seq<u8>,
}

impl View for Mmap2Event {
    type V = Mmap2View;

    open spec fn view(&self) -> Mmap2View {
        Mmap2View {
            pid: self.pid,
            tid: self.tid,
            address: self.address,
            length: self.length,
            page_offset: self.page_offset,
            file_id: self.file_id@,
            protection: self.protection,
            flags: self.flags,
            dso_key: self.dso_key.deep_view(),
            path: self.path@,
        }
    }
}

#[derive(Clone, Copy, PartialEq, Eq, Structural, Debug)]
pub struct LostEvent {
    pub id: u64,
    pub count: u64,
}

#[derive(Clone, Copy, PartialEq, Eq, Structural, Debug)]
pub struct ThrottleEvent {
    pub id: u64,
    pub timestamp: u64,
}

#[derive(Clone, Copy, PartialEq, Eq, Structural, Debug)]
pub enum ContextSwitchKind {
    In,
    OutWhileIdle,
    OutWhileRunning,
}

/// The tagged union the decoder emits.
#[derive(Debug)]
pub enum Event<'a> {
    Sample(SampleEvent<'a>),
    Comm(CommEvent),
    Exit(ProcessEvent),
    Fork(ProcessEvent),
    Mmap(MmapEvent),
    Mmap2(Mmap2Event),
    Lost(LostEvent),
    Throttle(ThrottleEvent),
    Unthrottle(ThrottleEvent),
    ContextSwitch(ContextSwitchKind),
    Raw(RawEvent<'a>),
}

/// Index of the first NUL byte of `b`, or `b.len()` when it has none.
pub open spec fn first_nul(b: Seq<u8>) -> int
    decreases b.len(),
{
    if b.len() == 0 {
        0
    } else if b[0] == 0u8 {
        0
    } else {
        1 + first_nul(b.drop_first())
    }
}

/// The bytes of `b` up to (excluding) the first NUL.
pub open spec fn trim_nul(b: Seq<u8>) -> Seq<u8> {
    b.take(first_nul(b))
}

proof fn lemma_first_nul_at(b: Seq<u8>, j: int)
    requires
        0 <= j <= b.len(),
        forall|k: int| 0 <= k < j ==> b[k] != 0u8,
        j == b.len() || b[j] == 0u8,
    ensures
        first_nul(b) == j,
    decreases j,
{
    if j == 0 {
    } else {
        lemma_first_nul_at(b.drop_first(), j - 1);
    }
}

/// The NUL-terminated byte string starting at `start`: everything up to the
/// first zero byte, or to the end of the buffer when there is none.
fn read_nul_terminated(d: &[u8], start: usize) -> (r: Vec<u8>)
    requires
        start <= d@.len(),
    ensures
        r@ == trim_nul(d@.subrange(start as int, d@.len() as int)),
{
    let n = d.len();
    let mut j = start;
    while j < n && d[j] != 0
        invariant
            start <= j <= n,
            n == d@.len(),
            forall|k: int| start <= k < j ==> d@[k] != 0u8,
        decreases n - j,
    {
        j += 1;
    }
    proof {
        let sub = d@.subrange(start as int, n as int);
        lemma_first_nul_at(sub, j - start);
        assert(sub.take(j - start) =~= d@.subrange(start as int, j as int));
    }
    slice_to_vec(&d[start..j])
}

/// Layout of an exit or fork record body.
pub open spec fn spec_process(d: Seq<u8>, e: Endian) -> Result<ProcessEvent, ParseError> {
    if 24 <= d.len() {
        Ok(
            ProcessEvent {
                pid: i32_at(d, e, 0),
                ppid: i32_at(d, e, 4),
                tid: i32_at(d, e, 8),
                ptid: i32_at(d, e, 12),
                timestamp: u64_at(d, e, 16),
            },
        )
    } else {
        Err(ParseError::Truncated)
    }
}

/// Layout of a comm record body: pid, tid, then the NUL-terminated name.
pub open spec fn spec_comm(d: Seq<u8>, e: Endian, misc: u16) -> Result<CommView, ParseError> {
    if 8 <= d.len() {
        Ok(
            CommView {
                pid: i32_at(d, e, 0),
                tid: i32_at(d, e, 4),
                name: trim_nul(d.subrange(8, d.len() as int)),
                is_execve: misc & PERF_RECORD_MISC_COMM_EXEC != 0,
            },
        )
    } else {
        Err(ParseError::Truncated)
    }
}

/// Layout of an mmap record body.
pub open spec fn spec_mmap(d: Seq<u8>, e: Endian, misc: u16) -> Result<MmapView, ParseError> {
    if 32 <= d.len() {
        let path = trim_nul(d.subrange(32, d.len() as int));
        Ok(
            MmapView {
                pid: i32_at(d, e, 0),
                tid: i32_at(d, e, 4),
                address: u64_at(d, e, 8),
                length: u64_at(d, e, 16),
                page_offset: u64_at(d, e, 24),
                is_executable: misc & PERF_RECORD_MISC_MMAP_DATA == 0,
                dso_key: spec_detect(path, misc),
                path: path,
            },
        )
    } else {
        Err(ParseError::Truncated)
    }
}

/// Layout of an mmap2 record body. The file-id region is 24 bytes in either
/// form: with the build-id misc flag it is a length byte, three reserved
/// bytes and a 20-byte area of which only the first `build_id_len` bytes are
/// the identifier; otherwise it is device major/minor, inode and generation.
pub open spec fn spec_mmap2(d: Seq<u8>, e: Endian, misc: u16) -> Result<Mmap2View, ParseError> {
    if d.len() < 64 {
        Err(ParseError::Truncated)
    } else {
        let build_id_len = d[32];
        if misc & PERF_RECORD_MISC_MMAP_BUILD_ID != 0 && build_id_len > 20 {
            Err(ParseError::InvalidBuildIdLength)
        } else {
            let file_id = if misc & PERF_RECORD_MISC_MMAP_BUILD_ID != 0 {
                Mmap2FileIdView::BuildId(d.subrange(36, 36 + build_id_len))
            } else {
                Mmap2FileIdView::InodeAndVersion(
                    Mmap2InodeAndVersion {
                        major: u32_at(d, e, 32),
                        minor: u32_at(d, e, 36),
                        inode: u64_at(d, e, 40),
                        inode_generation: u64_at(d, e, 48),
                    },
                )
            };
            let path = trim_nul(d.subrange(64, d.len() as int));
            Ok(
                Mmap2View {
                    pid: i32_at(d, e, 0),
                    tid: i32_at(d, e, 4),
                    address: u64_at(d, e, 8),
                    length: u64_at(d, e, 16),
                    page_offset: u64_at(d, e, 24),
                    file_id: file_id,
                    protection: u32_at(d, e, 56),
                    flags: u32_at(d, e, 60),
                    dso_key: spec_detect(path, misc),
                    path: path,
                },
            )
        }
    }
}

/// Layout of a lost-records record body.
pub open spec fn spec_lost(d: Seq<u8>, e: Endian) -> Result<LostEvent, ParseError> {
    if 16 <= d.len() {
        Ok(LostEvent { id: u64_at(d, e, 0), count: u64_at(d, e, 8) })
    } else {
        Err(ParseError::Truncated)
    }
}

/// Layout of a throttle or unthrottle record body: timestamp, then id.
pub open spec fn spec_throttle(d: Seq<u8>, e: Endian) -> Result<ThrottleEvent, ParseError> {
    if 16 <= d.len() {
        Ok(ThrottleEvent { id: u64_at(d, e, 8), timestamp: u64_at(d, e, 0) })
    } else {
        Err(ParseError::Truncated)
    }
}

/// A switch record carries its direction in the misc flags alone: switch-out
/// with the preempt bit is a switch away from a still-running thread.
pub open spec fn spec_switch(misc: u16) -> ContextSwitchKind {
    if misc & PERF_RECORD_MISC_SWITCH_OUT != 0 {
        if misc & PERF_RECORD_MISC_SWITCH_OUT_PREEMPT != 0 {
            ContextSwitchKind::OutWhileRunning
        } else {
            ContextSwitchKind::OutWhileIdle
        }
    } else {
        ContextSwitchKind::In
    }
}

pub fn parse_process(data: RawData<'_>, e: Endian) -> (r: Result<ProcessEvent, ParseError>)
    ensures
        match spec_process(data@, e) {
            Ok(v) => r matches Ok(ev) && ev == v,
            Err(pe) => r matches Err(x) && x == pe,
        },
{
    let d = data.as_slice();
    if d.len() < 24 {
        return Err(ParseError::Truncated);
    }
    Ok(
        ProcessEvent {
            pid: read_i32_at(d, e, 0),
            ppid: read_i32_at(d, e, 4),
            tid: read_i32_at(d, e, 8),
            ptid: read_i32_at(d, e, 12),
            timestamp: read_u64_at(d, e, 16),
        },
    )
}

pub fn parse_comm(data: RawData<'_>, e: Endian, misc: u16) -> (r: Result<CommEvent, ParseError>)
    ensures
        match spec_comm(data@, e, misc) {
            Ok(v) => r matches Ok(ev) && ev@ == v,
            Err(pe) => r matches Err(x) && x == pe,
        },
{
    let d = data.as_slice();
    if d.len() < 8 {
        return Err(ParseError::Truncated);
    }
    let ev = CommEvent {
        pid: read_i32_at(d, e, 0),
        tid: read_i32_at(d, e, 4),
        name: read_nul_terminated(d, 8),
        is_execve: misc & PERF_RECORD_MISC_COMM_EXEC != 0,
    };
    proof {
        assert(ev@ =~= spec_comm(data@, e, misc)->Ok_0);
    }
    Ok(ev)
}

pub fn parse_mmap(data: RawData<'_>, e: Endian, misc: u16) -> (r: Result<MmapEvent, ParseError>)
    ensures
        match spec_mmap(data@, e, misc) {
            Ok(v) => r matches Ok(ev) && ev@ == v,
            Err(pe) => r matches Err(x) && x == pe,
        },
{
    let d = data.as_slice();
    if d.len() < 32 {
        return Err(ParseError::Truncated);
    }
    let path = read_nul_terminated(d, 32);
    let dso_key = DsoKey::detect(path.as_slice(), misc);
    let ev = MmapEvent {
        pid: read_i32_at(d, e, 0),
        tid: read_i32_at(d, e, 4),
        address: read_u64_at(d, e, 8),
        length: read_u64_at(d, e, 16),
        page_offset: read_u64_at(d, e, 24),
        is_executable: misc & PERF_RECORD_MISC_MMAP_DATA == 0,
        dso_key,
        path,
    };
    proof {
        assert(ev@ =~= spec_mmap(data@, e, misc)->Ok_0);
    }
    Ok(ev)
}

pub fn parse_mmap2(data: RawData<'_>, e: Endian, misc: u16) -> (r: Result<Mmap2Event, ParseError>)
    ensures
        match spec_mmap2(data@, e, misc) {
            Ok(v) => r matches Ok(ev) && ev@ == v,
            Err(pe) => r matches Err(x) && x == pe,
        },
{
    let d = data.as_slice();
    if d.len() < 64 {
        return Err(ParseError::Truncated);
    }
    let file_id = if misc & PERF_RECORD_MISC_MMAP_BUILD_ID != 0 {
        let build_id_len = d[32];
        if build_id_len > 20 {
            return Err(ParseError::InvalidBuildIdLength);
        }
        let build_id = slice_to_vec(&d[36..36 + build_id_len as usize]);
        Mmap2FileId::BuildId(build_id)
    } else {
        Mmap2FileId::InodeAndVersion(
            Mmap2InodeAndVersion {
                major: read_u32_at(d, e, 32),
                minor: read_u32_at(d, e, 36),
                inode: read_u64_at(d, e, 40),
                inode_generation: read_u64_at(d, e, 48),
            },
        )
    };
    let path = read_nul_terminated(d, 64);
    let dso_key = DsoKey::detect(path.as_slice(), misc);
    let ev = Mmap2Event {
        pid: read_i32_at(d, e, 0),
        tid: read_i32_at(d, e, 4),
        address: read_u64_at(d, e, 8),
        length: read_u64_at(d, e, 16),
        page_offset: read_u64_at(d, e, 24),
        file_id,
        protection: read_u32_at(d, e, 56),
        flags: read_u32_at(d, e, 60),
        dso_key,
        path,
    };
    proof {
        assert(ev@ =~= spec_mmap2(data@, e, misc)->Ok_0);
    }
    Ok(ev)
}

pub fn parse_lost(data: RawData<'_>, e: Endian) -> (r: Result<LostEvent, ParseError>)
    ensures
        match spec_lost(data@, e) {
            Ok(v) => r matches Ok(ev) && ev == v,
            Err(pe) => r matches Err(x) && x == pe,
        },
{
    let d = data.as_slice();
    if d.len() < 16 {
        return Err(ParseError::Truncated);
    }
    Ok(LostEvent { id: read_u64_at(d, e, 0), count: read_u64_at(d, e, 8) })
}

pub fn parse_throttle(data: RawData<'_>, e: Endian) -> (r: Result<ThrottleEvent, ParseError>)
    ensures
        match spec_throttle(data@, e) {
            Ok(v) => r matches Ok(ev) && ev == v,
            Err(pe) => r matches Err(x) && x == pe,
        },
{
    let d = data.as_slice();
    if d.len() < 16 {
        return Err(ParseError::Truncated);
    }
    let timestamp = read_u64_at(d, e, 0);
    let id = read_u64_at(d, e, 8);
    Ok(ThrottleEvent { id, timestamp })
}

pub open spec fn flag64(x: u64, bit: u64) -> bool {
    x & bit != 0
}

pub open spec fn sskip(p: int, cond: bool, n: int) -> int {
    if cond {
        p + n
    } else {
        p
    }
}

/// Byte offset of the pid/tid pair within a sample body: after the optional
/// identifier and instruction-pointer words.
pub open spec fn p_tid(st: u64) -> int {
    sskip(sskip(0, flag64(st, PERF_SAMPLE_IDENTIFIER), 8), flag64(st, PERF_SAMPLE_IP), 8)
}

/// Byte offset of the timestamp within a sample body.
pub open spec fn p_time(st: u64) -> int {
    sskip(p_tid(st), flag64(st, PERF_SAMPLE_TID), 8)
}

/// Byte offset of the cpu word within a sample body.
pub open spec fn p_cpu(st: u64) -> int {
    sskip(
        sskip(
            sskip(sskip(p_time(st), flag64(st, PERF_SAMPLE_TIME), 8), flag64(st, PERF_SAMPLE_ADDR), 8),
            flag64(st, PERF_SAMPLE_ID),
            8,
        ),
        flag64(st, PERF_SAMPLE_STREAM_ID),
        8,
    )
}

/// Byte offset of the period within a sample body.
pub open spec fn p_period(st: u64) -> int {
    sskip(p_cpu(st), flag64(st, PERF_SAMPLE_CPU), 8)
}

/// End of the fixed-size front of a sample body: every field up to and
/// including the period has a flag-determined offset.
pub open spec fn p_front_end(st: u64) -> int {
    sskip(p_period(st), flag64(st, PERF_SAMPLE_PERIOD), 8)
}

/// End of the read-format field, when in bounds. Without the group flag it is
/// one value plus the optional time and id words; with it, a count followed by
/// that many value/id groups.
pub open spec fn read_field_end(d: Seq<u8>, e: Endian, st: u64, rf: u64, p: int) -> Option<int> {
    if !flag64(st, PERF_SAMPLE_READ) {
        Some(p)
    } else {
        let opt = sskip(
            sskip(p + 8, flag64(rf, PERF_FORMAT_TOTAL_TIME_ENABLED), 8),
            flag64(rf, PERF_FORMAT_TOTAL_TIME_RUNNING),
            8,
        );
        if !flag64(rf, PERF_FORMAT_GROUP) {
            let end = sskip(opt, flag64(rf, PERF_FORMAT_ID), 8);
            if end <= d.len() {
                Some(end)
            } else {
                None
            }
        } else {
            if p + 8 <= d.len() {
                let nr = u64_at(d, e, p) as int;
                let per: int = if flag64(rf, PERF_FORMAT_ID) {
                    16
                } else {
                    8
                };
                let end = opt + nr * per;
                if end <= d.len() {
                    Some(end)
                } else {
                    None
                }
            } else {
                None
            }
        }
    }
}

/// The `n` 64-bit words starting at byte offset `p`.
pub open spec fn words_at(d: Seq<u8>, e: Endian, p: int, n: int) -> Seq<u64> {
    Seq::new(n as nat, |i: int| u64_at(d, e, p + 8 * i))
}

/// The callchain field: a word count followed by that many addresses.
pub open spec fn callchain_field(d: Seq<u8>, e: Endian, st: u64, p: int) -> Option<
    (Option<Seq<u64>>, int),
> {
    if !flag64(st, PERF_SAMPLE_CALLCHAIN) {
        Some((None::<Seq<u64>>, p))
    } else if p + 8 <= d.len() {
        let n = u64_at(d, e, p) as int;
        if p + 8 + 8 * n <= d.len() {
            Some((Some(words_at(d, e, p + 8, n)), p + 8 + 8 * n))
        } else {
            None
        }
    } else {
        None
    }
}

/// End of the raw field: a 32-bit size followed by that many bytes.
pub open spec fn raw_field_end(d: Seq<u8>, e: Endian, st: u64, p: int) -> Option<int> {
    if !flag64(st, PERF_SAMPLE_RAW) {
        Some(p)
    } else if p + 4 <= d.len() {
        let end = p + 4 + u32_at(d, e, p);
        if end <= d.len() {
            Some(end)
        } else {
            None
        }
    } else {
        None
    }
}

/// End of the branch-stack field: a count, an optional hardware index, then
/// 24 bytes per entry.
pub open spec fn branch_field_end(d: Seq<u8>, e: Endian, st: u64, p: int) -> Option<int> {
    if !flag64(st, PERF_SAMPLE_BRANCH_STACK) {
        Some(p)
    } else if p + 8 <= d.len() {
        let n = u64_at(d, e, p) as int;
        let ph = sskip(p + 8, flag64(st, PERF_SAMPLE_BRANCH_HW_INDEX), 8);
        let end = ph + 24 * n;
        if end <= d.len() {
            Some(end)
        } else {
            None
        }
    } else {
        None
    }
}

/// The user-register field: an ABI word, and when it is nonzero, `regs_count`
/// register words paired with the session's register mask.
pub open spec fn regs_user_field(
    d: Seq<u8>,
    e: Endian,
    st: u64,
    regs_count: int,
    mask: u64,
    p: int,
) -> Option<(Option<RegsView>, int)> {
    if !flag64(st, PERF_SAMPLE_REGS_USER) {
        Some((None::<RegsView>, p))
    } else if p + 8 <= d.len() {
        let abi = u64_at(d, e, p);
        if abi == 0 {
            Some((None::<RegsView>, p + 8))
        } else {
            let end = p + 8 + 8 * regs_count;
            if end <= d.len() {
                Some((Some(RegsView { mask, words: words_at(d, e, p + 8, regs_count) }), end))
            } else {
                None
            }
        }
    } else {
        None
    }
}

/// The user-stack field: a size, that many stack bytes (a borrowed subview),
/// and — when the size is nonzero — the dynamic stack size word.
pub open spec fn stack_field(d: Seq<u8>, e: Endian, st: u64, p: int) -> Option<
    (Seq<u8>, u64, int),
> {
    if !flag64(st, PERF_SAMPLE_STACK_USER) {
        Some((Seq::empty(), 0u64, p))
    } else if p + 8 <= d.len() {
        let size = u64_at(d, e, p) as int;
        let send = p + 8 + size;
        if send <= d.len() {
            let stack = d.subrange(p + 8, send);
            if size == 0 {
                Some((stack, 0u64, send))
            } else if send + 8 <= d.len() {
                Some((stack, u64_at(d, e, send), send + 8))
            } else {
                None
            }
        } else {
            None
        }
    } else {
        None
    }
}

/// End of the trailing discarded fields from the weight through the
/// interrupt-register block.
pub open spec fn tail_a_end(d: Seq<u8>, e: Endian, st: u64, regs_count: int, p: int) -> Option<
    int,
> {
    let p3 = sskip(
        sskip(sskip(p, flag64(st, PERF_SAMPLE_WEIGHT), 8), flag64(st, PERF_SAMPLE_DATA_SRC), 8),
        flag64(st, PERF_SAMPLE_TRANSACTION),
        8,
    );
    if p3 > d.len() {
        None
    } else if !flag64(st, PERF_SAMPLE_REGS_INTR) {
        tail_b_end(d, e, st, p3)
    } else if p3 + 8 <= d.len() {
        let abi = u64_at(d, e, p3);
        let p4 = if abi != 0 {
            p3 + 8 + 8 * regs_count
        } else {
            p3 + 8
        };
        if p4 <= d.len() {
            tail_b_end(d, e, st, p4)
        } else {
            None
        }
    } else {
        None
    }
}

/// End of the trailing discarded fields from the physical address through the
/// aux area.
pub open spec fn tail_b_end(d: Seq<u8>, e: Endian, st: u64, p: int) -> Option<int> {
    let p1 = sskip(p, flag64(st, PERF_SAMPLE_PHYS_ADDR), 8);
    if p1 > d.len() {
        None
    } else if !flag64(st, PERF_SAMPLE_AUX) {
        tail_c_end(d, st, p1)
    } else if p1 + 8 <= d.len() {
        let end = p1 + 8 + u64_at(d, e, p1);
        if end <= d.len() {
            tail_c_end(d, st, end)
        } else {
            None
        }
    } else {
        None
    }
}

/// End of the trailing page-size words.
pub open spec fn tail_c_end(d: Seq<u8>, st: u64, p: int) -> Option<int> {
    let p2 = sskip(
        sskip(p, flag64(st, PERF_SAMPLE_DATA_PAGE_SIZE), 8),
        flag64(st, PERF_SAMPLE_CODE_PAGE_SIZE),
        8,
    );
    if p2 <= d.len() {
        Some(p2)
    } else {
        None
    }
}

/// The complete sample-body layout: the gated fields in the mandated order.
/// `None` is a truncated body: some field would run past the end.
pub open spec fn spec_sample(
    d: Seq<u8>,
    e: Endian,
    st: u64,
    rf: u64,
    regs_count: int,
    regs_mask: u64,
) -> Option<SampleView> {
    if p_front_end(st) > d.len() {
        None
    } else {
        let pid = if flag64(st, PERF_SAMPLE_TID) {
            Some(i32_at(d, e, p_tid(st)))
        } else {
            None
        };
        let tid = if flag64(st, PERF_SAMPLE_TID) {
            Some(i32_at(d, e, p_tid(st) + 4))
        } else {
            None
        };
        let timestamp = if flag64(st, PERF_SAMPLE_TIME) {
            Some(u64_at(d, e, p_time(st)))
        } else {
            None
        };
        let cpu = if flag64(st, PERF_SAMPLE_CPU) {
            Some(u32_at(d, e, p_cpu(st)))
        } else {
            None
        };
        let period = if flag64(st, PERF_SAMPLE_PERIOD) {
            Some(u64_at(d, e, p_period(st)))
        } else {
            None
        };
        match read_field_end(d, e, st, rf, p_front_end(st)) {
            None => None,
            Some(p1) => match callchain_field(d, e, st, p1) {
                None => None,
                Some((callchain, p2)) => match raw_field_end(d, e, st, p2) {
                    None => None,
                    Some(p3) => match branch_field_end(d, e, st, p3) {
                        None => None,
                        Some(p4) => match regs_user_field(d, e, st, regs_count, regs_mask, p4) {
                            None => None,
                            Some((regs, p5)) => match stack_field(d, e, st, p5) {
                                None => None,
                                Some((stack, dynamic_stack_size, p6)) => match tail_a_end(
                                    d,
                                    e,
                                    st,
                                    regs_count,
                                    p6,
                                ) {
                                    None => None,
                                    Some(_p7) => Some(
                                        SampleView {
                                            timestamp,
                                            pid,
                                            tid,
                                            cpu,
                                            period,
                                            regs,
                                            dynamic_stack_size,
                                            stack,
                                            callchain,
                                        },
                                    ),
                                },
                            },
                        },
                    },
                },
            },
        }
    }
}

pub fn switch_kind_from_misc(misc: u16) -> (r: ContextSwitchKind)
    ensures
        r == spec_switch(misc),
{
    let is_out = misc & PERF_RECORD_MISC_SWITCH_OUT != 0;
    let is_out_preempt = misc & PERF_RECORD_MISC_SWITCH_OUT_PREEMPT != 0;
    if is_out {
        if is_out_preempt {
            ContextSwitchKind::OutWhileRunning
        } else {
            ContextSwitchKind::OutWhileIdle
        }
    } else {
        ContextSwitchKind::In
    }
}

/// Partial result of the fixed-offset front of a sample body.
struct SampleFront {
    pid: Option<i32>,
    tid: Option<i32>,
    timestamp: Option<u64>,
    cpu: Option<u32>,
    period: Option<u64>,
    pos: usize,
}

#[verifier::rlimit(100)]
#[verifier::spinoff_prover]
fn sample_front(d: &[u8], e: Endian, st: u64) -> (r: Result<SampleFront, ParseError>)
    ensures
        p_front_end(st) <= d@.len() ==> (r matches Ok(f) && {
            &&& f.pos == p_front_end(st)
            &&& f.pid == (if flag64(st, PERF_SAMPLE_TID) {
                Some(i32_at(d@, e, p_tid(st)))
            } else {
                None::<i32>
            })
            &&& f.tid == (if flag64(st, PERF_SAMPLE_TID) {
                Some(i32_at(d@, e, p_tid(st) + 4))
            } else {
                None::<i32>
            })
            &&& f.timestamp == (if flag64(st, PERF_SAMPLE_TIME) {
                Some(u64_at(d@, e, p_time(st)))
            } else {
                None::<u64>
            })
            &&& f.cpu == (if flag64(st, PERF_SAMPLE_CPU) {
                Some(u32_at(d@, e, p_cpu(st)))
            } else {
                None::<u32>
            })
            &&& f.period == (if flag64(st, PERF_SAMPLE_PERIOD) {
                Some(u64_at(d@, e, p_period(st)))
            } else {
                None::<u64>
            })
        }),
        p_front_end(st) > d@.len() ==> (r matches Err(x) && x == ParseError::Truncated),
{
    let dl = d.len();
    let mut pos: usize = 0;
    if st & PERF_SAMPLE_IDENTIFIER != 0 {
        if dl - pos < 8 {
            return Err(ParseError::Truncated);
        }
        pos += 8;
    }
    if st & PERF_SAMPLE_IP != 0 {
        if dl - pos < 8 {
            return Err(ParseError::Truncated);
        }
        pos += 8;
    }
    proof {
        assert(pos == p_tid(st));
    }
    let mut pid: Option<i32> = None;
    let mut tid: Option<i32> = None;
    if st & PERF_SAMPLE_TID != 0 {
        if dl - pos < 8 {
            return Err(ParseError::Truncated);
        }
        pid = Some(read_i32_at(d, e, pos));
        tid = Some(read_i32_at(d, e, pos + 4));
        pos += 8;
    }
    proof {
        assert(pos == p_time(st));
    }
    let mut timestamp: Option<u64> = None;
    if st & PERF_SAMPLE_TIME != 0 {
        if dl - pos < 8 {
            return Err(ParseError::Truncated);
        }
        timestamp = Some(read_u64_at(d, e, pos));
        pos += 8;
    }
    if st & PERF_SAMPLE_ADDR != 0 {
        if dl - pos < 8 {
            return Err(ParseError::Truncated);
        }
        pos += 8;
    }
    if st & PERF_SAMPLE_ID != 0 {
        if dl - pos < 8 {
            return Err(ParseError::Truncated);
        }
        pos += 8;
    }
    if st & PERF_SAMPLE_STREAM_ID != 0 {
        if dl - pos < 8 {
            return Err(ParseError::Truncated);
        }
        pos += 8;
    }
    proof {
        assert(pos == p_cpu(st));
    }
    let mut cpu: Option<u32> = None;
    if st & PERF_SAMPLE_CPU != 0 {
        if dl - pos < 8 {
            return Err(ParseError::Truncated);
        }
        cpu = Some(read_u32_at(d, e, pos));
        pos += 8;
    }
    proof {
        assert(pos == p_period(st));
    }
    let mut period: Option<u64> = None;
    if st & PERF_SAMPLE_PERIOD != 0 {
        if dl - pos < 8 {
            return Err(ParseError::Truncated);
        }
        period = Some(read_u64_at(d, e, pos));
        pos += 8;
    }
    Ok(SampleFront { pid, tid, timestamp, cpu, period, pos })
}

fn read_field_skip(d: &[u8], e: Endian, st: u64, rf: u64, pos: usize) -> (r: Result<
    usize,
    ParseError,
>)
    requires
        pos <= d@.len(),
    ensures
        match read_field_end(d@, e, st, rf, pos as int) {
            Some(p) => r matches Ok(q) && q == p && pos <= q <= d@.len(),
            None => r matches Err(x) && x == ParseError::Truncated,
        },
{
    let dl = d.len();
    let mut pos = pos;
    if st & PERF_SAMPLE_READ != 0 {
        if rf & PERF_FORMAT_GROUP == 0 {
            if dl - pos < 8 {
                return Err(ParseError::Truncated);
            }
            pos += 8;
            if rf & PERF_FORMAT_TOTAL_TIME_ENABLED != 0 {
                if dl - pos < 8 {
                    return Err(ParseError::Truncated);
                }
                pos += 8;
            }
            if rf & PERF_FORMAT_TOTAL_TIME_RUNNING != 0 {
                if dl - pos < 8 {
                    return Err(ParseError::Truncated);
                }
                pos += 8;
            }
            if rf & PERF_FORMAT_ID != 0 {
                if dl - pos < 8 {
                    return Err(ParseError::Truncated);
                }
                pos += 8;
            }
        } else {
            if dl - pos < 8 {
                return Err(ParseError::Truncated);
            }
            let nr = read_u64_at(d, e, pos);
            pos += 8;
            if rf & PERF_FORMAT_TOTAL_TIME_ENABLED != 0 {
                if dl - pos < 8 {
                    return Err(ParseError::Truncated);
                }
                pos += 8;
            }
            if rf & PERF_FORMAT_TOTAL_TIME_RUNNING != 0 {
                if dl - pos < 8 {
                    return Err(ParseError::Truncated);
                }
                pos += 8;
            }
            let per: u128 = if rf & PERF_FORMAT_ID != 0 {
                16
            } else {
                8
            };
            let total: u128 = (nr as u128) * per;
            proof {
                assert((nr as int) * (per as int) >= 0 && (nr as int) * (per as int) >= nr as int
                    && (nr as int) * (per as int) <= 0xffff_ffff_ffff_ffff * 16)
                    by (nonlinear_arith)
                    requires
                        0 <= nr as int <= 0xffff_ffff_ffff_ffff,
                        per as int == 8 || per as int == 16,
                ;
            }
            if total > (dl - pos) as u128 {
                return Err(ParseError::Truncated);
            }
            pos += total as usize;
        }
    }
    Ok(pos)
}

fn callchain_read(d: &[u8], e: Endian, st: u64, pos: usize) -> (r: Result<
    (Option<Vec<u64>>, usize),
    ParseError,
>)
    requires
        pos <= d@.len(),
    ensures
        match callchain_field(d@, e, st, pos as int) {
            Some((cm, p)) => r matches Ok(q) && p == q.1 && pos <= q.1 <= d@.len() && cm == (
            match q.0 {
                Some(c) => Some(c@),
                None => None::<Seq<u64>>,
            }),
            None => r matches Err(x) && x == ParseError::Truncated,
        },
{
    let dl = d.len();
    let mut pos = pos;
    if st & PERF_SAMPLE_CALLCHAIN == 0 {
        return Ok((None, pos));
    }
    if dl - pos < 8 {
        return Err(ParseError::Truncated);
    }
    let n = read_u64_at(d, e, pos);
    pos += 8;
    let total: u128 = (n as u128) * 8;
    proof {
        assert((n as int) * 8 >= n as int && (n as int) * 8 <= 0xffff_ffff_ffff_ffff * 8)
            by (nonlinear_arith)
            requires
                0 <= n as int <= 0xffff_ffff_ffff_ffff,
        ;
    }
    if total > (dl - pos) as u128 {
        return Err(ParseError::Truncated);
    }
    let n_count = n as usize;
    let base = pos;
    let mut chain: Vec<u64> = Vec::new();
    let mut i: usize = 0;
    while i < n_count
        invariant
            i <= n_count,
            chain@.len() == i as int,
            base + 8 * (n_count as int) <= dl,
            dl == d@.len(),
            forall|j: int| 0 <= j < i ==> chain@[j] == u64_at(d@, e, base + 8 * j),
        decreases n_count - i,
    {
        let w = read_u64_at(d, e, base + 8 * i);
        chain.push(w);
        i += 1;
    }
    pos = base + 8 * n_count;
    proof {
        assert(chain@ =~= words_at(d@, e, base as int, n as int));
    }
    Ok((Some(chain), pos))
}

fn raw_skip(d: &[u8], e: Endian, st: u64, pos: usize) -> (r: Result<usize, ParseError>)
    requires
        pos <= d@.len(),
    ensures
        match raw_field_end(d@, e, st, pos as int) {
            Some(p) => r matches Ok(q) && q == p && pos <= q <= d@.len(),
            None => r matches Err(x) && x == ParseError::Truncated,
        },
{
    let dl = d.len();
    let mut pos = pos;
    if st & PERF_SAMPLE_RAW != 0 {
        if dl - pos < 4 {
            return Err(ParseError::Truncated);
        }
        let size = read_u32_at(d, e, pos);
        pos += 4;
        if size as usize > dl - pos {
            return Err(ParseError::Truncated);
        }
        pos += size as usize;
    }
    Ok(pos)
}

fn branch_skip(d: &[u8], e: Endian, st: u64, pos: usize) -> (r: Result<usize, ParseError>)
    requires
        pos <= d@.len(),
    ensures
        match branch_field_end(d@, e, st, pos as int) {
            Some(p) => r matches Ok(q) && q == p && pos <= q <= d@.len(),
            None => r matches Err(x) && x == ParseError::Truncated,
        },
{
    let dl = d.len();
    let mut pos = pos;
    if st & PERF_SAMPLE_BRANCH_STACK != 0 {
        if dl - pos < 8 {
            return Err(ParseError::Truncated);
        }
        let n = read_u64_at(d, e, pos);
        pos += 8;
        if st & PERF_SAMPLE_BRANCH_HW_INDEX != 0 {
            if dl - pos < 8 {
                return Err(ParseError::Truncated);
            }
            pos += 8;
        }
        let total: u128 = (n as u128) * 24;
        proof {
            assert((n as int) * 24 >= n as int && (n as int) * 24 <= 0xffff_ffff_ffff_ffff * 24)
                by (nonlinear_arith)
                requires
                    0 <= n as int <= 0xffff_ffff_ffff_ffff,
            ;
        }
        if total > (dl - pos) as u128 {
            return Err(ParseError::Truncated);
        }
        pos += total as usize;
    }
    Ok(pos)
}

fn regs_user_read<'a>(
    data: RawData<'a>,
    e: Endian,
    st: u64,
    regs_count: usize,
    sample_regs_user: u64,
    pos: usize,
) -> (r: Result<(Option<Regs<'a>>, usize), ParseError>)
    requires
        pos <= data@.len(),
    ensures
        match regs_user_field(data@, e, st, regs_count as int, sample_regs_user, pos as int) {
            Some((rm, p)) => r matches Ok(q) && p == q.1 && pos <= q.1 <= data@.len() && rm == (
            match q.0 {
                Some(rg) => Some(rg@),
                None => None::<RegsView>,
            }),
            None => r matches Err(x) && x == ParseError::Truncated,
        },
{
    let d = data.as_slice();
    let dl = d.len();
    let mut pos = pos;
    if st & PERF_SAMPLE_REGS_USER == 0 {
        return Ok((None, pos));
    }
    if dl - pos < 8 {
        return Err(ParseError::Truncated);
    }
    let abi = read_u64_at(d, e, pos);
    pos += 8;
    if abi == 0 {
        return Ok((None, pos));
    }
    let total: u128 = (regs_count as u128) * 8;
    proof {
        assert((regs_count as int) * 8 >= regs_count as int && (regs_count as int) * 8 >= 0)
            by (nonlinear_arith)
            requires
                0 <= regs_count as int,
        ;
    }
    if total > (dl - pos) as u128 {
        return Err(ParseError::Truncated);
    }
    let end = pos + total as usize;
    let sub = data.get(pos, end);
    let raw_regs = RawRegs::from_raw_data(sub, e);
    proof {
        assert(sub@ == data@.subrange(pos as int, end as int));
        assert(sub@.len() == 8 * (regs_count as int));
        assert(sub@.len() / 8 == regs_count as int);
        let target = words_at(data@, e, pos as int, regs_count as int);
        assert forall|i: int| 0 <= i < regs_count as int implies #[trigger] raw_regs@[i]
            == target[i] by {
            assert(0 <= 8 * i && 8 * i + 8 <= sub@.len()) by (nonlinear_arith)
                requires
                    0 <= i < regs_count as int,
                    sub@.len() == 8 * (regs_count as int),
            ;
            assert(raw_regs@[i] == u64_at(sub@, e, 8 * i));
            assert(target[i] == u64_at(data@, e, pos as int + 8 * i));
        }
        assert(raw_regs@ =~= target);
    }
    let regs = Regs::new(sample_regs_user, raw_regs);
    Ok((Some(regs), end))
}

fn stack_read<'a>(data: RawData<'a>, e: Endian, st: u64, pos: usize) -> (r: Result<
    (RawData<'a>, u64, usize),
    ParseError,
>)
    requires
        pos <= data@.len(),
    ensures
        match stack_field(data@, e, st, pos as int) {
            Some((sm, dm, p)) => r matches Ok(q) && q.0@ == sm && q.1 == dm && q.2 == p && pos
                <= q.2 <= data@.len(),
            None => r matches Err(x) && x == ParseError::Truncated,
        },
{
    let d = data.as_slice();
    let dl = d.len();
    let mut pos = pos;
    if st & PERF_SAMPLE_STACK_USER == 0 {
        let empty = data.get(0, 0);
        proof {
            assert(empty@ =~= Seq::<u8>::empty());
        }
        return Ok((empty, 0, pos));
    }
    if dl - pos < 8 {
        return Err(ParseError::Truncated);
    }
    let size = read_u64_at(d, e, pos);
    pos += 8;
    if size > (dl - pos) as u64 {
        return Err(ParseError::Truncated);
    }
    let send = pos + size as usize;
    let stack = data.get(pos, send);
    pos = send;
    if size != 0 {
        if dl - pos < 8 {
            return Err(ParseError::Truncated);
        }
        let dynamic_stack_size = read_u64_at(d, e, pos);
        pos += 8;
        Ok((stack, dynamic_stack_size, pos))
    } else {
        Ok((stack, 0, pos))
    }
}

fn tail_skip_c(d: &[u8], st: u64, pos: usize) -> (r: Result<usize, ParseError>)
    requires
        pos <= d@.len(),
    ensures
        match tail_c_end(d@, st, pos as int) {
            Some(p) => r matches Ok(q) && q == p && pos <= q <= d@.len(),
            None => r matches Err(x) && x == ParseError::Truncated,
        },
{
    let dl = d.len();
    let mut pos = pos;
    if st & PERF_SAMPLE_DATA_PAGE_SIZE != 0 {
        if dl - pos < 8 {
            return Err(ParseError::Truncated);
        }
        pos += 8;
    }
    if st & PERF_SAMPLE_CODE_PAGE_SIZE != 0 {
        if dl - pos < 8 {
            return Err(ParseError::Truncated);
        }
        pos += 8;
    }
    Ok(pos)
}

fn tail_skip_b(d: &[u8], e: Endian, st: u64, pos: usize) -> (r: Result<usize, ParseError>)
    requires
        pos <= d@.len(),
    ensures
        match tail_b_end(d@, e, st, pos as int) {
            Some(p) => r matches Ok(q) && q == p && pos <= q <= d@.len(),
            None => r matches Err(x) && x == ParseError::Truncated,
        },
{
    let dl = d.len();
    let mut pos = pos;
    if st & PERF_SAMPLE_PHYS_ADDR != 0 {
        if dl - pos < 8 {
            return Err(ParseError::Truncated);
        }
        pos += 8;
    }
    if st & PERF_SAMPLE_AUX != 0 {
        if dl - pos < 8 {
            return Err(ParseError::Truncated);
        }
        let size = read_u64_at(d, e, pos);
        pos += 8;
        if size > (dl - pos) as u64 {
            return Err(ParseError::Truncated);
        }
        pos += size as usize;
    }
    tail_skip_c(d, st, pos)
}

#[verifier::rlimit(100)]
#[verifier::spinoff_prover]
fn tail_skip(d: &[u8], e: Endian, st: u64, regs_count: usize, pos: usize) -> (r: Result<
    usize,
    ParseError,
>)
    requires
        pos <= d@.len(),
    ensures
        match tail_a_end(d@, e, st, regs_count as int, pos as int) {
            Some(p) => r matches Ok(q) && q == p && pos <= q <= d@.len(),
            None => r matches Err(x) && x == ParseError::Truncated,
        },
{
    let dl = d.len();
    let mut pos = pos;
    if st & PERF_SAMPLE_WEIGHT != 0 {
        if dl - pos < 8 {
            return Err(ParseError::Truncated);
        }
        pos += 8;
    }
    if st & PERF_SAMPLE_DATA_SRC != 0 {
        if dl - pos < 8 {
            return Err(ParseError::Truncated);
        }
        pos += 8;
    }
    if st & PERF_SAMPLE_TRANSACTION != 0 {
        if dl - pos < 8 {
            return Err(ParseError::Truncated);
        }
        pos += 8;
    }
    if st & PERF_SAMPLE_REGS_INTR != 0 {
        if dl - pos < 8 {
            return Err(ParseError::Truncated);
        }
        let abi = read_u64_at(d, e, pos);
        pos += 8;
        if abi != 0 {
            let total: u128 = (regs_count as u128) * 8;
            proof {
                assert((regs_count as int) * 8 >= regs_count as int && (regs_count as int) * 8
                    >= 0) by (nonlinear_arith)
                    requires
                        0 <= regs_count as int,
                ;
            }
            if total > (dl - pos) as u128 {
                return Err(ParseError::Truncated);
            }
            pos += total as usize;
        }
    }
    tail_skip_b(d, e, st, pos)
}

/// Decode a sample body. Every field is consumed in the mandated order, gated
/// on its `sample_type` bit; the populated optional fields of the result are
/// exactly those whose flag bits are set.
#[verifier::rlimit(50)]
pub fn parse_sample<'a>(
    data: RawData<'a>,
    e: Endian,
    sample_type: u64,
    read_format: u64,
    regs_count: usize,
    sample_regs_user: u64,
) -> (r: Result<SampleEvent<'a>, ParseError>)
    ensures
        match spec_sample(data@, e, sample_type, read_format, regs_count as int, sample_regs_user) {
            Some(m) => r matches Ok(s) && s@ == m,
            None => r matches Err(x) && x == ParseError::Truncated,
        },
{
    let st = sample_type;
    let rf = read_format;
    let d = data.as_slice();
    let front = match sample_front(d, e, st) {
        Ok(f) => f,
        Err(x) => {
            return Err(x);
        },
    };
    let p1 = match read_field_skip(d, e, st, rf, front.pos) {
        Ok(p) => p,
        Err(x) => {
            return Err(x);
        },
    };
    let (callchain, p2) = match callchain_read(d, e, st, p1) {
        Ok(q) => q,
        Err(x) => {
            return Err(x);
        },
    };
    let p3 = match raw_skip(d, e, st, p2) {
        Ok(p) => p,
        Err(x) => {
            return Err(x);
        },
    };
    let p4 = match branch_skip(d, e, st, p3) {
        Ok(p) => p,
        Err(x) => {
            return Err(x);
        },
    };
    let (regs, p5) = match regs_user_read(data, e, st, regs_count, sample_regs_user, p4) {
        Ok(q) => q,
        Err(x) => {
            return Err(x);
        },
    };
    let (stack, dynamic_stack_size, p6) = match stack_read(data, e, st, p5) {
        Ok(q) => q,
        Err(x) => {
            return Err(x);
        },
    };
    let _p7 = match tail_skip(d, e, st, regs_count, p6) {
        Ok(p) => p,
        Err(x) => {
            return Err(x);
        },
    };
    let ev = SampleEvent {
        timestamp: front.timestamp,
        pid: front.pid,
        tid: front.tid,
        cpu: front.cpu,
        period: front.period,
        regs,
        dynamic_stack_size,
        stack,
        callchain,
    };
    proof {
        match spec_sample(data@, e, st, rf, regs_count as int, sample_regs_user) {
            Some(m) => {
                assert(ev@ =~~= m);
            },
            None => {
                assert(false);
            },
        }
    }
    Ok(ev)
}

/// For any `sample_type`, a successfully decoded sample populates exactly the
/// optional fields whose flag bits are set: pid/tid with the TID flag, the
/// timestamp with TIME, the cpu with CPU, the period with PERIOD and the
/// callchain with CALLCHAIN. Without the STACK_USER flag the stack view is
/// empty and the dynamic stack size is zero; without REGS_USER no register
/// set is present.
pub proof fn lemma_sample_options_match_flags(
    d: Seq<u8>,
    e: Endian,
    st: u64,
    rf: u64,
    regs_count: int,
    regs_mask: u64,
    m: SampleView,
)
    requires
        spec_sample(d, e, st, rf, regs_count, regs_mask) == Some(m),
    ensures
        m.pid is Some <==> flag64(st, PERF_SAMPLE_TID),
        m.tid is Some <==> flag64(st, PERF_SAMPLE_TID),
        m.timestamp is Some <==> flag64(st, PERF_SAMPLE_TIME),
        m.cpu is Some <==> flag64(st, PERF_SAMPLE_CPU),
        m.period is Some <==> flag64(st, PERF_SAMPLE_PERIOD),
        m.callchain is Some <==> flag64(st, PERF_SAMPLE_CALLCHAIN),
        !flag64(st, PERF_SAMPLE_STACK_USER) ==> m.stack.len() == 0 && m.dynamic_stack_size == 0,
        !flag64(st, PERF_SAMPLE_REGS_USER) ==> m.regs is None,
{
}

/// A decoded sample's stack view is the subrange of the record's bytes right
/// after the declared size word, with length exactly the declared size; a
/// declared size of zero forces a dynamic stack size of zero.
pub proof fn lemma_stack_view_matches_declared_size(
    d: Seq<u8>,
    e: Endian,
    st: u64,
    p: int,
    stack: Seq<u8>,
    dynamic_stack_size: u64,
    q: int,
)
    requires
        0 <= p,
        flag64(st, PERF_SAMPLE_STACK_USER),
        stack_field(d, e, st, p) == Some((stack, dynamic_stack_size, q)),
    ensures
        stack == d.subrange(p + 8, p + 8 + u64_at(d, e, p)),
        stack.len() == u64_at(d, e, p),
        u64_at(d, e, p) == 0 ==> dynamic_stack_size == 0,
{
}

impl<'a> RawEvent<'a> {
    /// Decode this record under the given session parameters. The record kind
    /// selects the body layout; a kind this decoder does not know is not an
    /// error and comes back unchanged as `Event::Raw`.
    pub fn parse(
        self,
        e: Endian,
        sample_type: u64,
        read_format: u64,
        regs_count: usize,
        sample_regs_user: u64,
        _sample_id_all: bool,
    ) -> (r: Result<Event<'a>, ParseError>)
        ensures
            self.kind == PERF_RECORD_EXIT ==> (match spec_process(self.data@, e) {
                Ok(v) => r matches Ok(Event::Exit(p)) && p == v,
                Err(x) => r matches Err(y) && y == x,
            }),
            self.kind == PERF_RECORD_FORK ==> (match spec_process(self.data@, e) {
                Ok(v) => r matches Ok(Event::Fork(p)) && p == v,
                Err(x) => r matches Err(y) && y == x,
            }),
            self.kind == PERF_RECORD_SAMPLE ==> (match spec_sample(
                self.data@,
                e,
                sample_type,
                read_format,
                regs_count as int,
                sample_regs_user,
            ) {
                Some(m) => r matches Ok(Event::Sample(s)) && s@ == m,
                None => r matches Err(y) && y == ParseError::Truncated,
            }),
            self.kind == PERF_RECORD_COMM ==> (match spec_comm(self.data@, e, self.misc) {
                Ok(v) => r matches Ok(Event::Comm(c)) && c@ == v,
                Err(x) => r matches Err(y) && y == x,
            }),
            self.kind == PERF_RECORD_MMAP ==> (match spec_mmap(self.data@, e, self.misc) {
                Ok(v) => r matches Ok(Event::Mmap(m)) && m@ == v,
                Err(x) => r matches Err(y) && y == x,
            }),
            self.kind == PERF_RECORD_MMAP2 ==> (match spec_mmap2(self.data@, e, self.misc) {
                Ok(v) => r matches Ok(Event::Mmap2(m)) && m@ == v,
                Err(x) => r matches Err(y) && y == x,
            }),
            self.kind == PERF_RECORD_LOST ==> (match spec_lost(self.data@, e) {
                Ok(v) => r matches Ok(Event::Lost(l)) && l == v,
                Err(x) => r matches Err(y) && y == x,
            }),
            self.kind == PERF_RECORD_THROTTLE ==> (match spec_throttle(self.data@, e) {
                Ok(v) => r matches Ok(Event::Throttle(t)) && t == v,
                Err(x) => r matches Err(y) && y == x,
            }),
            self.kind == PERF_RECORD_UNTHROTTLE ==> (match spec_throttle(self.data@, e) {
                Ok(v) => r matches Ok(Event::Unthrottle(t)) && t == v,
                Err(x) => r matches Err(y) && y == x,
            }),
            self.kind == PERF_RECORD_SWITCH ==> (r matches Ok(Event::ContextSwitch(k)) && k
                == spec_switch(self.misc)),
            self.kind != PERF_RECORD_EXIT && self.kind != PERF_RECORD_FORK && self.kind
                != PERF_RECORD_SAMPLE && self.kind != PERF_RECORD_COMM && self.kind
                != PERF_RECORD_MMAP && self.kind != PERF_RECORD_MMAP2 && self.kind
                != PERF_RECORD_LOST && self.kind != PERF_RECORD_THROTTLE && self.kind
                != PERF_RECORD_UNTHROTTLE && self.kind != PERF_RECORD_SWITCH ==> (r matches Ok(
                Event::Raw(re),
            ) && re.kind == self.kind && re.misc == self.misc && re.data@ == self.data@),
    {
        if self.kind == PERF_RECORD_EXIT || self.kind == PERF_RECORD_FORK {
            let ev = match parse_process(self.data, e) {
                Ok(v) => v,
                Err(x) => {
                    return Err(x);
                },
            };
            if self.kind == PERF_RECORD_EXIT {
                Ok(Event::Exit(ev))
            } else {
                Ok(Event::Fork(ev))
            }
        } else if self.kind == PERF_RECORD_SAMPLE {
            match parse_sample(self.data, e, sample_type, read_format, regs_count, sample_regs_user)
            {
                Ok(s) => Ok(Event::Sample(s)),
                Err(x) => Err(x),
            }
        } else if self.kind == PERF_RECORD_COMM {
            match parse_comm(self.data, e, self.misc) {
                Ok(c) => Ok(Event::Comm(c)),
                Err(x) => Err(x),
            }
        } else if self.kind == PERF_RECORD_MMAP {
            match parse_mmap(self.data, e, self.misc) {
                Ok(m) => Ok(Event::Mmap(m)),
                Err(x) => Err(x),
            }
        } else if self.kind == PERF_RECORD_MMAP2 {
            match parse_mmap2(self.data, e, self.misc) {
                Ok(m) => Ok(Event::Mmap2(m)),
                Err(x) => Err(x),
            }
        } else if self.kind == PERF_RECORD_LOST {
            match parse_lost(self.data, e) {
                Ok(l) => Ok(Event::Lost(l)),
                Err(x) => Err(x),
            }
        } else if self.kind == PERF_RECORD_THROTTLE || self.kind == PERF_RECORD_UNTHROTTLE {
            let ev = match parse_throttle(self.data, e) {
                Ok(v) => v,
                Err(x) => {
                    return Err(x);
                },
            };
            if self.kind == PERF_RECORD_THROTTLE {
                Ok(Event::Throttle(ev))
            } else {
                Ok(Event::Unthrottle(ev))
            }
        } else if self.kind == PERF_RECORD_SWITCH {
            Ok(Event::ContextSwitch(switch_kind_from_misc(self.misc)))
        } else {
            Ok(Event::Raw(self))
        }
    }
}

} // verus!
