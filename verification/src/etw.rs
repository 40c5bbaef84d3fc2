//! The ETW `TRACE_EVENT_INFO` schema decoder.
//!
//! The schema arrives as one opaque byte buffer: a fixed header, a trailing
//! array of property descriptors, and a pool of NUL-terminated UTF-16 strings
//! addressed by byte offsets stored in the header and the descriptors. The
//! header declares a one-element trailing array, so the `i`-th descriptor
//! begins at the header size minus one descriptor size, plus `i` descriptor
//! sizes. All fields are little-endian.
//!
//! Value maps (enum and bitmap lookups) are resolved by an OS query outside
//! this crate: the caller probes for the buffer size, fetches the
//! `EVENT_MAP_INFO` bytes, and hands them to [`parse_event_map_info`]. The
//! two status checks of that protocol are decided here.

use vstd::prelude::*;
use vstd::slice::slice_to_vec;
use crate::byteread::{Endian, read_u16_at, read_u32_at, read_u8_at, u16_at, u32_at};

verus! {

/// Total size of the `TRACE_EVENT_INFO` header, its declared one-element
/// trailing descriptor array included.
pub const TRACE_EVENT_INFO_SIZE: usize = 136;

/// Size of one `EVENT_PROPERTY_INFO` descriptor.
pub const EVENT_PROPERTY_INFO_SIZE: usize = 24;

/// Offset of the first property descriptor: the header size minus the one
/// descriptor the header itself declares.
pub const PROPERTY_ARRAY_OFFSET: usize = 112;

/// The status an OS size probe must return: the supplied buffer was too
/// small, and the required size has been written out.
pub const ERROR_INSUFFICIENT_BUFFER: u32 = 122;

pub const EVENTMAP_INFO_FLAG_MANIFEST_VALUEMAP: u32 = 1;
pub const EVENTMAP_INFO_FLAG_MANIFEST_BITMAP: u32 = 2;
pub const EVENTMAP_ENTRY_VALUETYPE_ULONG: u32 = 0;

/// Typed failure of the schema decoder.
#[derive(Clone, Copy, PartialEq, Eq, Structural, Debug)]
pub enum EtwError {
    /// A read would exceed the buffer.
    Truncated,
    /// A property index at or past the declared property count.
    InvalidPropertyIndex,
    /// A value map whose flag is neither VALUEMAP nor BITMAP; carries the flag.
    UnsupportedMapFlag(u32),
    /// A value map whose entries are not ULONG-valued; carries the type.
    UnsupportedValueType(u32),
    /// An OS query returned an unexpected status; carries the status.
    OsCallFailure(u32),
}

/// How the event's schema was defined.
#[derive(Clone, Copy, PartialEq, Eq, Structural, Debug)]
pub enum DecodingSource {
    DecodingSourceXMLFile,
    DecodingSourceWbem,
    DecodingSourceWPP,
    DecodingSourceTlg,
    DecodingSourceMax,
}

/// The decoding-source enumeration as stored: 0 XMLFile, 1 Wbem, 2 WPP,
/// 3 Tlg; anything else is Max.
pub open spec fn spec_decoding_source(v: u32) -> DecodingSource {
    if v == 0 {
        DecodingSource::DecodingSourceXMLFile
    } else if v == 1 {
        DecodingSource::DecodingSourceWbem
    } else if v == 2 {
        DecodingSource::DecodingSourceWPP
    } else if v == 3 {
        DecodingSource::DecodingSourceTlg
    } else {
        DecodingSource::DecodingSourceMax
    }
}

impl DecodingSource {
    pub fn from_u32(v: u32) -> (r: Self)
        ensures
            r == spec_decoding_source(v),
    {
        if v == 0 {
            DecodingSource::DecodingSourceXMLFile
        } else if v == 1 {
            DecodingSource::DecodingSourceWbem
        } else if v == 2 {
            DecodingSource::DecodingSourceWPP
        } else if v == 3 {
            DecodingSource::DecodingSourceTlg
        } else {
            DecodingSource::DecodingSourceMax
        }
    }
}

/// A provider GUID, decomposed as stored: one 32-bit and two 16-bit
/// little-endian groups, then eight raw bytes.
#[derive(Clone, PartialEq, Eq, Debug)]
pub struct Guid {
    pub data1: u32,
    pub data2: u16,
    pub data3: u16,
    pub data4: Vec<u8>,
}

/// What `String::from_utf16_lossy` returns for the given code units: a
/// function of the units alone.
pub uninterp spec fn utf16_lossy(ws: Seq<u16>) -> Seq<char>;

/// Relies on `String::from_utf16_lossy`: the result depends on the code units
/// alone, and no units decode to the empty string.
#[verifier::external_body]
fn utf16_lossy_string(ws: &Vec<u16>) -> (r: String)
    ensures
        r@ == utf16_lossy(ws@),
        ws@.len() == 0 ==> r@.len() == 0,
{
    String::from_utf16_lossy(ws.as_slice())
}

/// The UTF-16 code units stored at byte offset `off`, up to the first zero
/// unit or the end of the buffer. Each unit is two little-endian bytes.
pub open spec fn utf16_units(d: Seq<u8>, off: int) -> Seq<u16>
    decreases d.len() - off,
{
    if off < 0 || off + 2 > d.len() {
        Seq::empty()
    } else {
        let w = u16_at(d, Endian::Little, off);
        if w == 0 {
            Seq::empty()
        } else {
            seq![w] + utf16_units(d, off + 2)
        }
    }
}

/// The decoded string at byte offset `off`: the units up to the first NUL,
/// decoded lossily.
pub open spec fn string_at(d: Seq<u8>, off: int) -> Seq<char> {
    utf16_lossy(utf16_units(d, off))
}

fn read_utf16_until_nul(d: &[u8], off: usize) -> (r: Vec<u16>)
    ensures
        r@ == utf16_units(d@, off as int),
{
    let n = d.len();
    let mut out: Vec<u16> = Vec::new();
    let mut i = off;
    loop
        invariant
            off <= i,
            n == d@.len(),
            out@ + utf16_units(d@, i as int) == utf16_units(d@, off as int),
        decreases n - i,
    {
        if i >= n || n - i < 2 {
            proof {
                assert(out@ + utf16_units(d@, i as int) =~= out@);
            }
            return out;
        }
        let w = read_u16_at(d, Endian::Little, i);
        if w == 0 {
            proof {
                assert(out@ + utf16_units(d@, i as int) =~= out@);
            }
            return out;
        }
        proof {
            assert(out@.push(w) + utf16_units(d@, i + 2) =~= out@ + utf16_units(d@, i as int));
        }
        out.push(w);
        i += 2;
    }
}

/// One parsed `EVENT_PROPERTY_INFO` descriptor. The in/out types and the map
/// name offset are the non-struct reading of the descriptor's union.
#[derive(Clone, Copy, PartialEq, Eq, Structural, Debug)]
pub struct EventPropertyDesc {
    pub flags: u32,
    pub name_offset: u32,
    pub in_type: u16,
    pub out_type: u16,
    pub map_name_offset: u32,
    pub count: u16,
    pub length: u16,
}

/// Byte offset of the `i`-th property descriptor within the buffer.
pub open spec fn prop_offset(i: int) -> int {
    PROPERTY_ARRAY_OFFSET + EVENT_PROPERTY_INFO_SIZE * i
}

/// The descriptor stored at byte offset `q`.
pub open spec fn spec_prop_desc(d: Seq<u8>, q: int) -> EventPropertyDesc {
    EventPropertyDesc {
        flags: u32_at(d, Endian::Little, q),
        name_offset: u32_at(d, Endian::Little, q + 4),
        in_type: u16_at(d, Endian::Little, q + 8),
        out_type: u16_at(d, Endian::Little, q + 10),
        map_name_offset: u32_at(d, Endian::Little, q + 12),
        count: u16_at(d, Endian::Little, q + 16),
        length: u16_at(d, Endian::Little, q + 18),
    }
}

/// Consecutive property descriptors are laid out back to back: descriptor
/// `i + 1` begins exactly one descriptor size after descriptor `i`.
pub proof fn lemma_property_descriptor_stride(i: int)
    ensures
        prop_offset(i + 1) == prop_offset(i) + EVENT_PROPERTY_INFO_SIZE,
{
}

/// A resolved value map: symbolic names for the values (or bits) of a
/// property. Later entries for the same value override earlier ones.
#[derive(Clone, PartialEq, Eq, Debug)]
pub struct PropertyMapInfo {
    pub is_bitmap: bool,
    pub entries: Vec<(u32, String)>,
}

impl PropertyMapInfo {
    /// The name mapped to `value`: the last entry that carries it.
    pub fn lookup(&self, value: u32) -> (r: Option<&String>)
        ensures
            match r {
                Some(s) => exists|i: int|
                    0 <= i < self.entries@.len() && self.entries@[i].0 == value && self.entries@[i].1
                        == s && (forall|j: int|
                        i < j < self.entries@.len() ==> (#[trigger] self.entries@[j]).0 != value),
                None => forall|i: int|
                    0 <= i < self.entries@.len() ==> (#[trigger] self.entries@[i]).0 != value,
            },
    {
        let n = self.entries.len();
        let mut i = n;
        while i > 0
            invariant
                i <= n,
                n == self.entries@.len(),
                forall|j: int| i <= j < n ==> (#[trigger] self.entries@[j]).0 != value,
            decreases i,
        {
            if self.entries[i - 1].0 == value {
                return Some(&self.entries[i - 1].1);
            }
            i -= 1;
        }
        None
    }
}

/// One property of the event: its decoded name, its descriptor, and its
/// value map when the caller resolved one.
#[derive(Clone, PartialEq, Eq, Debug)]
pub struct EtwProperty {
    pub name: String,
    pub desc: EventPropertyDesc,
    pub map_info: Option<PropertyMapInfo>,
}

/// The value of the `i`-th map entry.
pub open spec fn map_entry_value(d: Seq<u8>, i: int) -> u32 {
    u32_at(d, Endian::Little, 20 + 8 * i)
}

/// The name of the `i`-th map entry: the string at its output offset.
pub open spec fn map_entry_name(d: Seq<u8>, i: int) -> Seq<char> {
    string_at(d, u32_at(d, Endian::Little, 16 + 8 * i) as int)
}

/// What parsing an `EVENT_MAP_INFO` buffer must yield: header checks first,
/// then one entry per declared count.
pub open spec fn spec_map_info(d: Seq<u8>) -> Result<(bool, int), EtwError> {
    if d.len() < 16 {
        Err(EtwError::Truncated)
    } else {
        let map_flag = u32_at(d, Endian::Little, 4);
        if map_flag != EVENTMAP_INFO_FLAG_MANIFEST_VALUEMAP && map_flag
            != EVENTMAP_INFO_FLAG_MANIFEST_BITMAP {
            Err(EtwError::UnsupportedMapFlag(map_flag))
        } else {
            let value_type = u32_at(d, Endian::Little, 12);
            if value_type != EVENTMAP_ENTRY_VALUETYPE_ULONG {
                Err(EtwError::UnsupportedValueType(value_type))
            } else {
                let n = u32_at(d, Endian::Little, 8) as int;
                if 16 + 8 * n <= d.len() {
                    Ok((map_flag == EVENTMAP_INFO_FLAG_MANIFEST_BITMAP, n))
                } else {
                    Err(EtwError::Truncated)
                }
            }
        }
    }
}

/// Parse the `EVENT_MAP_INFO` bytes an OS query returned. Only manifest
/// value maps and bitmaps with ULONG-valued entries are supported; any other
/// layout is a typed failure, and the caller degrades to a property without
/// a map.
pub fn parse_event_map_info(buffer: &[u8]) -> (r: Result<PropertyMapInfo, EtwError>)
    ensures
        match spec_map_info(buffer@) {
            Ok((is_bitmap, n)) => r matches Ok(m) && m.is_bitmap == is_bitmap && m.entries@.len()
                == n && (forall|i: int|
                0 <= i < n ==> (#[trigger] m.entries@[i]).0 == map_entry_value(buffer@, i)
                    && m.entries@[i].1@ == map_entry_name(buffer@, i)),
            Err(x) => r matches Err(y) && y == x,
        },
{
    let dl = buffer.len();
    if dl < 16 {
        return Err(EtwError::Truncated);
    }
    let map_flag = read_u32_at(buffer, Endian::Little, 4);
    if map_flag != EVENTMAP_INFO_FLAG_MANIFEST_VALUEMAP && map_flag
        != EVENTMAP_INFO_FLAG_MANIFEST_BITMAP {
        return Err(EtwError::UnsupportedMapFlag(map_flag));
    }
    let value_type = read_u32_at(buffer, Endian::Little, 12);
    if value_type != EVENTMAP_ENTRY_VALUETYPE_ULONG {
        return Err(EtwError::UnsupportedValueType(value_type));
    }
    let n = read_u32_at(buffer, Endian::Little, 8);
    if (n as u64) > ((dl - 16) as u64) / 8 {
        proof {
            assert(16 + 8 * (n as int) > dl as int) by (nonlinear_arith)
                requires
                    n as int > (dl as int - 16) / 8,
                    dl as int >= 16,
            ;
        }
        return Err(EtwError::Truncated);
    }
    proof {
        assert(16 + 8 * (n as int) <= dl as int) by (nonlinear_arith)
            requires
                n as int <= (dl as int - 16) / 8,
                dl as int >= 16,
        ;
    }
    let n_count = n as usize;
    let mut entries: Vec<(u32, String)> = Vec::new();
    let mut i: usize = 0;
    while i < n_count
        invariant
            i <= n_count,
            16 + 8 * (n_count as int) <= buffer@.len(),
            buffer@.len() <= usize::MAX,
            entries@.len() == i as int,
            forall|j: int|
                0 <= j < i ==> (#[trigger] entries@[j]).0 == map_entry_value(buffer@, j)
                    && entries@[j].1@ == map_entry_name(buffer@, j),
        decreases n_count - i,
    {
        proof {
            assert(8 * (i as int) + 8 <= 8 * (n_count as int)) by (nonlinear_arith)
                requires
                    (i as int) < (n_count as int),
            ;
        }
        let value = read_u32_at(buffer, Endian::Little, 20 + 8 * i);
        let output_offset = read_u32_at(buffer, Endian::Little, 16 + 8 * i);
        let units = read_utf16_until_nul(buffer, output_offset as usize);
        let name = utf16_lossy_string(&units);
        entries.push((value, name));
        i += 1;
    }
    Ok(PropertyMapInfo { is_bitmap: map_flag == EVENTMAP_INFO_FLAG_MANIFEST_BITMAP, entries })
}

/// First step of the two-phase OS map query: the probe with a null buffer
/// must report an insufficient buffer; any other status is a hard failure.
pub fn check_probe_status(status: u32) -> (r: Result<(), EtwError>)
    ensures
        status == ERROR_INSUFFICIENT_BUFFER ==> r is Ok,
        status != ERROR_INSUFFICIENT_BUFFER ==> (r matches Err(x) && x == EtwError::OsCallFailure(
            status,
        )),
{
    if status == ERROR_INSUFFICIENT_BUFFER {
        Ok(())
    } else {
        Err(EtwError::OsCallFailure(status))
    }
}

/// Second step of the two-phase OS map query: the fetch into the allocated
/// buffer must succeed; any nonzero status is a hard failure.
pub fn check_fetch_status(status: u32) -> (r: Result<(), EtwError>)
    ensures
        status == 0 ==> r is Ok,
        status != 0 ==> (r matches Err(x) && x == EtwError::OsCallFailure(status)),
{
    if status == 0 {
        Ok(())
    } else {
        Err(EtwError::OsCallFailure(status))
    }
}

/// An owned `TRACE_EVENT_INFO` buffer, as returned by the OS schema query.
#[derive(Clone, PartialEq, Eq, Debug)]
pub struct TraceEventInfoRaw {
    info: Vec<u8>,
}

impl View for TraceEventInfoRaw {
    type V = Seq<u8>;

    closed spec fn view(&self) -> Seq<u8> {
        self.info@
    }
}

impl TraceEventInfoRaw {
    /// A buffer must hold at least the fixed header for the fixed-offset
    /// reads to be meaningful.
    pub open spec fn wf(self) -> bool {
        self@.len() >= TRACE_EVENT_INFO_SIZE
    }

    /// A zero-filled buffer of the given size, for the OS to fill.
    pub fn zeroed(len: u32) -> (r: Self)
        ensures
            r@ == Seq::new(len as nat, |i: int| 0u8),
    {
        let n = len as usize;
        let mut info: Vec<u8> = Vec::new();
        let mut i: usize = 0;
        while i < n
            invariant
                i <= n,
                info@.len() == i as int,
                forall|j: int| 0 <= j < i ==> info@[j] == 0u8,
            decreases n - i,
        {
            info.push(0);
            i += 1;
        }
        proof {
            assert(info@ =~= Seq::new(len as nat, |i: int| 0u8));
        }
        TraceEventInfoRaw { info }
    }

    /// Wrap bytes already fetched.
    pub fn from_bytes(info: Vec<u8>) -> (r: Self)
        ensures
            r@ == info@,
    {
        TraceEventInfoRaw { info }
    }

    /// Replace the buffer contents, after the OS filled a caller-side copy.
    pub fn set_info(&mut self, info: Vec<u8>)
        ensures
            final(self)@ == info@,
    {
        self.info = info;
    }

    /// The buffer bytes.
    pub fn as_bytes(&self) -> (r: &[u8])
        ensures
            r@ == self@,
    {
        self.info.as_slice()
    }

    pub fn provider_guid(&self) -> (r: Guid)
        requires
            self.wf(),
        ensures
            r.data1 == u32_at(self@, Endian::Little, 0),
            r.data2 == u16_at(self@, Endian::Little, 4),
            r.data3 == u16_at(self@, Endian::Little, 6),
            r.data4@ == self@.subrange(8, 16),
    {
        let d = self.info.as_slice();
        Guid {
            data1: read_u32_at(d, Endian::Little, 0),
            data2: read_u16_at(d, Endian::Little, 4),
            data3: read_u16_at(d, Endian::Little, 6),
            data4: slice_to_vec(&d[8..16]),
        }
    }

    pub fn event_id(&self) -> (r: u16)
        requires
            self.wf(),
        ensures
            r == u16_at(self@, Endian::Little, 32),
    {
        read_u16_at(self.info.as_slice(), Endian::Little, 32)
    }

    pub fn event_version(&self) -> (r: u8)
        requires
            self.wf(),
        ensures
            r == self@[34],
    {
        read_u8_at(self.info.as_slice(), 34)
    }

    pub fn level(&self) -> (r: u8)
        requires
            self.wf(),
        ensures
            r == self@[36],
    {
        read_u8_at(self.info.as_slice(), 36)
    }

    pub fn opcode(&self) -> (r: u8)
        requires
            self.wf(),
        ensures
            r == self@[37],
    {
        read_u8_at(self.info.as_slice(), 37)
    }

    pub fn decoding_source(&self) -> (r: DecodingSource)
        requires
            self.wf(),
        ensures
            r == spec_decoding_source(u32_at(self@, Endian::Little, 48)),
    {
        DecodingSource::from_u32(read_u32_at(self.info.as_slice(), Endian::Little, 48))
    }

    pub fn property_count(&self) -> (r: u32)
        requires
            self.wf(),
        ensures
            r == u32_at(self@, Endian::Little, 100),
    {
        read_u32_at(self.info.as_slice(), Endian::Little, 100)
    }

    /// The provider's name: the string at the provider-name offset.
    pub fn provider_name(&self) -> (r: String)
        requires
            self.wf(),
        ensures
            r@ == string_at(self@, u32_at(self@, Endian::Little, 52) as int),
    {
        let d = self.info.as_slice();
        let off = read_u32_at(d, Endian::Little, 52);
        let units = read_utf16_until_nul(d, off as usize);
        utf16_lossy_string(&units)
    }

    /// The task's name: the string at the task-name offset.
    pub fn task_name(&self) -> (r: String)
        requires
            self.wf(),
        ensures
            r@ == string_at(self@, u32_at(self@, Endian::Little, 68) as int),
    {
        let d = self.info.as_slice();
        let off = read_u32_at(d, Endian::Little, 68);
        let units = read_utf16_until_nul(d, off as usize);
        utf16_lossy_string(&units)
    }

    /// The opcode's name. An offset of zero means the event names no opcode,
    /// and the result is the empty string.
    pub fn opcode_name(&self) -> (r: String)
        requires
            self.wf(),
        ensures
            u32_at(self@, Endian::Little, 72) == 0 ==> r@ == Seq::<char>::empty(),
            u32_at(self@, Endian::Little, 72) != 0 ==> r@ == string_at(
                self@,
                u32_at(self@, Endian::Little, 72) as int,
            ),
    {
        let d = self.info.as_slice();
        let off = read_u32_at(d, Endian::Little, 72);
        if off == 0 {
            return String::new();
        }
        let units = read_utf16_until_nul(d, off as usize);
        utf16_lossy_string(&units)
    }

    /// The byte offset of the map name of property `index`, zero when the
    /// property has no value map. A caller that finds a nonzero offset runs
    /// the two-phase OS query and parses the result with
    /// [`parse_event_map_info`].
    pub fn map_name_offset(&self, index: u32) -> (r: Result<u32, EtwError>)
        requires
            self.wf(),
        ensures
            index as int >= u32_at(self@, Endian::Little, 100) as int ==> (r matches Err(x) && x
                == EtwError::InvalidPropertyIndex),
            (index as int) < u32_at(self@, Endian::Little, 100) as int && prop_offset(index as int)
                + EVENT_PROPERTY_INFO_SIZE <= self@.len() ==> (r matches Ok(off) && off
                == spec_prop_desc(self@, prop_offset(index as int)).map_name_offset),
            (index as int) < u32_at(self@, Endian::Little, 100) as int && prop_offset(index as int)
                + EVENT_PROPERTY_INFO_SIZE > self@.len() ==> (r matches Err(x) && x
                == EtwError::Truncated),
    {
        match self.property_desc(index) {
            Ok(desc) => Ok(desc.map_name_offset),
            Err(x) => Err(x),
        }
    }

    /// The parsed descriptor of property `index`. The index must be strictly
    /// below the declared property count.
    pub fn property_desc(&self, index: u32) -> (r: Result<EventPropertyDesc, EtwError>)
        requires
            self.wf(),
        ensures
            index as int >= u32_at(self@, Endian::Little, 100) as int ==> (r matches Err(x) && x
                == EtwError::InvalidPropertyIndex),
            (index as int) < u32_at(self@, Endian::Little, 100) as int && prop_offset(index as int)
                + EVENT_PROPERTY_INFO_SIZE <= self@.len() ==> (r matches Ok(desc) && desc
                == spec_prop_desc(self@, prop_offset(index as int))),
            (index as int) < u32_at(self@, Endian::Little, 100) as int && prop_offset(index as int)
                + EVENT_PROPERTY_INFO_SIZE > self@.len() ==> (r matches Err(x) && x
                == EtwError::Truncated),
    {
        let d = self.info.as_slice();
        let count = read_u32_at(d, Endian::Little, 100);
        if index >= count {
            return Err(EtwError::InvalidPropertyIndex);
        }
        proof {
            assert(24 * (index as int) <= 24 * 0xffff_ffff) by (nonlinear_arith)
                requires
                    0 <= index as int <= 0xffff_ffff,
            ;
        }
        let q64: u64 = PROPERTY_ARRAY_OFFSET as u64 + EVENT_PROPERTY_INFO_SIZE as u64 * (
        index as u64);
        if q64 + EVENT_PROPERTY_INFO_SIZE as u64 > d.len() as u64 {
            return Err(EtwError::Truncated);
        }
        let q = q64 as usize;
        Ok(
            EventPropertyDesc {
                flags: read_u32_at(d, Endian::Little, q),
                name_offset: read_u32_at(d, Endian::Little, q + 4),
                in_type: read_u16_at(d, Endian::Little, q + 8),
                out_type: read_u16_at(d, Endian::Little, q + 10),
                map_name_offset: read_u32_at(d, Endian::Little, q + 12),
                count: read_u16_at(d, Endian::Little, q + 16),
                length: read_u16_at(d, Endian::Little, q + 18),
            },
        )
    }

    /// Property `index`: its descriptor, its decoded name, and the value map
    /// the caller resolved for it, if any.
    pub fn property(&self, index: u32, map_info: Option<PropertyMapInfo>) -> (r: Result<
        EtwProperty,
        EtwError,
    >)
        requires
            self.wf(),
        ensures
            index as int >= u32_at(self@, Endian::Little, 100) as int ==> (r matches Err(x) && x
                == EtwError::InvalidPropertyIndex),
            (index as int) < u32_at(self@, Endian::Little, 100) as int && prop_offset(index as int)
                + EVENT_PROPERTY_INFO_SIZE <= self@.len() ==> (r matches Ok(p) && {
                &&& p.desc == spec_prop_desc(self@, prop_offset(index as int))
                &&& p.name@ == string_at(self@, p.desc.name_offset as int)
                &&& p.map_info == map_info
            }),
            (index as int) < u32_at(self@, Endian::Little, 100) as int && prop_offset(index as int)
                + EVENT_PROPERTY_INFO_SIZE > self@.len() ==> (r matches Err(x) && x
                == EtwError::Truncated),
    {
        let desc = match self.property_desc(index) {
            Ok(desc) => desc,
            Err(x) => {
                return Err(x);
            },
        };
        let d = self.info.as_slice();
        let units = read_utf16_until_nul(d, desc.name_offset as usize);
        let name = utf16_lossy_string(&units);
        Ok(EtwProperty { name, desc, map_info })
    }
}

} // verus!
