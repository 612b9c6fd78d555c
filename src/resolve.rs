use vstd::prelude::*;
use crate::snapshot::MemoryAddresses;
use crate::scanner::{first_match, lemma_first_match, lemma_scan_direction, Pattern, Region, region_addresses_fit, scan_regions, scan_spec};

verus! {

/// Why an address could not be resolved.
#[derive(Clone, Copy, Debug, PartialEq, Eq, Structural)]
pub enum ResolveError {
    /// No region holds the signature.
    SignatureNotFound,
    /// The displacement inside the matched instruction lies outside every region.
    DisplacementUnreadable,
    /// The computed address falls outside the 64-bit address space.
    AddressOutOfRange,
    /// The pointer slot that the instruction refers to lies outside every region.
    PointerUnreadable,
}

impl ResolveError {
    /// A diagnostic line for the host's log.
    pub fn message(&self) -> &'static str {
        match self {
            ResolveError::SignatureNotFound => "Could not find the signature",
            ResolveError::DisplacementUnreadable => "Could not read the offset found by the signature",
            ResolveError::AddressOutOfRange => "The address found by the signature is out of range",
            ResolveError::PointerUnreadable => "Could not read the pointer found by the signature",
        }
    }
}

/// Length of the instruction that the room id signature starts with.
pub const ROOM_ID_INSTRUCTION_LEN: u64 = 6;
/// Where the room id displacement sits inside the match.
pub const ROOM_ID_DISPLACEMENT_AT: u64 = 2;
/// Where the room name table displacement sits inside the match.
pub const NAME_TABLE_DISPLACEMENT_AT: u64 = 5;
/// The displacement of the name table slot is counted from this many bytes
/// after the start of the match.
pub const NAME_TABLE_INSTRUCTION_END: u64 = 9;

/// The signature of the instruction that stores the current room id.
pub open spec fn room_id_signature() -> Seq<Option<u8>> {
    seq![Some(0x89u8), Some(0x3Du8), None, None, None, None, Some(0x48u8), Some(0x3Bu8), Some(0x1Du8)]
}

/// The signature of the instruction that loads the room name table.
pub open spec fn room_name_array_signature() -> Seq<Option<u8>> {
    seq![
        Some(0x74u8), Some(0x0Cu8), Some(0x48u8), Some(0x8Bu8), Some(0x05u8), None, None, None, None,
        Some(0x48u8), Some(0x8Bu8), Some(0x04u8), Some(0xD0u8),
    ]
}

/// The first sixteen bytes of the timing buffer's marker.
pub open spec fn buffer_magic_signature() -> Seq<Option<u8>> {
    seq![
        Some(0xC2u8), Some(0x5Au8), Some(0x17u8), Some(0x65u8), Some(0xBEu8), Some(0x4Du8),
        Some(0xDFu8), Some(0xD6u8), Some(0xF2u8), Some(0x1Cu8), Some(0xD1u8), Some(0x3Bu8),
        Some(0xA7u8), Some(0xA6u8), Some(0x1Fu8), Some(0xC3u8),
    ]
}

pub fn room_id_pattern() -> (r: Pattern)
    ensures
        r@ == room_id_signature(),
{
    let r = Pattern {
        bytes: vec![Some(0x89u8), Some(0x3Du8), None, None, None, None, Some(0x48u8), Some(0x3Bu8), Some(0x1Du8)],
    };
    assert(r@ =~= room_id_signature());
    r
}

pub fn room_name_array_pattern() -> (r: Pattern)
    ensures
        r@ == room_name_array_signature(),
{
    let r = Pattern {
        bytes: vec![
            Some(0x74u8), Some(0x0Cu8), Some(0x48u8), Some(0x8Bu8), Some(0x05u8), None, None, None,
            None, Some(0x48u8), Some(0x8Bu8), Some(0x04u8), Some(0xD0u8),
        ],
    };
    assert(r@ =~= room_name_array_signature());
    r
}

pub fn buffer_magic_pattern() -> (r: Pattern)
    ensures
        r@ == buffer_magic_signature(),
{
    let r = Pattern {
        bytes: vec![
            Some(0xC2u8), Some(0x5Au8), Some(0x17u8), Some(0x65u8), Some(0xBEu8), Some(0x4Du8),
            Some(0xDFu8), Some(0xD6u8), Some(0xF2u8), Some(0x1Cu8), Some(0xD1u8), Some(0x3Bu8),
            Some(0xA7u8), Some(0xA6u8), Some(0x1Fu8), Some(0xC3u8),
        ],
    };
    assert(r@ =~= buffer_magic_signature());
    r
}

/// Region `k` holds the `width` bytes starting at `addr`.
pub open spec fn region_holds(region: Region, addr: int, width: int) -> bool {
    region.address <= addr && addr + width <= region.address + region.bytes@.len()
}

/// The index of the first region, from `k` on, that holds the range.
pub open spec fn holding_region_from(regions: Seq<Region>, addr: int, width: int, k: int) -> Option<int>
    decreases regions.len() - k,
{
    if k < 0 || k >= regions.len() {
        None
    } else if region_holds(regions[k], addr, width) {
        Some(k)
    } else {
        holding_region_from(regions, addr, width, k + 1)
    }
}

pub open spec fn holding_region(regions: Seq<Region>, addr: int, width: int) -> Option<int> {
    holding_region_from(regions, addr, width, 0)
}

/// The little-endian value of the four bytes at `i`.
pub open spec fn le_u32_at(b: Seq<u8>, i: int) -> int {
    b[i] + 256 * b[i + 1] + 65536 * b[i + 2] + 16777216 * b[i + 3]
}

/// The little-endian value of the eight bytes at `i`.
pub open spec fn le_u64_at(b: Seq<u8>, i: int) -> int {
    le_u32_at(b, i) + 4294967296 * le_u32_at(b, i + 4)
}

/// The value read from memory: `width` (4 or 8) bytes at `addr`, taken from the
/// first region that holds all of them.
pub open spec fn read_mem(regions: Seq<Region>, addr: int, width: int) -> Option<int> {
    match holding_region(regions, addr, width) {
        Some(k) => Some(
            if width == 4 {
                le_u32_at(regions[k].bytes@, addr - regions[k].address)
            } else {
                le_u64_at(regions[k].bytes@, addr - regions[k].address)
            },
        ),
        None => None,
    }
}

fn le_u32_from(b: &Vec<u8>, i: usize) -> (r: u64)
    requires
        i + 4 <= b@.len(),
    ensures
        r as int == le_u32_at(b@, i as int),
        r < 4294967296,
{
    let n = b.len();
    let b0 = b[i] as u64;
    let b1 = b[i + 1] as u64;
    let b2 = b[i + 2] as u64;
    let b3 = b[i + 3] as u64;
    assert(b0 < 256 && b1 < 256 && b2 < 256 && b3 < 256);
    b0 + 256 * b1 + 65536 * b2 + 16777216 * b3
}

/// Reads a little-endian integer of 4 or 8 bytes from the regions.
pub fn read_le(regions: &Vec<Region>, addr: u64, width: u64) -> (r: Option<u64>)
    requires
        width == 4 || width == 8,
    ensures
        match r {
            Some(v) => read_mem(regions@, addr as int, width as int) == Some(v as int),
            None => read_mem(regions@, addr as int, width as int) is None,
        },
{
    let n = regions.len();
    let mut k: usize = 0;
    while k < n
        invariant
            n == regions@.len(),
            k <= n,
            width == 4 || width == 8,
            holding_region(regions@, addr as int, width as int) == holding_region_from(
                regions@,
                addr as int,
                width as int,
                k as int,
            ),
        decreases n - k,
    {
        let region = &regions[k];
        let len = region.bytes.len();
        if region.address <= addr && len as u64 >= width && addr - region.address <= len as u64 - width {
            let d = addr - region.address;
            assert(d + width <= len);
            let i = d as usize;
            assert(i == d);
            let b = &region.bytes;
            let low = le_u32_from(b, i);
            if width == 4 {
                return Some(low);
            }
            let high = le_u32_from(b, i + 4);
            return Some(low + 4294967296 * high);
        }
        k = k + 1;
    }
    None
}

/// Where the room id lies, relative to the module base: the last match of the
/// room id signature (regions visited from the last), plus the instruction's
/// length and its embedded displacement, minus the module base.
pub open spec fn room_id_offset_spec(regions: Seq<Region>, module_base: int) -> Result<int, ResolveError> {
    match scan_spec(regions, room_id_signature(), true) {
        None => Err(ResolveError::SignatureNotFound),
        Some(a) => match read_mem(regions, a + ROOM_ID_DISPLACEMENT_AT, 4) {
            None => Err(ResolveError::DisplacementUnreadable),
            Some(d) => {
                let v = a + ROOM_ID_INSTRUCTION_LEN + d - module_base;
                if 0 <= v <= u64::MAX {
                    Ok(v)
                } else {
                    Err(ResolveError::AddressOutOfRange)
                }
            },
        },
    }
}

/// Where the timing buffer starts: the first match of its marker.
pub open spec fn buffer_address_spec(regions: Seq<Region>) -> Result<int, ResolveError> {
    match scan_spec(regions, buffer_magic_signature(), false) {
        None => Err(ResolveError::SignatureNotFound),
        Some(a) => Ok(a),
    }
}

/// The address of the slot that holds the name table's base.
pub open spec fn name_table_slot_spec(regions: Seq<Region>) -> Result<int, ResolveError> {
    match scan_spec(regions, room_name_array_signature(), true) {
        None => Err(ResolveError::SignatureNotFound),
        Some(a) => match read_mem(regions, a + NAME_TABLE_DISPLACEMENT_AT, 4) {
            None => Err(ResolveError::DisplacementUnreadable),
            Some(d) => {
                let slot = a + NAME_TABLE_INSTRUCTION_END + d;
                if slot <= u64::MAX {
                    Ok(slot)
                } else {
                    Err(ResolveError::AddressOutOfRange)
                }
            },
        },
    }
}

/// The base of the room name table: the pointer held in its slot.
pub open spec fn name_table_spec(regions: Seq<Region>) -> Result<int, ResolveError> {
    match name_table_slot_spec(regions) {
        Err(e) => Err(e),
        Ok(slot) => match read_mem(regions, slot, 8) {
            None => Err(ResolveError::PointerUnreadable),
            Some(p) => Ok(p),
        },
    }
}

pub open spec fn result_matches(r: Result<u64, ResolveError>, s: Result<int, ResolveError>) -> bool {
    match r {
        Ok(v) => s == Ok::<int, ResolveError>(v as int),
        Err(e) => s == Err::<int, ResolveError>(e),
    }
}

/// Finds the module-relative offset of the current room id.
pub fn room_id_sigscan_start(regions: &Vec<Region>, module_base: u64) -> (r: Result<u64, ResolveError>)
    requires
        region_addresses_fit(regions@),
    ensures
        result_matches(r, room_id_offset_spec(regions@, module_base as int)),
{
    let pat = room_id_pattern();
    let a = match scan_regions(regions, &pat, true) {
        Some(a) => a,
        None => return Err(ResolveError::SignatureNotFound),
    };
    let d = match read_le(regions, a + ROOM_ID_DISPLACEMENT_AT, 4) {
        Some(d) => d,
        None => return Err(ResolveError::DisplacementUnreadable),
    };
    let v: i128 = a as i128 + ROOM_ID_INSTRUCTION_LEN as i128 + d as i128 - module_base as i128;
    if 0 <= v && v <= u64::MAX as i128 {
        Ok(v as u64)
    } else {
        Err(ResolveError::AddressOutOfRange)
    }
}

/// Finds the start of the timing buffer by its marker.
pub fn buffer_helper_sigscan_init(regions: &Vec<Region>) -> (r: Result<u64, ResolveError>)
    requires
        region_addresses_fit(regions@),
    ensures
        result_matches(r, buffer_address_spec(regions@)),
{
    let pat = buffer_magic_pattern();
    match scan_regions(regions, &pat, false) {
        Some(a) => Ok(a),
        None => Err(ResolveError::SignatureNotFound),
    }
}

/// Finds the base of the table that maps room ids to room name pointers.
pub fn room_name_array_sigscan_start(regions: &Vec<Region>) -> (r: Result<u64, ResolveError>)
    requires
        region_addresses_fit(regions@),
    ensures
        result_matches(r, name_table_spec(regions@)),
{
    let pat = room_name_array_pattern();
    let a = match scan_regions(regions, &pat, true) {
        Some(a) => a,
        None => return Err(ResolveError::SignatureNotFound),
    };
    let d = match read_le(regions, a + NAME_TABLE_DISPLACEMENT_AT, 4) {
        Some(d) => d,
        None => return Err(ResolveError::DisplacementUnreadable),
    };
    let slot: u128 = a as u128 + NAME_TABLE_INSTRUCTION_END as u128 + d as u128;
    if slot > u64::MAX as u128 {
        return Err(ResolveError::AddressOutOfRange);
    }
    match read_le(regions, slot as u64, 8) {
        Some(p) => Ok(p),
        None => Err(ResolveError::PointerUnreadable),
    }
}

/// No two regions share an address, as with the mapped ranges of a process.
pub open spec fn regions_disjoint(regions: Seq<Region>) -> bool {
    forall|i: int, j: int|
        0 <= i < regions.len() && 0 <= j < regions.len() && i != j ==> #[trigger] regions[i].address
            + regions[i].bytes@.len() <= #[trigger] regions[j].address || regions[j].address + regions[j].bytes@.len()
            <= regions[i].address
}

proof fn lemma_holding_region_is(regions: Seq<Region>, addr: int, width: int, i: int, k: int)
    requires
        0 <= i <= k < regions.len(),
        region_holds(regions[k], addr, width),
        forall|j: int| i <= j < k ==> !region_holds(#[trigger] regions[j], addr, width),
    ensures
        holding_region_from(regions, addr, width, i) == Some(k),
    decreases k - i,
{
    if i < k {
        lemma_holding_region_is(regions, addr, width, i + 1, k);
    }
}

/// Room-id resolution over any memory. Take disjoint regions, let region `k`
/// be the last one that holds the room id signature, and let `m` be the
/// signature's first occurrence in it. Whatever bytes stand at the wildcards,
/// the resolver reads them back as the displacement `d` and yields
/// `m + 6 + d - module_base` whenever that fits in 64 bits, and
/// `AddressOutOfRange` otherwise.
pub proof fn lemma_room_id_resolution(regions: Seq<Region>, module_base: int, k: int)
    requires
        regions_disjoint(regions),
        0 <= k < regions.len(),
        first_match(regions[k].bytes@, room_id_signature()) is Some,
        forall|j: int|
            k < j < regions.len() ==> (#[trigger] first_match(regions[j].bytes@, room_id_signature())) is None,
    ensures
        ({
            let off = first_match(regions[k].bytes@, room_id_signature())->0;
            let m = regions[k].address + off;
            let d = le_u32_at(regions[k].bytes@, off + ROOM_ID_DISPLACEMENT_AT);
            let v = m + ROOM_ID_INSTRUCTION_LEN + d - module_base;
            room_id_offset_spec(regions, module_base) == if 0 <= v <= u64::MAX {
                Ok(v)
            } else {
                Err(ResolveError::AddressOutOfRange)
            }
        }),
{
    let sig = room_id_signature();
    let bytes = regions[k].bytes@;
    let off = first_match(bytes, sig)->0;
    let m = regions[k].address + off;
    lemma_scan_direction(regions, sig, k);
    lemma_first_match(bytes, sig);
    assert(off + 9 <= bytes.len());
    let a = m + ROOM_ID_DISPLACEMENT_AT;
    assert(region_holds(regions[k], a, 4));
    assert forall|j: int| 0 <= j < k implies !region_holds(#[trigger] regions[j], a, 4) by {
        assert(j != k);
        assert(regions[j].address + regions[j].bytes@.len() <= regions[k].address || regions[k].address
            + regions[k].bytes@.len() <= regions[j].address);
    }
    lemma_holding_region_is(regions, a, 4, 0, k);
    assert(a - regions[k].address == off + ROOM_ID_DISPLACEMENT_AT);
}

pub open spec fn ok_or_none(r: Result<int, ResolveError>) -> Option<u64> {
    match r {
        Ok(v) => Some(v as u64),
        Err(_) => None,
    }
}

/// Resolves every address once per attach: the room id (relative to the
/// module base, taken as 0 where it is unknown) and the timing buffer; the
/// room name table only where the buffer was not found.
pub fn resolve_addresses(regions: &Vec<Region>, module_base: Option<u64>) -> (r: MemoryAddresses)
    requires
        region_addresses_fit(regions@),
    ensures
        r.main_address == module_base,
        r.room_id == ok_or_none(room_id_offset_spec(regions@, match module_base {
            Some(b) => b as int,
            None => 0,
        })),
        r.buffer_helper == ok_or_none(buffer_address_spec(regions@)),
        r.room_names == (if r.buffer_helper is None {
            ok_or_none(name_table_spec(regions@))
        } else {
            None
        }),
{
    let base = match module_base {
        Some(b) => b,
        None => 0,
    };
    let room_id = match room_id_sigscan_start(regions, base) {
        Ok(v) => Some(v),
        Err(_) => None,
    };
    let buffer_helper = match buffer_helper_sigscan_init(regions) {
        Ok(v) => Some(v),
        Err(_) => None,
    };
    let room_names = if buffer_helper.is_none() {
        match room_name_array_sigscan_start(regions) {
            Ok(v) => Some(v),
            Err(_) => None,
        }
    } else {
        None
    };
    MemoryAddresses { main_address: module_base, room_id, room_names, buffer_helper }
}

/// Monitoring can begin once the room names have a source: the timing buffer
/// or the name table.
pub fn can_monitor(a: &MemoryAddresses) -> (r: bool)
    ensures
        r == (a.room_names is Some || a.buffer_helper is Some),
{
    a.room_names.is_some() || a.buffer_helper.is_some()
}

} // verus!
