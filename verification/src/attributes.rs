use vstd::prelude::*;

verus! {

/// Attribute bit of a read-only file.
pub const FILE_ATTRIBUTE_READONLY: u32 = 0x1;

/// Attribute bit of a hidden file.
pub const FILE_ATTRIBUTE_HIDDEN: u32 = 0x2;

/// Attribute bit of a system file.
pub const FILE_ATTRIBUTE_SYSTEM: u32 = 0x4;

/// Attribute bit of a directory.
pub const FILE_ATTRIBUTE_DIRECTORY: u32 = 0x10;

/// Attribute bit of a device.
pub const FILE_ATTRIBUTE_DEVICE: u32 = 0x40;

/// A 64-bit quantity the system reports as two 32-bit halves.
pub open spec fn from_halves(low: u32, high: u32) -> int {
    high * 0x1_0000_0000 + low
}

/// Joining halves is positional: the joined value's low 32 bits are the low
/// half and the bits above them the high half; so a quantity with a zero high
/// half is its low half, whatever that is.
pub proof fn law_halves_positional(low: u32, high: u32)
    ensures
        from_halves(low, high) % 0x1_0000_0000 == low,
        from_halves(low, high) / 0x1_0000_0000 == high,
        from_halves(low, 0) == low,
        0 <= from_halves(low, high) <= u64::MAX,
{
    assert((high * 0x1_0000_0000 + low) % 0x1_0000_0000 == low) by (nonlinear_arith)
        requires
            0 <= low < 0x1_0000_0000,
            0 <= high,
    ;
    assert((high * 0x1_0000_0000 + low) / 0x1_0000_0000 == high) by (nonlinear_arith)
        requires
            0 <= low < 0x1_0000_0000,
            0 <= high,
    ;
    assert(high * 0x1_0000_0000 + low <= u64::MAX) by (nonlinear_arith)
        requires
            0 <= low < 0x1_0000_0000,
            0 <= high < 0x1_0000_0000,
    ;
}

/// Joins the two halves of a 64-bit quantity (a size, or a time in 100 ns
/// ticks since 1601).
pub fn filetime_ticks(low: u32, high: u32) -> (ticks: u64)
    ensures
        ticks == from_halves(low, high),
{
    let t: u64 = ((high as u64) << 32u64) | (low as u64);
    assert(((high as u64) << 32u64) | (low as u64) == (high as u64) * 0x1_0000_0000u64 + (
    low as u64)) by (bit_vector);
    t
}

/// What the system reports of a file, in integers: the attribute flags, the
/// size, and the creation, last-write and last-access times in ticks.
#[derive(Debug, Clone, Copy, PartialEq, Eq, Structural)]
pub struct FileAttributeBits {
    pub directory: bool,
    pub read_only: bool,
    pub hidden: bool,
    pub system: bool,
    pub device: bool,
    pub size: u64,
    pub ctime_ticks: u64,
    pub mtime_ticks: u64,
    pub atime_ticks: u64,
}

/// Reads the attribute word, the halves of the size and the halves of the
/// three file times (creation, last write, last access) that the system
/// found for a file.
pub fn file_attribute_bits(
    attributes: u32,
    size_low: u32,
    size_high: u32,
    creation: (u32, u32),
    last_write: (u32, u32),
    last_access: (u32, u32),
) -> (a: FileAttributeBits)
    ensures
        a.directory == (attributes & FILE_ATTRIBUTE_DIRECTORY != 0),
        a.read_only == (attributes & FILE_ATTRIBUTE_READONLY != 0),
        a.hidden == (attributes & FILE_ATTRIBUTE_HIDDEN != 0),
        a.system == (attributes & FILE_ATTRIBUTE_SYSTEM != 0),
        a.device == (attributes & FILE_ATTRIBUTE_DEVICE != 0),
        a.size == from_halves(size_low, size_high),
        a.ctime_ticks == from_halves(creation.0, creation.1),
        a.mtime_ticks == from_halves(last_write.0, last_write.1),
        a.atime_ticks == from_halves(last_access.0, last_access.1),
{
    FileAttributeBits {
        directory: attributes & FILE_ATTRIBUTE_DIRECTORY != 0,
        read_only: attributes & FILE_ATTRIBUTE_READONLY != 0,
        hidden: attributes & FILE_ATTRIBUTE_HIDDEN != 0,
        system: attributes & FILE_ATTRIBUTE_SYSTEM != 0,
        device: attributes & FILE_ATTRIBUTE_DEVICE != 0,
        size: filetime_ticks(size_low, size_high),
        ctime_ticks: filetime_ticks(creation.0, creation.1),
        mtime_ticks: filetime_ticks(last_write.0, last_write.1),
        atime_ticks: filetime_ticks(last_access.0, last_access.1),
    }
}

} // verus!
