use vstd::prelude::*;

use vstd::bytes::spec_u64_to_le_bytes;

verus! {

/// Command identifier: read from the device.
pub const CMD_ID_READ: u8 = 1;

/// Command identifier: write to the device.
pub const CMD_ID_WRITE: u8 = 2;

/// A command word is a fixed-width 64-bit integer with three subfields:
/// bits 63..60 hold the operation identifier, bits 59..30 the address,
/// bits 29..0 the size of a memory transfer (or the data of a register
/// write). Addresses and sizes must fit their 30-bit subfields; the
/// builders below flag out-of-range values instead of silently wrapping.
pub open spec fn cmd_word(id: u8, addr: u32, size: u32) -> u64 {
    ((id as u64) << 60) | ((addr as u64) << 30) | (size as u64)
}

/// The address subfield of a register operation: a reserved sentinel
/// pattern in the upper bits tells the device that the word addresses the
/// register file rather than linear memory, and the register index sits in
/// bits 11..2.
pub open spec fn reg_addr_field(idx: u16) -> u32 {
    0x3fff_f000u32 | ((idx as u32) << 2)
}

/// A command word that addresses the register file; the size subfield
/// carries the data of a register write.
pub open spec fn reg_cmd_word(id: u8, idx: u16, data: u32) -> u64 {
    cmd_word(id, reg_addr_field(idx), data)
}

/// A memory command word as it appears on the wire: serialized
/// little-endian.
pub open spec fn mem_cmd_bytes(id: u8, addr: u32, size: u32) -> Seq<u8> {
    spec_u64_to_le_bytes(cmd_word(id, addr, size))
}

/// A register command word as it appears on the wire: serialized
/// little-endian.
pub open spec fn reg_cmd_bytes(id: u8, idx: u16, data: u32) -> Seq<u8> {
    spec_u64_to_le_bytes(reg_cmd_word(id, idx, data))
}

/// Builds the command word for a read or write of `size` bytes starting at
/// `addr` in the linear memory space.
pub fn build_cmd(id: u8, addr: u32, size: u32) -> (r: u64)
    requires
        id <= 0xf,
        addr < 0x4000_0000,
        size < 0x4000_0000,
    ensures
        r == cmd_word(id, addr, size),
{
    ((id as u64) << 60) | ((addr as u64) << 30) | (size as u64)
}

/// Builds the command word for a read or write against the register file;
/// `data` rides in the size subfield and is meaningful only for writes.
pub fn build_reg_cmd(id: u8, idx: u16, data: u32) -> (r: u64)
    requires
        id <= 0xf,
        idx < 0x400,
        data < 0x4000_0000,
    ensures
        r == reg_cmd_word(id, idx, data),
{
    let addr: u32 = 0x3fff_f000u32 | ((idx as u32) << 2);
    assert(addr < 0x4000_0000) by (bit_vector)
        requires
            addr == 0x3fff_f000u32 | ((idx as u32) << 2) && idx < 0x400,
    ;
    build_cmd(id, addr, data)
}

/// A command word occupies exactly eight bytes on the wire.
pub proof fn lemma_cmd_bytes_len(id: u8, addr: u32, size: u32)
    ensures
        mem_cmd_bytes(id, addr, size).len() == 8,
{
    vstd::bytes::lemma_auto_spec_u64_to_from_le_bytes();
}

/// A register command word occupies exactly eight bytes on the wire.
pub proof fn lemma_reg_cmd_bytes_len(id: u8, idx: u16, data: u32)
    ensures
        reg_cmd_bytes(id, idx, data).len() == 8,
{
    vstd::bytes::lemma_auto_spec_u64_to_from_le_bytes();
}

/// The three subfields of a command word never overlap: each one can be
/// recovered exactly from the encoded word, so the encoding is lossless.
pub proof fn lemma_cmd_word_fields(id: u8, addr: u32, size: u32)
    requires
        id <= 0xf,
        addr < 0x4000_0000,
        size < 0x4000_0000,
    ensures
        cmd_word(id, addr, size) >> 60 == id as u64,
        (cmd_word(id, addr, size) >> 30) & 0x3fff_ffff == addr as u64,
        cmd_word(id, addr, size) & 0x3fff_ffff == size as u64,
{
    assert((((id as u64) << 60) | ((addr as u64) << 30) | (size as u64)) >> 60 == id as u64
        && ((((id as u64) << 60) | ((addr as u64) << 30) | (size as u64)) >> 30) & 0x3fff_ffff
            == addr as u64
        && (((id as u64) << 60) | ((addr as u64) << 30) | (size as u64)) & 0x3fff_ffff
            == size as u64) by (bit_vector)
        requires
            id <= 0xf && addr < 0x4000_0000u32 && size < 0x4000_0000u32,
    ;
}

/// A register command's address subfield always shows the reserved sentinel
/// pattern in its upper bits, and the register index can be recovered from
/// it: register operations are unambiguously distinguishable from memory
/// operations on the wire.
pub proof fn lemma_reg_addr_field(idx: u16)
    requires
        idx < 0x400,
    ensures
        reg_addr_field(idx) >> 12 == 0x3ffffu32,
        (reg_addr_field(idx) >> 2) & 0x3ff == idx as u32,
        reg_addr_field(idx) < 0x4000_0000,
{
    assert((0x3fff_f000u32 | ((idx as u32) << 2)) >> 12 == 0x3ffffu32
        && ((0x3fff_f000u32 | ((idx as u32) << 2)) >> 2) & 0x3ff == idx as u32
        && (0x3fff_f000u32 | ((idx as u32) << 2)) < 0x4000_0000) by (bit_vector)
        requires
            idx < 0x400,
    ;
}

} // verus!
