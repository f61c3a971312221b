use vstd::prelude::*;

use crate::codec::mem_cmd_bytes;
use crate::codec::CMD_ID_WRITE;

verus! {

/// Program-header type tag of a loadable segment in a segmented executable
/// image.
pub const PT_LOAD: u32 = 1;

/// One program header of an executable image, reduced to the plain fields
/// the loader reads: segment type, file offset of the payload, payload size
/// in the file, and physical destination address in device memory.
pub struct ProgHeader {
    pub p_type: u32,
    pub p_offset: u64,
    pub p_filesz: u64,
    pub p_paddr: u64,
}

impl View for ProgHeader {
    type V = (u32, u64, u64, u64);

    open spec fn view(&self) -> (u32, u64, u64, u64) {
        (self.p_type, self.p_offset, self.p_filesz, self.p_paddr)
    }
}

/// The program header table that parsing an executable image yields, as
/// (type, offset, file size, physical address) rows in table order, or
/// nothing when the bytes are not a well-formed executable of the expected
/// kind. Parsing is a function of the bytes alone.
pub uninterp spec fn elf_program_headers(bytes: Seq<u8>) -> Option<Seq<(u32, u64, u64, u64)>>;

/// Relies on goblin's object parser: turns raw bytes into the executable's
/// program header table, and rejects bytes that do not form an executable
/// image of the expected kind. The result depends on the bytes alone.
#[verifier::external_body]
pub(crate) fn parse_program_headers(image: &Vec<u8>) -> (r: Option<Vec<ProgHeader>>)
    ensures
        match r {
            Some(headers) => elf_program_headers(image@) == Some(
                headers@.map_values(|h: ProgHeader| h@),
            ),
            None => elf_program_headers(image@) is None,
        },
{
    match goblin::Object::parse(image.as_slice()) {
        Ok(goblin::Object::Elf(elf)) => Some(
            elf.program_headers
                .iter()
                .map(|h| ProgHeader {
                    p_type: h.p_type,
                    p_offset: h.p_offset,
                    p_filesz: h.p_filesz,
                    p_paddr: h.p_paddr,
                })
                .collect(),
        ),
        _ => None,
    }
}

/// A loadable segment header the loader accepts: the payload lies inside
/// the image, and the destination address and the size fit the wire
/// encoding's 30-bit subfields.
pub open spec fn segment_ok(h: (u32, u64, u64, u64), image_len: int) -> bool {
    &&& h.1 + h.2 <= image_len
    &&& h.2 < 0x4000_0000
    &&& h.3 < 0x4000_0000
}

/// Every loadable segment of the header table is acceptable.
pub open spec fn headers_ok(hs: Seq<(u32, u64, u64, u64)>, image_len: int) -> bool {
    forall|i: int|
        0 <= i < hs.len() && (#[trigger] hs[i]).0 == PT_LOAD ==> segment_ok(hs[i], image_len)
}

/// The byte stream that uploading one header's segment enqueues: nothing
/// for a non-loadable segment; for a loadable one, a write command word
/// sized and addressed to the segment, followed by the payload bytes.
pub open spec fn segment_stream(h: (u32, u64, u64, u64), image: Seq<u8>) -> Seq<u8> {
    if h.0 == PT_LOAD {
        mem_cmd_bytes(CMD_ID_WRITE, h.3 as u32, h.2 as u32) + image.subrange(
            h.1 as int,
            h.1 + h.2,
        )
    } else {
        Seq::empty()
    }
}

/// The byte stream that uploading all the loadable segments of an image
/// enqueues, in table order.
pub open spec fn load_stream(hs: Seq<(u32, u64, u64, u64)>, image: Seq<u8>) -> Seq<u8>
    decreases hs.len(),
{
    if hs.len() == 0 {
        Seq::empty()
    } else {
        segment_stream(hs[0], image) + load_stream(hs.skip(1), image)
    }
}

/// Extending the header table by one header appends that header's segment
/// stream to the load stream.
pub proof fn lemma_load_stream_push(hs: Seq<(u32, u64, u64, u64)>, h: (u32, u64, u64, u64), image: Seq<u8>)
    ensures
        load_stream(hs.push(h), image) == load_stream(hs, image) + segment_stream(h, image),
    decreases hs.len(),
{
    if hs.len() == 0 {
        assert(hs.push(h)[0] == h);
        assert(hs.push(h).skip(1) =~= Seq::<(u32, u64, u64, u64)>::empty());
        assert(load_stream(hs.push(h).skip(1), image) == Seq::<u8>::empty());
        assert(load_stream(hs.push(h), image) == segment_stream(h, image) + Seq::<u8>::empty());
        assert(load_stream(hs, image) == Seq::<u8>::empty());
        assert(segment_stream(h, image) + Seq::<u8>::empty() =~= Seq::<u8>::empty()
            + segment_stream(h, image));
    } else {
        assert(hs.push(h)[0] == hs[0]);
        assert(hs.push(h).skip(1) =~= hs.skip(1).push(h));
        lemma_load_stream_push(hs.skip(1), h, image);
        assert(load_stream(hs.push(h), image) =~= load_stream(hs, image) + segment_stream(
            h,
            image,
        ));
    }
}

} // verus!
