use vstd::prelude::*;

use vstd::bytes::spec_u32_from_le_bytes;

use vstd::slice::slice_subrange;
use vstd::slice::slice_to_vec;

use crate::channel::ClockedChannel;
use crate::codec::lemma_cmd_bytes_len;
use crate::codec::lemma_reg_cmd_bytes_len;
use crate::codec::mem_cmd_bytes;
use crate::codec::reg_cmd_bytes;
use crate::codec::CMD_ID_READ;
use crate::codec::CMD_ID_WRITE;
use crate::error::DeviceError;
use crate::error::DeviceErrorKind;
use crate::loader::elf_program_headers;
use crate::loader::headers_ok;
use crate::loader::lemma_load_stream_push;
use crate::loader::load_stream;
use crate::loader::parse_program_headers;
use crate::loader::segment_ok;
use crate::loader::segment_stream;
use crate::loader::ProgHeader;
use crate::loader::PT_LOAD;
use crate::protobridge::lemma_prefix_subrange;
use crate::protobridge::lemma_prefix_trans;
use crate::protobridge::lemma_skip_append;
use crate::protobridge::lemma_skip_skip;
use crate::protobridge::ProtoBridge;
use crate::protobridge::REG_IDX_DEV_EN;
use crate::protobridge::REG_IDX_FB_ADDR;
use crate::protobridge::REG_IDX_FB_CONFIG;
use crate::protobridge::WAIT_INFINITE_CYCLES;

verus! {

/// The framebuffer width encoded in a configuration register value: two
/// raised to one more than the low three bits.
pub open spec fn spec_fb_width(cfg: u32) -> u32 {
    1u32 << ((cfg & 0x7) + 1)
}

/// The framebuffer height encoded in a configuration register value: two
/// raised to one more than the three bits above the width exponent.
pub open spec fn spec_fb_height(cfg: u32) -> u32 {
    1u32 << (((cfg >> 3) & 0x7) + 1)
}

/// Decodes the two independent 3-bit exponent subfields of the framebuffer
/// configuration register into a (width, height) pair in pixels.
pub fn decode_fb_config(cfg: u32) -> (r: (u32, u32))
    ensures
        r.0 == spec_fb_width(cfg),
        r.1 == spec_fb_height(cfg),
        2 <= r.0 <= 256,
        2 <= r.1 <= 256,
{
    assert(cfg & 0x7 < 8 && (cfg >> 3) & 0x7 < 8) by (bit_vector);
    assert(2 <= (1u32 << ((cfg & 0x7) + 1)) <= 256 && 2 <= (1u32 << (((cfg >> 3) & 0x7) + 1))
        <= 256) by (bit_vector);
    let fb_width = 1u32 << ((cfg & 0x7) + 1);
    let fb_height = 1u32 << (((cfg >> 3) & 0x7) + 1);
    (fb_width, fb_height)
}

/// What a successful framebuffer dump did, stated over the device's
/// response history. Reading began at position `pos` of the history
/// `produced`: the device answered the configuration read with the four
/// bytes at `pos` and the base-address read with the four bytes after
/// them; exactly the decoded region — width times height times four bytes,
/// starting at the masked base address — was then requested, and the
/// history bytes that answered it landed at the front of the destination
/// in order, the rest of the destination unchanged. The three read command
/// words were queued in that order, the input queue since drained from the
/// front by `k` bytes.
pub open spec fn dump_ok_witness(
    old_in: Seq<u8>,
    produced: Seq<u8>,
    pos: int,
    old_dst: Seq<u8>,
    new_in: Seq<u8>,
    new_pos: int,
    new_dst: Seq<u8>,
    k: int,
) -> bool {
    let cfg = spec_u32_from_le_bytes(produced.subrange(pos, pos + 4));
    let region_len = spec_fb_width(cfg) * spec_fb_height(cfg) * 4;
    let addr = spec_u32_from_le_bytes(produced.subrange(pos + 4, pos + 8)) & 0x3fff_ffff;
    &&& 0 <= pos
    &&& new_pos == pos + 8 + region_len
    &&& new_pos <= produced.len()
    &&& region_len <= old_dst.len()
    &&& new_dst.len() == old_dst.len()
    &&& new_dst == produced.subrange(pos + 8, pos + 8 + region_len) + old_dst.skip(
        region_len as int,
    )
    &&& 0 <= k <= old_in.len() + 24
    &&& new_in == (old_in + reg_cmd_bytes(CMD_ID_READ, REG_IDX_FB_CONFIG, 0x3fff_ffff)
        + reg_cmd_bytes(CMD_ID_READ, REG_IDX_FB_ADDR, 0x3fff_ffff) + mem_cmd_bytes(
        CMD_ID_READ,
        addr,
        region_len as u32,
    )).skip(k)
}

/// A façade over the protocol driver: run/halt control and framebuffer
/// introspection through named registers of the device's register file.
pub struct Device<C: ClockedChannel> {
    bridge: ProtoBridge<C>,
}

impl<C: ClockedChannel> Device<C> {
    /// Bytes queued toward the device and not yet consumed by it, oldest
    /// first.
    pub closed spec fn in_queue(&self) -> Seq<u8> {
        self.bridge.in_queue()
    }

    /// Bytes produced by the device and not yet read back, oldest first.
    pub closed spec fn out_queue(&self) -> Seq<u8> {
        self.bridge.out_queue()
    }

    /// The number of cycles driven since the device was created.
    pub closed spec fn spec_clocks(&self) -> u64 {
        self.bridge.spec_clocks()
    }

    /// Every byte the device has produced since creation, oldest first: the
    /// full response history, never shortened.
    pub closed spec fn produced(&self) -> Seq<u8> {
        self.bridge.produced()
    }

    /// How many produced bytes have been consumed: the position in the
    /// response history where unread output begins.
    pub closed spec fn read_pos(&self) -> int {
        self.bridge.read_pos()
    }

    /// Well-formedness: the pending output queue is exactly the unread
    /// suffix of the response history.
    pub closed spec fn wf(&self) -> bool {
        self.bridge.wf()
    }

    /// Creates a new device over one exclusively owned clocked channel.
    pub fn new(channel: C) -> (r: Self)
        ensures
            r.wf(),
            r.in_queue() == Seq::<u8>::empty(),
            r.out_queue() == Seq::<u8>::empty(),
            r.produced() == Seq::<u8>::empty(),
            r.spec_clocks() == 0,
    {
        let bridge = ProtoBridge::new(channel);
        Device { bridge }
    }

    /// Returns the number of clock cycles that have elapsed on the device.
    pub fn clocks(&self) -> (r: u64)
        ensures
            r == self.spec_clocks(),
    {
        self.bridge.clocks()
    }

    /// Loads an executable image into device memory: for each loadable
    /// segment of the image, queues a write of the segment's payload to the
    /// segment's physical destination address, in table order. Drives no
    /// cycle: the writes are queued, not yet flushed. A malformed image, or
    /// one with a loadable segment whose payload lies outside the image or
    /// whose address or size overflows the wire encoding, is rejected with
    /// LoadError, leaving the queues untouched.
    pub fn load_elf(&mut self, image: &Vec<u8>) -> (r: Result<(), DeviceError>)
        requires
            old(self).wf(),
        ensures
            final(self).wf(),
            final(self).out_queue() == old(self).out_queue(),
            final(self).produced() == old(self).produced(),
            final(self).read_pos() == old(self).read_pos(),
            final(self).spec_clocks() == old(self).spec_clocks(),
            match r {
                Ok(()) => elf_program_headers(image@) matches Some(hs) && headers_ok(
                    hs,
                    image@.len() as int,
                ) && final(self).in_queue() == old(self).in_queue() + load_stream(hs, image@),
                Err(e) => {
                    &&& e.spec_kind() == DeviceErrorKind::LoadError
                    &&& final(self).in_queue() == old(self).in_queue()
                    &&& (elf_program_headers(image@) is None || (elf_program_headers(image@)
                        matches Some(hs) && !headers_ok(hs, image@.len() as int)))
                },
            },
    {
        match parse_program_headers(image) {
            None => Err(DeviceError::from(DeviceErrorKind::LoadError)),
            Some(headers) => {
                let ghost hs = headers@.map_values(|h: ProgHeader| h@);
                let image_len_u64 = image.len() as u64;

                // Validate every loadable segment before queueing anything,
                // so that a rejected image leaves the bridge state
                // unaffected.
                let mut i: usize = 0;
                while i < headers.len()
                    invariant
                        i <= headers.len(),
                        hs.len() == headers@.len(),
                        forall|j: int| 0 <= j < hs.len() ==> #[trigger] hs[j] == headers@[j]@,
                        elf_program_headers(image@) == Some(hs),
                        self.wf(),
                        image_len_u64 == image@.len(),
                        forall|j: int|
                            0 <= j < i && (#[trigger] hs[j]).0 == PT_LOAD ==> segment_ok(
                                hs[j],
                                image@.len() as int,
                            ),
                    decreases headers.len() - i,
                {
                    let h = &headers[i];
                    assert(hs[i as int] == h@);
                    if h.p_type == PT_LOAD {
                        if !(h.p_filesz < 0x4000_0000 && h.p_paddr < 0x4000_0000 && h.p_filesz
                            <= image_len_u64 && h.p_offset <= image_len_u64 - h.p_filesz) {
                            proof {
                                assert(!segment_ok(hs[i as int], image@.len() as int));
                                assert(!headers_ok(hs, image@.len() as int));
                            }
                            return Err(DeviceError::from(DeviceErrorKind::LoadError));
                        }
                    }
                    i = i + 1;
                }
                assert(headers_ok(hs, image@.len() as int));

                // Upload the loadable segments in table order.
                let mut i: usize = 0;
                while i < headers.len()
                    invariant
                        i <= headers.len(),
                        hs.len() == headers@.len(),
                        forall|j: int| 0 <= j < hs.len() ==> #[trigger] hs[j] == headers@[j]@,
                        elf_program_headers(image@) == Some(hs),
                        headers_ok(hs, image@.len() as int),
                        self.in_queue() == old(self).in_queue() + load_stream(
                            hs.take(i as int),
                            image@,
                        ),
                        self.out_queue() == old(self).out_queue(),
                        self.produced() == old(self).produced(),
                        self.wf() == old(self).wf(),
                        self.spec_clocks() == old(self).spec_clocks(),
                    decreases headers.len() - i,
                {
                    let h = &headers[i];
                    proof {
                        assert(hs[i as int] == h@);
                        assert(hs.take(i + 1) =~= hs.take(i as int).push(hs[i as int]));
                        lemma_load_stream_push(hs.take(i as int), hs[i as int], image@);
                    }
                    if h.p_type == PT_LOAD {
                        assert(segment_ok(hs[i as int], image@.len() as int));
                        let image_len = image.len();
                        assert(h@.1 + h@.2 <= image_len && h@.2 < 0x4000_0000 && h@.3
                            < 0x4000_0000);
                        let off = h.p_offset as usize;
                        let sz = h.p_filesz as usize;
                        let seg = slice_to_vec(slice_subrange(image.as_slice(), off, off + sz));
                        self.bridge.write_bytes(h.p_paddr as u32, &seg);
                        proof {
                            assert(seg@ == image@.subrange(h@.1 as int, h@.1 + h@.2));
                            assert(seg@.len() as u32 == h@.2 as u32);
                            assert(mem_cmd_bytes(CMD_ID_WRITE, h@.3 as u32, seg@.len() as u32)
                                + seg@ == segment_stream(hs[i as int], image@));
                            assert(self.in_queue() =~= old(self).in_queue() + load_stream(
                                hs.take(i + 1),
                                image@,
                            ));
                        }
                    } else {
                        proof {
                            assert(segment_stream(hs[i as int], image@) =~= Seq::<u8>::empty());
                            assert(self.in_queue() =~= old(self).in_queue() + load_stream(
                                hs.take(i + 1),
                                image@,
                            ));
                        }
                    }
                    i = i + 1;
                }
                proof {
                    assert(hs.take(headers@.len() as int) =~= hs);
                }
                Ok(())
            },
        }
    }

    /// Enables the device: queues a write of 1 to the device-enable
    /// register. This allows the device to begin executing any code that was
    /// previously loaded into memory. Fire-and-forget: drives no cycle, and
    /// repeating it queues the identical command word again.
    pub fn enable(&mut self)
        requires
            old(self).wf(),
        ensures
            final(self).wf(),
            final(self).in_queue() == old(self).in_queue() + reg_cmd_bytes(
                CMD_ID_WRITE,
                REG_IDX_DEV_EN,
                1,
            ),
            final(self).out_queue() == old(self).out_queue(),
            final(self).produced() == old(self).produced(),
            final(self).read_pos() == old(self).read_pos(),
            final(self).spec_clocks() == old(self).spec_clocks(),
    {
        self.bridge.write_reg(REG_IDX_DEV_EN, 1);
    }

    /// Disables the device: queues a write of 0 to the device-enable
    /// register. This can be used to temporarily pause execution; execution
    /// can be resumed later with `enable`.
    pub fn disable(&mut self)
        requires
            old(self).wf(),
        ensures
            final(self).wf(),
            final(self).in_queue() == old(self).in_queue() + reg_cmd_bytes(
                CMD_ID_WRITE,
                REG_IDX_DEV_EN,
                0,
            ),
            final(self).out_queue() == old(self).out_queue(),
            final(self).produced() == old(self).produced(),
            final(self).read_pos() == old(self).read_pos(),
            final(self).spec_clocks() == old(self).spec_clocks(),
    {
        self.bridge.write_reg(REG_IDX_DEV_EN, 0);
    }

    /// Queries the device to determine if it's still executing: reads the
    /// device-enable register with an effectively unbounded budget and
    /// reports halted exactly when the four response-history bytes that
    /// answered the read decode to zero.
    pub fn query_is_halted(&mut self) -> (r: Result<bool, DeviceError>)
        requires
            old(self).wf(),
            old(self).spec_clocks() + WAIT_INFINITE_CYCLES <= u64::MAX,
        ensures
            final(self).wf(),
            old(self).produced().is_prefix_of(final(self).produced()),
            old(self).spec_clocks() <= final(self).spec_clocks() <= old(self).spec_clocks()
                + WAIT_INFINITE_CYCLES,
            exists|k: int|
                #![trigger (old(self).in_queue() + reg_cmd_bytes(CMD_ID_READ, REG_IDX_DEV_EN, 0x3fff_ffff)).skip(k)]
                0 <= k <= old(self).in_queue().len() + 8 && final(self).in_queue() == (old(
                    self,
                ).in_queue() + reg_cmd_bytes(CMD_ID_READ, REG_IDX_DEV_EN, 0x3fff_ffff)).skip(k),
            match r {
                Ok(halted) => {
                    &&& final(self).read_pos() == old(self).read_pos() + 4
                    &&& halted == (spec_u32_from_le_bytes(
                        final(self).produced().subrange(
                            old(self).read_pos(),
                            old(self).read_pos() + 4,
                        ),
                    ) == 0)
                },
                Err(e) => {
                    &&& e.spec_kind() == DeviceErrorKind::Timeout
                    &&& final(self).read_pos() == old(self).read_pos()
                    &&& old(self).out_queue().is_prefix_of(final(self).out_queue())
                    &&& final(self).out_queue().len() < 4
                    &&& final(self).spec_clocks() == old(self).spec_clocks()
                        + WAIT_INFINITE_CYCLES
                },
            },
    {
        let r = self.bridge.read_reg(REG_IDX_DEV_EN, WAIT_INFINITE_CYCLES);
        proof {
            let k = choose|k: int|
                #![trigger (old(self).in_queue() + reg_cmd_bytes(CMD_ID_READ, REG_IDX_DEV_EN, 0x3fff_ffff)).skip(k)]
                0 <= k <= old(self).in_queue().len() + 8 && self.in_queue() == (old(
                    self,
                ).in_queue() + reg_cmd_bytes(CMD_ID_READ, REG_IDX_DEV_EN, 0x3fff_ffff)).skip(k);
            assert(self.in_queue() == (old(self).in_queue() + reg_cmd_bytes(
                CMD_ID_READ,
                REG_IDX_DEV_EN,
                0x3fff_ffff,
            )).skip(k));
        }
        match r {
            Ok(reg) => {
                if reg != 0 {
                    // Still executing...
                    Ok(false)
                } else {
                    // Execution stopped
                    Ok(true)
                }
            },
            Err(err) => Err(err),
        }
    }

    /// Queries the framebuffer size from the device: reads the framebuffer
    /// configuration register and decodes the two packed 3-bit exponents of
    /// the four response-history bytes that answered the read.
    pub fn query_framebuffer_size(&mut self) -> (r: Result<(u32, u32), DeviceError>)
        requires
            old(self).wf(),
            old(self).spec_clocks() + WAIT_INFINITE_CYCLES <= u64::MAX,
        ensures
            final(self).wf(),
            old(self).produced().is_prefix_of(final(self).produced()),
            old(self).spec_clocks() <= final(self).spec_clocks() <= old(self).spec_clocks()
                + WAIT_INFINITE_CYCLES,
            exists|k: int|
                #![trigger (old(self).in_queue() + reg_cmd_bytes(CMD_ID_READ, REG_IDX_FB_CONFIG, 0x3fff_ffff)).skip(k)]
                0 <= k <= old(self).in_queue().len() + 8 && final(self).in_queue() == (old(
                    self,
                ).in_queue() + reg_cmd_bytes(CMD_ID_READ, REG_IDX_FB_CONFIG, 0x3fff_ffff)).skip(
                    k,
                ),
            match r {
                Ok(dims) => {
                    &&& final(self).read_pos() == old(self).read_pos() + 4
                    &&& dims.0 == spec_fb_width(
                        spec_u32_from_le_bytes(
                            final(self).produced().subrange(
                                old(self).read_pos(),
                                old(self).read_pos() + 4,
                            ),
                        ),
                    )
                    &&& dims.1 == spec_fb_height(
                        spec_u32_from_le_bytes(
                            final(self).produced().subrange(
                                old(self).read_pos(),
                                old(self).read_pos() + 4,
                            ),
                        ),
                    )
                    &&& 2 <= dims.0 <= 256
                    &&& 2 <= dims.1 <= 256
                },
                Err(e) => {
                    &&& e.spec_kind() == DeviceErrorKind::Timeout
                    &&& final(self).read_pos() == old(self).read_pos()
                    &&& old(self).out_queue().is_prefix_of(final(self).out_queue())
                    &&& final(self).out_queue().len() < 4
                    &&& final(self).spec_clocks() == old(self).spec_clocks()
                        + WAIT_INFINITE_CYCLES
                },
            },
    {
        let r = self.bridge.read_reg(REG_IDX_FB_CONFIG, WAIT_INFINITE_CYCLES);
        proof {
            let k = choose|k: int|
                #![trigger (old(self).in_queue() + reg_cmd_bytes(CMD_ID_READ, REG_IDX_FB_CONFIG, 0x3fff_ffff)).skip(k)]
                0 <= k <= old(self).in_queue().len() + 8 && self.in_queue() == (old(
                    self,
                ).in_queue() + reg_cmd_bytes(CMD_ID_READ, REG_IDX_FB_CONFIG, 0x3fff_ffff)).skip(k);
            assert(self.in_queue() == (old(self).in_queue() + reg_cmd_bytes(
                CMD_ID_READ,
                REG_IDX_FB_CONFIG,
                0x3fff_ffff,
            )).skip(k));
        }
        match r {
            Ok(fb_config) => {
                let dims = decode_fb_config(fb_config);
                Ok(dims)
            },
            Err(err) => Err(err),
        }
    }

    /// Dumps a snapshot of the device framebuffer into the buffer provided
    /// by the caller: reads the configuration and base-address registers,
    /// then reads exactly the width times height times four byte region
    /// into the front of `dst`, leaving the rest of `dst` as it was. A
    /// buffer too small for the region is rejected with BufferTooSmall
    /// before any further command is issued; on any error no byte of `dst`
    /// is changed, and a timeout is never misreported as a too-small
    /// buffer.
    pub fn dump_framebuffer(&mut self, dst: &mut Vec<u8>) -> (r: Result<(), DeviceError>)
        requires
            old(self).wf(),
            old(self).spec_clocks() + 3 * (WAIT_INFINITE_CYCLES as int) <= u64::MAX,
        ensures
            final(self).wf(),
            final(dst)@.len() == old(dst)@.len(),
            old(self).produced().is_prefix_of(final(self).produced()),
            old(self).spec_clocks() <= final(self).spec_clocks() <= old(self).spec_clocks() + 3 * (
            WAIT_INFINITE_CYCLES as int),
            match r {
                Ok(()) => exists|k: int|
                    dump_ok_witness(
                        old(self).in_queue(),
                        final(self).produced(),
                        old(self).read_pos(),
                        old(dst)@,
                        final(self).in_queue(),
                        final(self).read_pos(),
                        final(dst)@,
                        k,
                    ),
                Err(e) => {
                    let cfg = spec_u32_from_le_bytes(
                        final(self).produced().subrange(
                            old(self).read_pos(),
                            old(self).read_pos() + 4,
                        ),
                    );
                    let region_len = spec_fb_width(cfg) * spec_fb_height(cfg) * 4;
                    &&& final(dst)@ == old(dst)@
                    &&& (e.spec_kind() == DeviceErrorKind::Timeout || e.spec_kind()
                        == DeviceErrorKind::BufferTooSmall)
                    &&& (e.spec_kind() == DeviceErrorKind::BufferTooSmall ==> {
                        &&& final(self).read_pos() == old(self).read_pos() + 4
                        &&& region_len > old(dst)@.len()
                        &&& final(self).spec_clocks() <= old(self).spec_clocks() + (
                        WAIT_INFINITE_CYCLES as int)
                    })
                    &&& (e.spec_kind() == DeviceErrorKind::Timeout ==> {
                        &&& final(self).spec_clocks() >= old(self).spec_clocks() + (
                        WAIT_INFINITE_CYCLES as int)
                        &&& (final(self).read_pos() == old(self).read_pos()
                            || final(self).read_pos() == old(self).read_pos() + 4
                            || final(self).read_pos() == old(self).read_pos() + 8)
                        &&& (final(self).read_pos() >= old(self).read_pos() + 4 ==> region_len
                            <= old(dst)@.len())
                    })
                },
            },
            r matches Err(e) && e.spec_kind() == DeviceErrorKind::BufferTooSmall ==> exists|k: int|
                #![trigger (old(self).in_queue() + reg_cmd_bytes(CMD_ID_READ, REG_IDX_FB_CONFIG, 0x3fff_ffff)).skip(k)]
                0 <= k <= old(self).in_queue().len() + 8 && final(self).in_queue() == (old(
                    self,
                ).in_queue() + reg_cmd_bytes(CMD_ID_READ, REG_IDX_FB_CONFIG, 0x3fff_ffff)).skip(
                    k,
                ),
    {
        let ghost in0 = self.in_queue();
        let ghost pos0 = self.read_pos();
        match self.query_framebuffer_size() {
            Ok(dims) => {
                let ghost cfg_cmd = reg_cmd_bytes(CMD_ID_READ, REG_IDX_FB_CONFIG, 0x3fff_ffff);
                let ghost k1 = choose|k: int|
                    0 <= k <= in0.len() + 8 && self.in_queue() == (in0 + cfg_cmd).skip(k);
                let ghost s1 = *self;

                let (fb_width, fb_height) = dims;
                assert(fb_width * fb_height * 4 <= 262144) by (nonlinear_arith)
                    requires
                        2 <= fb_width <= 256 && 2 <= fb_height <= 256,
                ;
                let fb_num_bytes = fb_width * fb_height * 4;

                // Make sure the destination buffer is large enough
                if fb_num_bytes as usize <= dst.len() {
                    match self.bridge.read_reg(REG_IDX_FB_ADDR, WAIT_INFINITE_CYCLES) {
                        Ok(fb_addr) => {
                            let ghost addr_cmd = reg_cmd_bytes(
                                CMD_ID_READ,
                                REG_IDX_FB_ADDR,
                                0x3fff_ffff,
                            );
                            let ghost k2 = choose|k: int|
                                0 <= k <= s1.in_queue().len() + 8 && self.in_queue() == (
                                s1.in_queue() + addr_cmd).skip(k);
                            let ghost s2 = *self;

                            // The register file hands back a full 32-bit
                            // word; only its low 30 bits can name an
                            // address on the wire.
                            let addr = fb_addr & 0x3fff_ffff;
                            assert(fb_addr & 0x3fff_ffff < 0x4000_0000u32) by (bit_vector);

                            // Read exactly the framebuffer region, then put
                            // it at the front of the caller's buffer.
                            let mut region: Vec<u8> = Vec::new();
                            let mut i: usize = 0;
                            while i < fb_num_bytes as usize
                                invariant
                                    i <= fb_num_bytes as usize,
                                    region@.len() == i,
                                decreases fb_num_bytes as usize - i,
                            {
                                region.push(0);
                                i = i + 1;
                            }
                            match self.bridge.read_bytes(addr, &mut region, WAIT_INFINITE_CYCLES) {
                                Ok(()) => {
                                    let ghost k3 = choose|k: int|
                                        #![trigger (s2.in_queue() + mem_cmd_bytes(CMD_ID_READ, addr, fb_num_bytes as u32)).skip(k)]
                                        0 <= k <= s2.in_queue().len() + 8 && self.in_queue() == (
                                        s2.in_queue() + mem_cmd_bytes(
                                            CMD_ID_READ,
                                            addr,
                                            fb_num_bytes as u32,
                                        )).skip(k);
                                    let mut i: usize = 0;
                                    while i < region.len()
                                        invariant
                                            i <= region@.len(),
                                            region@.len() <= dst@.len(),
                                            dst@.len() == old(dst)@.len(),
                                            dst@ == region@.take(i as int) + old(dst)@.skip(
                                                i as int,
                                            ),
                                        decreases region@.len() - i,
                                    {
                                        dst.set(i, region[i]);
                                        proof {
                                            assert(dst@ =~= region@.take(i + 1) + old(dst)@.skip(
                                                i + 1,
                                            ));
                                        }
                                        i = i + 1;
                                    }
                                    proof {
                                        let mem_cmd = mem_cmd_bytes(
                                            CMD_ID_READ,
                                            addr,
                                            fb_num_bytes as u32,
                                        );
                                        lemma_reg_cmd_bytes_len(
                                            CMD_ID_READ,
                                            REG_IDX_FB_CONFIG,
                                            0x3fff_ffff,
                                        );
                                        lemma_reg_cmd_bytes_len(
                                            CMD_ID_READ,
                                            REG_IDX_FB_ADDR,
                                            0x3fff_ffff,
                                        );
                                        lemma_cmd_bytes_len(CMD_ID_READ, addr, fb_num_bytes as u32);

                                        // The register responses sit at fixed
                                        // positions of the history, which only
                                        // grows: their bytes are stable.
                                        lemma_prefix_trans(
                                            s1.produced(),
                                            s2.produced(),
                                            self.produced(),
                                        );
                                        lemma_prefix_subrange(
                                            s1.produced(),
                                            self.produced(),
                                            pos0,
                                            pos0 + 4,
                                        );
                                        lemma_prefix_subrange(
                                            s2.produced(),
                                            self.produced(),
                                            pos0 + 4,
                                            pos0 + 8,
                                        );

                                        // The caller's buffer now starts with
                                        // exactly the region that was read.
                                        assert(dst@ =~= self.produced().subrange(
                                            pos0 + 8,
                                            pos0 + 8 + fb_num_bytes as int,
                                        ) + old(dst)@.skip(fb_num_bytes as int));

                                        // Chain the three queued commands and
                                        // drain counts into one statement
                                        // about the input stream.
                                        lemma_skip_append(in0 + cfg_cmd, addr_cmd, k1);
                                        lemma_skip_skip(in0 + cfg_cmd + addr_cmd, k1, k2);
                                        lemma_skip_append(in0 + cfg_cmd + addr_cmd, mem_cmd, k1 + k2);
                                        lemma_skip_skip(
                                            in0 + cfg_cmd + addr_cmd + mem_cmd,
                                            k1 + k2,
                                            k3,
                                        );

                                        assert(dump_ok_witness(
                                            in0,
                                            self.produced(),
                                            pos0,
                                            old(dst)@,
                                            self.in_queue(),
                                            self.read_pos(),
                                            dst@,
                                            k1 + k2 + k3,
                                        ));
                                    }
                                    Ok(())
                                },
                                Err(err) => {
                                    proof {
                                        lemma_prefix_trans(
                                            s1.produced(),
                                            s2.produced(),
                                            self.produced(),
                                        );
                                        lemma_prefix_subrange(
                                            s1.produced(),
                                            self.produced(),
                                            pos0,
                                            pos0 + 4,
                                        );
                                    }
                                    Err(err)
                                },
                            }
                        },
                        Err(err) => {
                            proof {
                                lemma_prefix_subrange(
                                    s1.produced(),
                                    self.produced(),
                                    pos0,
                                    pos0 + 4,
                                );
                            }
                            Err(err)
                        },
                    }
                } else {
                    proof {
                        assert(self.in_queue() == (in0 + cfg_cmd).skip(k1));
                    }
                    Err(DeviceError::from(DeviceErrorKind::BufferTooSmall))
                }
            },
            Err(err) => Err(err),
        }
    }
}

} // verus!
