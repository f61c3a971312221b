use vstd::prelude::*;

use std::collections::VecDeque;

use vstd::bytes::spec_u32_from_le_bytes;
use vstd::bytes::spec_u64_to_le_bytes;
use vstd::bytes::u32_from_le_bytes;
use vstd::bytes::u64_to_le_bytes;

use crate::channel::ClockedChannel;
use crate::codec::build_cmd;
use crate::codec::build_reg_cmd;
use crate::codec::lemma_cmd_bytes_len;
use crate::codec::lemma_reg_cmd_bytes_len;
use crate::codec::mem_cmd_bytes;
use crate::codec::reg_cmd_bytes;
use crate::codec::CMD_ID_READ;
use crate::codec::CMD_ID_WRITE;
use crate::error::DeviceError;
use crate::error::DeviceErrorKind;

verus! {

/// A wait budget large enough to block until the device responds, bounded
/// only by how many cycles the caller is willing to drive.
pub const WAIT_INFINITE_CYCLES: usize = 0xffffffff;

/// Register index of the device-enable register (0 = halted, nonzero =
/// running).
pub const REG_IDX_DEV_EN: u16 = 0;

/// Register index of the framebuffer base address register.
pub const REG_IDX_FB_ADDR: u16 = 1;

/// Register index of the framebuffer configuration register (packed
/// width/height exponents).
pub const REG_IDX_FB_CONFIG: u16 = 2;

/// Largest register index that fits the wire encoding's index subfield.
pub const REG_IDX_LIMIT: u16 = 0x400;

/// Largest address or transfer size that fits a 30-bit command subfield.
pub const ADDR_SPACE_LIMIT: u32 = 0x4000_0000;

/// Dropping the first `a` then the first `b` elements drops the first
/// `a + b`.
pub(crate) proof fn lemma_skip_skip<T>(s: Seq<T>, a: int, b: int)
    requires
        0 <= a,
        0 <= b,
        a + b <= s.len(),
    ensures
        s.skip(a).skip(b) == s.skip(a + b),
{
    assert(s.skip(a).skip(b) =~= s.skip(a + b));
}

/// A prefix of a prefix is a prefix.
pub(crate) proof fn lemma_prefix_trans<T>(a: Seq<T>, b: Seq<T>, c: Seq<T>)
    requires
        a.is_prefix_of(b),
        b.is_prefix_of(c),
    ensures
        a.is_prefix_of(c),
{
    assert(a =~= c.subrange(0, a.len() as int));
}

/// A subrange that lies inside a prefix is the same subrange of the whole.
pub(crate) proof fn lemma_prefix_subrange<T>(a: Seq<T>, b: Seq<T>, i: int, j: int)
    requires
        a.is_prefix_of(b),
        0 <= i <= j <= a.len(),
    ensures
        a.subrange(i, j) == b.subrange(i, j),
{
    assert(a.subrange(i, j) =~= b.subrange(i, j));
}

/// Dropping from the front commutes with appending at the back.
pub(crate) proof fn lemma_skip_append<T>(s: Seq<T>, t: Seq<T>, k: int)
    requires
        0 <= k <= s.len(),
    ensures
        s.skip(k) + t == (s + t).skip(k),
{
    assert(s.skip(k) + t =~= (s + t).skip(k));
}

/// The protocol driver: turns "exactly one byte may enter and one byte may
/// leave per clock, gated by full/empty flags" into queued, cycle-counted
/// byte transfers against a linear memory space and a small register file.
///
/// The bridge owns two byte FIFOs. Write operations append to the pending
/// input queue, which is drained toward the channel one byte per cycle when
/// the channel accepts input; bytes the channel produces are appended to the
/// pending output queue, which read operations drain. Bytes are never
/// reordered within a queue. A ghost history keeps every byte the channel
/// has ever produced, so each read's contract can name exactly which
/// response bytes it returned.
pub struct ProtoBridge<C: ClockedChannel> {
    channel: C,
    clocks: u64,
    input_queue: VecDeque<u8>,
    output_queue: VecDeque<u8>,
    produced: Ghost<Seq<u8>>,
}

impl<C: ClockedChannel> ProtoBridge<C> {
    /// Bytes queued toward the device and not yet consumed by it, oldest
    /// first.
    pub closed spec fn in_queue(&self) -> Seq<u8> {
        self.input_queue@
    }

    /// Bytes produced by the device and not yet read back, oldest first.
    pub closed spec fn out_queue(&self) -> Seq<u8> {
        self.output_queue@
    }

    /// The number of cycles driven since the bridge was created.
    pub closed spec fn spec_clocks(&self) -> u64 {
        self.clocks
    }

    /// Every byte the channel has produced since the bridge was created,
    /// oldest first: the full response history, never shortened.
    pub closed spec fn produced(&self) -> Seq<u8> {
        self.produced@
    }

    /// How many produced bytes have been consumed by read operations: the
    /// position in the response history where unread output begins.
    pub open spec fn read_pos(&self) -> int {
        self.produced().len() - self.out_queue().len()
    }

    /// Well-formedness: the pending output queue is exactly the unread
    /// suffix of the response history.
    pub open spec fn wf(&self) -> bool {
        &&& self.out_queue().len() <= self.produced().len()
        &&& self.out_queue() == self.produced().skip(self.read_pos())
    }

    /// Takes exclusive ownership of one clocked channel; the fresh bridge
    /// has empty queues and a zeroed cycle counter.
    pub fn new(channel: C) -> (r: Self)
        ensures
            r.wf(),
            r.in_queue() == Seq::<u8>::empty(),
            r.out_queue() == Seq::<u8>::empty(),
            r.produced() == Seq::<u8>::empty(),
            r.spec_clocks() == 0,
    {
        let r = ProtoBridge {
            channel,
            clocks: 0,
            input_queue: VecDeque::new(),
            output_queue: VecDeque::new(),
            produced: Ghost(Seq::empty()),
        };
        proof {
            assert(r.produced().skip(0) =~= r.produced());
        }
        r
    }

    /// Returns the number of clock cycles that have elapsed on the device.
    pub fn clocks(&self) -> (r: u64)
        ensures
            r == self.spec_clocks(),
    {
        self.clocks
    }

    /// Appends `buf` to the pending input queue; non-blocking, drives no
    /// cycle.
    pub fn write(&mut self, buf: &Vec<u8>)
        ensures
            final(self).in_queue() == old(self).in_queue() + buf@,
            final(self).out_queue() == old(self).out_queue(),
            final(self).produced() == old(self).produced(),
            final(self).spec_clocks() == old(self).spec_clocks(),
    {
        let mut i: usize = 0;
        while i < buf.len()
            invariant
                i <= buf.len(),
                self.in_queue() == old(self).in_queue() + buf@.take(i as int),
                self.out_queue() == old(self).out_queue(),
                self.produced() == old(self).produced(),
                self.spec_clocks() == old(self).spec_clocks(),
            decreases buf.len() - i,
        {
            self.input_queue.push_back(buf[i]);
            proof {
                assert(buf@.take(i + 1) =~= buf@.take(i as int).push(buf@[i as int]));
                assert(self.in_queue() =~= old(self).in_queue() + buf@.take(i + 1));
            }
            i = i + 1;
        }
        proof {
            assert(buf@.take(buf@.len() as int) =~= buf@);
        }
    }

    /// Moves up to `buf.len()` pending output bytes into the front of `buf`,
    /// oldest first, and returns how many were moved.
    pub fn read(&mut self, buf: &mut Vec<u8>) -> (n: usize)
        requires
            old(self).wf(),
        ensures
            final(self).wf(),
            n == if old(self).out_queue().len() <= old(buf)@.len() {
                old(self).out_queue().len() as int
            } else {
                old(buf)@.len() as int
            },
            final(buf)@ == old(self).out_queue().take(n as int) + old(buf)@.skip(n as int),
            final(buf)@.len() == old(buf)@.len(),
            final(self).out_queue() == old(self).out_queue().skip(n as int),
            final(self).in_queue() == old(self).in_queue(),
            final(self).produced() == old(self).produced(),
            final(self).read_pos() == old(self).read_pos() + n,
            final(self).spec_clocks() == old(self).spec_clocks(),
    {
        proof {
            assert(old(self).out_queue().len() <= old(self).produced().len());
        }
        let n = if self.output_queue.len() <= buf.len() {
            self.output_queue.len()
        } else {
            buf.len()
        };
        let mut i: usize = 0;
        while i < n
            invariant
                i <= n,
                n <= old(buf)@.len(),
                n <= old(self).out_queue().len(),
                buf@.len() == old(buf)@.len(),
                buf@ == old(self).out_queue().take(i as int) + old(buf)@.skip(i as int),
                self.out_queue() == old(self).out_queue().skip(i as int),
                self.in_queue() == old(self).in_queue(),
                self.produced() == old(self).produced(),
                self.spec_clocks() == old(self).spec_clocks(),
            decreases n - i,
        {
            proof {
                assert(self.out_queue().len() == old(self).out_queue().len() - i);
            }
            let b = self.output_queue.pop_front().unwrap();
            buf.set(i, b);
            proof {
                assert(old(self).out_queue().skip(i as int)[0] == old(self).out_queue()[i as int]);
                lemma_skip_skip(old(self).out_queue(), i as int, 1);
                assert(self.out_queue() =~= old(self).out_queue().skip(i + 1));
                assert(buf@ =~= old(self).out_queue().take(i + 1) + old(buf)@.skip(i + 1));
            }
            i = i + 1;
        }
        proof {
            lemma_skip_skip(old(self).produced(), old(self).read_pos(), n as int);
        }
        n
    }

    /// Removes and returns exactly `buf.len()` pending output bytes in FIFO
    /// order. Calling this without enough output already waited-for and
    /// present is a contract violation.
    pub fn read_exact(&mut self, buf: &mut Vec<u8>)
        requires
            old(self).wf(),
            old(buf)@.len() <= old(self).out_queue().len(),
        ensures
            final(self).wf(),
            final(buf)@ == old(self).out_queue().take(old(buf)@.len() as int),
            final(buf)@.len() == old(buf)@.len(),
            final(self).out_queue() == old(self).out_queue().skip(old(buf)@.len() as int),
            final(self).in_queue() == old(self).in_queue(),
            final(self).produced() == old(self).produced(),
            final(self).read_pos() == old(self).read_pos() + old(buf)@.len(),
            final(self).spec_clocks() == old(self).spec_clocks(),
    {
        let n = self.read(buf);
        proof {
            assert(old(buf)@.skip(old(buf)@.len() as int) =~= Seq::<u8>::empty());
            assert(old(self).out_queue().take(n as int) + old(buf)@.skip(n as int)
                =~= old(self).out_queue().take(old(buf)@.len() as int));
        }
    }

    /// Advances the channel by exactly one cycle: feeds it the front of the
    /// pending input queue if the channel reports room, captures one output
    /// byte if the channel reports one ready, and increments the clock
    /// counter unconditionally, even if neither transfer occurred.
    pub fn clock(&mut self)
        requires
            old(self).wf(),
            old(self).spec_clocks() < u64::MAX,
        ensures
            final(self).wf(),
            final(self).spec_clocks() == old(self).spec_clocks() + 1,
            final(self).in_queue() == old(self).in_queue() || (old(self).in_queue().len() > 0
                && final(self).in_queue() == old(self).in_queue().skip(1)),
            old(self).out_queue().is_prefix_of(final(self).out_queue()),
            final(self).out_queue().len() <= old(self).out_queue().len() + 1,
            old(self).produced().is_prefix_of(final(self).produced()),
            final(self).produced().len() <= old(self).produced().len() + 1,
            final(self).read_pos() == old(self).read_pos(),
    {
        let status = self.channel.status();

        let mut fed: Option<u8> = None;
        if !status.input_full {
            fed = self.input_queue.pop_front();
        }

        let emitted = self.channel.step(fed, !status.output_empty);

        if let Some(b) = emitted {
            self.output_queue.push_back(b);
            self.produced = Ghost(self.produced@.push(b));
            proof {
                assert(old(self).out_queue()
                    =~= self.out_queue().subrange(0, old(self).out_queue().len() as int));
                assert(old(self).produced()
                    =~= self.produced().subrange(0, old(self).produced().len() as int));
                assert(self.out_queue() =~= self.produced().skip(self.read_pos()));
            }
        }

        self.clocks = self.clocks + 1;
    }

    /// Drives cycles one at a time until the pending output queue holds at
    /// least `num_bytes` bytes or `max_wait_cycles` cycles have been driven,
    /// whichever comes first. Returns the output queue length on success;
    /// times out only after driving exactly `max_wait_cycles` cycles.
    pub fn wait_for_output(&mut self, num_bytes: usize, max_wait_cycles: usize) -> (r: Result<
        usize,
        DeviceError,
    >)
        requires
            old(self).wf(),
            old(self).spec_clocks() + max_wait_cycles <= u64::MAX,
        ensures
            final(self).wf(),
            old(self).produced().is_prefix_of(final(self).produced()),
            final(self).read_pos() == old(self).read_pos(),
            old(self).out_queue().is_prefix_of(final(self).out_queue()),
            final(self).out_queue().len() <= old(self).out_queue().len()
                + (final(self).spec_clocks() - old(self).spec_clocks()),
            exists|k: int|
                0 <= k <= old(self).in_queue().len() && k <= final(self).spec_clocks() - old(
                    self,
                ).spec_clocks() && final(self).in_queue() == old(self).in_queue().skip(k),
            old(self).spec_clocks() <= final(self).spec_clocks() <= old(self).spec_clocks()
                + max_wait_cycles,
            old(self).out_queue().len() >= num_bytes ==> *final(self) == *old(self),
            old(self).out_queue().len() + max_wait_cycles < num_bytes ==> r is Err,
            match r {
                Ok(len) => len == final(self).out_queue().len() && len >= num_bytes && (old(
                    self,
                ).out_queue().len() < num_bytes ==> len == num_bytes),
                Err(e) => {
                    &&& e.spec_kind() == DeviceErrorKind::Timeout
                    &&& final(self).out_queue().len() < num_bytes
                    &&& final(self).spec_clocks() == old(self).spec_clocks() + max_wait_cycles
                },
            },
    {
        proof {
            assert(old(self).in_queue().skip(0) =~= old(self).in_queue());
        }
        let mut wait_cycle_idx: usize = 0;
        while wait_cycle_idx < max_wait_cycles && self.output_queue.len() < num_bytes
            invariant
                wait_cycle_idx <= max_wait_cycles,
                old(self).spec_clocks() + max_wait_cycles <= u64::MAX,
                self.spec_clocks() == old(self).spec_clocks() + wait_cycle_idx,
                self.wf(),
                old(self).produced().is_prefix_of(self.produced()),
                self.read_pos() == old(self).read_pos(),
                old(self).out_queue().is_prefix_of(self.out_queue()),
                self.out_queue().len() <= old(self).out_queue().len() + wait_cycle_idx,
                exists|k: int|
                    0 <= k <= old(self).in_queue().len() && k <= wait_cycle_idx
                        && self.in_queue() == old(self).in_queue().skip(k),
                wait_cycle_idx == 0 ==> self == old(self),
                wait_cycle_idx > 0 ==> old(self).out_queue().len() < num_bytes,
                old(self).out_queue().len() < num_bytes ==> self.out_queue().len() <= num_bytes,
            decreases max_wait_cycles - wait_cycle_idx,
        {
            let ghost prev = *self;
            self.clock();
            proof {
                lemma_prefix_trans(old(self).out_queue(), prev.out_queue(), self.out_queue());
                lemma_prefix_trans(old(self).produced(), prev.produced(), self.produced());
                let k = choose|k: int|
                    0 <= k <= old(self).in_queue().len() && k <= wait_cycle_idx
                        && prev.in_queue() == old(self).in_queue().skip(k);
                if self.in_queue() == prev.in_queue() {
                    assert(self.in_queue() == old(self).in_queue().skip(k));
                } else {
                    lemma_skip_skip(old(self).in_queue(), k, 1);
                    assert(self.in_queue() == old(self).in_queue().skip(k + 1));
                }
            }
            wait_cycle_idx = wait_cycle_idx + 1;
        }

        if self.output_queue.len() >= num_bytes {
            Ok(self.output_queue.len())
        } else {
            Err(DeviceError::from(DeviceErrorKind::Timeout))
        }
    }

    /// Serializes a command word little-endian and appends it to the pending
    /// input queue.
    fn write_cmd(&mut self, cmd: u64)
        ensures
            final(self).in_queue() == old(self).in_queue() + spec_u64_to_le_bytes(cmd),
            final(self).out_queue() == old(self).out_queue(),
            final(self).produced() == old(self).produced(),
            final(self).spec_clocks() == old(self).spec_clocks(),
    {
        let bytes = u64_to_le_bytes(cmd);
        self.write(&bytes);
    }

    /// Enqueues a command word asking the device to send back `size` bytes
    /// starting at memory address `addr`.
    fn cmd_read_bytes(&mut self, addr: u32, size: u32)
        requires
            addr < ADDR_SPACE_LIMIT,
            size < ADDR_SPACE_LIMIT,
        ensures
            final(self).in_queue() == old(self).in_queue() + mem_cmd_bytes(
                CMD_ID_READ,
                addr,
                size,
            ),
            final(self).out_queue() == old(self).out_queue(),
            final(self).produced() == old(self).produced(),
            final(self).spec_clocks() == old(self).spec_clocks(),
    {
        let cmd = build_cmd(CMD_ID_READ, addr, size);
        self.write_cmd(cmd);
    }

    /// Enqueues a command word asking the device to send back the value of
    /// register `idx`; the data subfield is ignored by the device for reads
    /// and carries an all-ones filler.
    fn cmd_read_reg(&mut self, idx: u16)
        requires
            idx < REG_IDX_LIMIT,
        ensures
            final(self).in_queue() == old(self).in_queue() + reg_cmd_bytes(
                CMD_ID_READ,
                idx,
                0x3fff_ffff,
            ),
            final(self).out_queue() == old(self).out_queue(),
            final(self).produced() == old(self).produced(),
            final(self).spec_clocks() == old(self).spec_clocks(),
    {
        let cmd = build_reg_cmd(CMD_ID_READ, idx, 0x3fff_ffff);
        self.write_cmd(cmd);
    }

    /// Enqueues a command word announcing a write of `size` bytes starting
    /// at memory address `addr`; the payload must follow in the input
    /// stream.
    fn cmd_write_bytes(&mut self, addr: u32, size: u32)
        requires
            addr < ADDR_SPACE_LIMIT,
            size < ADDR_SPACE_LIMIT,
        ensures
            final(self).in_queue() == old(self).in_queue() + mem_cmd_bytes(
                CMD_ID_WRITE,
                addr,
                size,
            ),
            final(self).out_queue() == old(self).out_queue(),
            final(self).produced() == old(self).produced(),
            final(self).spec_clocks() == old(self).spec_clocks(),
    {
        let cmd = build_cmd(CMD_ID_WRITE, addr, size);
        self.write_cmd(cmd);
    }

    /// Enqueues a command word writing `data` into register `idx`.
    fn cmd_write_reg(&mut self, idx: u16, data: u32)
        requires
            idx < REG_IDX_LIMIT,
            data < ADDR_SPACE_LIMIT,
        ensures
            final(self).in_queue() == old(self).in_queue() + reg_cmd_bytes(
                CMD_ID_WRITE,
                idx,
                data,
            ),
            final(self).out_queue() == old(self).out_queue(),
            final(self).produced() == old(self).produced(),
            final(self).spec_clocks() == old(self).spec_clocks(),
    {
        let cmd = build_reg_cmd(CMD_ID_WRITE, idx, data);
        self.write_cmd(cmd);
    }

    /// Issues a write command sized to `buf`, then enqueues `buf` itself;
    /// purely queues, drives no cycle.
    pub fn write_bytes(&mut self, addr: u32, buf: &Vec<u8>)
        requires
            addr < ADDR_SPACE_LIMIT,
            buf@.len() < ADDR_SPACE_LIMIT,
        ensures
            final(self).in_queue() == old(self).in_queue() + mem_cmd_bytes(
                CMD_ID_WRITE,
                addr,
                buf@.len() as u32,
            ) + buf@,
            final(self).out_queue() == old(self).out_queue(),
            final(self).produced() == old(self).produced(),
            final(self).spec_clocks() == old(self).spec_clocks(),
    {
        self.cmd_write_bytes(addr, buf.len() as u32);
        self.write(buf);
    }

    /// Issues a read command sized to `buf`, waits up to `max_wait_cycles`
    /// for the response, and on success moves the next `buf.len()` bytes of
    /// the response history into `buf` in FIFO order. On timeout `buf` is
    /// left untouched and no output byte is consumed; a timeout never
    /// yields a partially filled buffer.
    pub fn read_bytes(&mut self, addr: u32, buf: &mut Vec<u8>, max_wait_cycles: usize) -> (r:
        Result<(), DeviceError>)
        requires
            old(self).wf(),
            addr < ADDR_SPACE_LIMIT,
            old(buf)@.len() < ADDR_SPACE_LIMIT,
            old(self).spec_clocks() + max_wait_cycles <= u64::MAX,
        ensures
            final(self).wf(),
            final(buf)@.len() == old(buf)@.len(),
            old(self).produced().is_prefix_of(final(self).produced()),
            old(self).spec_clocks() <= final(self).spec_clocks() <= old(self).spec_clocks()
                + max_wait_cycles,
            old(self).out_queue().len() + max_wait_cycles < old(buf)@.len() ==> r is Err,
            exists|k: int|
                #![trigger (old(self).in_queue() + mem_cmd_bytes(CMD_ID_READ, addr, old(buf)@.len() as u32)).skip(k)]
                0 <= k <= old(self).in_queue().len() + 8 && k <= final(self).spec_clocks() - old(
                    self,
                ).spec_clocks() && final(self).in_queue() == (old(self).in_queue()
                    + mem_cmd_bytes(CMD_ID_READ, addr, old(buf)@.len() as u32)).skip(k),
            match r {
                Ok(()) => {
                    &&& final(self).read_pos() == old(self).read_pos() + old(buf)@.len()
                    &&& final(buf)@ == final(self).produced().subrange(
                        old(self).read_pos(),
                        old(self).read_pos() + old(buf)@.len(),
                    )
                    &&& (old(self).out_queue().len() <= old(buf)@.len()
                        ==> final(self).out_queue() == Seq::<u8>::empty())
                },
                Err(e) => {
                    &&& e.spec_kind() == DeviceErrorKind::Timeout
                    &&& final(buf)@ == old(buf)@
                    &&& final(self).read_pos() == old(self).read_pos()
                    &&& old(self).out_queue().is_prefix_of(final(self).out_queue())
                    &&& final(self).out_queue().len() < old(buf)@.len()
                    &&& final(self).spec_clocks() == old(self).spec_clocks() + max_wait_cycles
                },
            },
    {
        self.cmd_read_bytes(addr, buf.len() as u32);
        let ghost mid = *self;
        match self.wait_for_output(buf.len(), max_wait_cycles) {
            Ok(_) => {
                let ghost waited = *self;
                self.read_exact(buf);
                proof {
                    assert(waited.out_queue().take(old(buf)@.len() as int) =~= waited
                        .produced()
                        .subrange(
                        waited.read_pos(),
                        waited.read_pos() + old(buf)@.len(),
                    ));
                    lemma_cmd_bytes_len(CMD_ID_READ, addr, old(buf)@.len() as u32);
                    let k = choose|k: int|
                        0 <= k <= mid.in_queue().len() && k <= waited.spec_clocks()
                            - mid.spec_clocks() && waited.in_queue() == mid.in_queue().skip(k);
                    assert(self.in_queue() == (old(self).in_queue() + mem_cmd_bytes(
                        CMD_ID_READ,
                        addr,
                        old(buf)@.len() as u32,
                    )).skip(k));
                }
                Ok(())
            },
            Err(err) => {
                proof {
                    lemma_cmd_bytes_len(CMD_ID_READ, addr, old(buf)@.len() as u32);
                    let k = choose|k: int|
                        0 <= k <= mid.in_queue().len() && k <= self.spec_clocks()
                            - mid.spec_clocks() && self.in_queue() == mid.in_queue().skip(k);
                    assert(self.in_queue() == (old(self).in_queue() + mem_cmd_bytes(
                        CMD_ID_READ,
                        addr,
                        old(buf)@.len() as u32,
                    )).skip(k));
                }
                Err(err)
            },
        }
    }

    /// Issues a register read command, waits up to `max_wait_cycles` for the
    /// one register-width response, and decodes exactly the next four bytes
    /// of the response history little-endian. On timeout no output byte is
    /// consumed.
    pub fn read_reg(&mut self, idx: u16, max_wait_cycles: usize) -> (r: Result<u32, DeviceError>)
        requires
            old(self).wf(),
            idx < REG_IDX_LIMIT,
            old(self).spec_clocks() + max_wait_cycles <= u64::MAX,
        ensures
            final(self).wf(),
            old(self).produced().is_prefix_of(final(self).produced()),
            old(self).spec_clocks() <= final(self).spec_clocks() <= old(self).spec_clocks()
                + max_wait_cycles,
            old(self).out_queue().len() + max_wait_cycles < 4 ==> r is Err,
            exists|k: int|
                #![trigger (old(self).in_queue() + reg_cmd_bytes(CMD_ID_READ, idx, 0x3fff_ffff)).skip(k)]
                0 <= k <= old(self).in_queue().len() + 8 && k <= final(self).spec_clocks() - old(
                    self,
                ).spec_clocks() && final(self).in_queue() == (old(self).in_queue()
                    + reg_cmd_bytes(CMD_ID_READ, idx, 0x3fff_ffff)).skip(k),
            match r {
                Ok(v) => {
                    &&& final(self).read_pos() == old(self).read_pos() + 4
                    &&& v == spec_u32_from_le_bytes(
                        final(self).produced().subrange(
                            old(self).read_pos(),
                            old(self).read_pos() + 4,
                        ),
                    )
                },
                Err(e) => {
                    &&& e.spec_kind() == DeviceErrorKind::Timeout
                    &&& final(self).read_pos() == old(self).read_pos()
                    &&& old(self).out_queue().is_prefix_of(final(self).out_queue())
                    &&& final(self).out_queue().len() < 4
                    &&& final(self).spec_clocks() == old(self).spec_clocks() + max_wait_cycles
                },
            },
    {
        self.cmd_read_reg(idx);
        let ghost mid = *self;
        match self.wait_for_output(4, max_wait_cycles) {
            Ok(_) => {
                let ghost waited = *self;
                let mut buf: Vec<u8> = Vec::new();
                buf.push(0);
                buf.push(0);
                buf.push(0);
                buf.push(0);
                self.read_exact(&mut buf);
                let v = u32_from_le_bytes(buf.as_slice());
                proof {
                    assert(waited.out_queue().take(4) =~= waited.produced().subrange(
                        waited.read_pos(),
                        waited.read_pos() + 4,
                    ));
                    lemma_reg_cmd_bytes_len(CMD_ID_READ, idx, 0x3fff_ffff);
                    let k = choose|k: int|
                        0 <= k <= mid.in_queue().len() && k <= waited.spec_clocks()
                            - mid.spec_clocks() && waited.in_queue() == mid.in_queue().skip(k);
                    assert(self.in_queue() == (old(self).in_queue() + reg_cmd_bytes(
                        CMD_ID_READ,
                        idx,
                        0x3fff_ffff,
                    )).skip(k));
                }
                Ok(v)
            },
            Err(err) => {
                proof {
                    lemma_reg_cmd_bytes_len(CMD_ID_READ, idx, 0x3fff_ffff);
                    let k = choose|k: int|
                        0 <= k <= mid.in_queue().len() && k <= self.spec_clocks()
                            - mid.spec_clocks() && self.in_queue() == mid.in_queue().skip(k);
                    assert(self.in_queue() == (old(self).in_queue() + reg_cmd_bytes(
                        CMD_ID_READ,
                        idx,
                        0x3fff_ffff,
                    )).skip(k));
                }
                Err(err)
            },
        }
    }

    /// Enqueues a register write command; fire-and-forget, drives no cycle.
    pub fn write_reg(&mut self, idx: u16, data: u32)
        requires
            idx < REG_IDX_LIMIT,
            data < ADDR_SPACE_LIMIT,
        ensures
            final(self).in_queue() == old(self).in_queue() + reg_cmd_bytes(
                CMD_ID_WRITE,
                idx,
                data,
            ),
            final(self).out_queue() == old(self).out_queue(),
            final(self).produced() == old(self).produced(),
            final(self).spec_clocks() == old(self).spec_clocks(),
    {
        self.cmd_write_reg(idx, data);
    }
}

} // verus!
