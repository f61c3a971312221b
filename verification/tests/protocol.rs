use std::collections::VecDeque;

use devsim::channel::ChannelStatus;
use devsim::channel::ClockedChannel;
use devsim::device::Device;
use devsim::error::DeviceErrorKind;
use devsim::protobridge::ProtoBridge;
use devsim::protobridge::REG_IDX_DEV_EN;
use devsim::protobridge::REG_IDX_FB_ADDR;
use devsim::protobridge::REG_IDX_FB_CONFIG;
use devsim::protobridge::WAIT_INFINITE_CYCLES;
use devsim::simulation::Simulation;

const MOCK_MEMORY_SIZE: usize = 0x2_0000;

enum MockState {
    AwaitingCommand,
    ReceivingPayload { addr: usize, remaining: usize },
}

/// A software model of the hardware side of the clocked byte channel: it
/// consumes at most one byte per cycle, assembles little-endian command
/// words, applies them to a flat memory and a three-register file, and
/// produces response bytes one per cycle.
struct MockChannel {
    memory: Vec<u8>,
    regs: [u32; 3],
    cmd_buf: Vec<u8>,
    state: MockState,
    output: VecDeque<u8>,
    cycles: u64,
    /// When set, the device-enable register clears itself once this many
    /// cycles have elapsed, imitating a program that runs to completion.
    auto_halt_after: Option<u64>,
}

impl MockChannel {
    fn new() -> Self {
        MockChannel {
            memory: vec![0; MOCK_MEMORY_SIZE],
            regs: [0; 3],
            cmd_buf: Vec::new(),
            state: MockState::AwaitingCommand,
            output: VecDeque::new(),
            cycles: 0,
            auto_halt_after: None,
        }
    }

    fn feed(&mut self, byte: u8) {
        match self.state {
            MockState::AwaitingCommand => {
                self.cmd_buf.push(byte);
                if self.cmd_buf.len() == 8 {
                    let mut word_bytes = [0u8; 8];
                    word_bytes.copy_from_slice(&self.cmd_buf);
                    self.cmd_buf.clear();
                    self.apply_command(u64::from_le_bytes(word_bytes));
                }
            }
            MockState::ReceivingPayload { addr, remaining } => {
                self.memory[addr] = byte;
                if remaining > 1 {
                    self.state = MockState::ReceivingPayload {
                        addr: addr + 1,
                        remaining: remaining - 1,
                    };
                } else {
                    self.state = MockState::AwaitingCommand;
                }
            }
        }
    }

    fn apply_command(&mut self, word: u64) {
        let id = (word >> 60) & 0xf;
        let addr_field = ((word >> 30) & 0x3fff_ffff) as u32;
        let size_field = (word & 0x3fff_ffff) as u32;

        if addr_field >> 12 == 0x3ffff {
            // Register operation
            let idx = ((addr_field >> 2) & 0x3ff) as usize;
            match id {
                1 => {
                    for b in self.regs[idx].to_le_bytes() {
                        self.output.push_back(b);
                    }
                }
                2 => {
                    self.regs[idx] = size_field;
                }
                _ => {}
            }
        } else {
            // Memory operation
            let addr = addr_field as usize;
            let size = size_field as usize;
            match id {
                1 => {
                    for k in 0..size {
                        self.output.push_back(self.memory[addr + k]);
                    }
                }
                2 => {
                    if size > 0 {
                        self.state = MockState::ReceivingPayload {
                            addr,
                            remaining: size,
                        };
                    }
                }
                _ => {}
            }
        }
    }
}

impl ClockedChannel for MockChannel {
    fn status(&self) -> ChannelStatus {
        ChannelStatus {
            input_full: false,
            output_empty: self.output.is_empty(),
        }
    }

    fn step(&mut self, input: Option<u8>, want_output: bool) -> Option<u8> {
        self.cycles += 1;
        if let Some(limit) = self.auto_halt_after {
            if self.cycles >= limit {
                self.regs[0] = 0;
            }
        }
        if let Some(byte) = input {
            self.feed(byte);
        }
        if want_output {
            self.output.pop_front()
        } else {
            None
        }
    }
}

/// Builds a minimal 64-bit little-endian executable image with one loadable
/// segment carrying `payload` destined for physical address `paddr`.
fn minimal_elf(paddr: u64, payload: &[u8]) -> Vec<u8> {
    let payload_offset: u64 = 64 + 56;
    let mut image = Vec::new();

    // File header
    image.extend_from_slice(&[0x7f, b'E', b'L', b'F', 2, 1, 1, 0]);
    image.extend_from_slice(&[0u8; 8]);
    image.extend_from_slice(&2u16.to_le_bytes()); // e_type: executable
    image.extend_from_slice(&0xf3u16.to_le_bytes()); // e_machine
    image.extend_from_slice(&1u32.to_le_bytes()); // e_version
    image.extend_from_slice(&0u64.to_le_bytes()); // e_entry
    image.extend_from_slice(&64u64.to_le_bytes()); // e_phoff
    image.extend_from_slice(&0u64.to_le_bytes()); // e_shoff
    image.extend_from_slice(&0u32.to_le_bytes()); // e_flags
    image.extend_from_slice(&64u16.to_le_bytes()); // e_ehsize
    image.extend_from_slice(&56u16.to_le_bytes()); // e_phentsize
    image.extend_from_slice(&1u16.to_le_bytes()); // e_phnum
    image.extend_from_slice(&0u16.to_le_bytes()); // e_shentsize
    image.extend_from_slice(&0u16.to_le_bytes()); // e_shnum
    image.extend_from_slice(&0u16.to_le_bytes()); // e_shstrndx
    assert_eq!(image.len(), 64);

    // Program header: one loadable segment
    image.extend_from_slice(&1u32.to_le_bytes()); // p_type: loadable
    image.extend_from_slice(&5u32.to_le_bytes()); // p_flags
    image.extend_from_slice(&payload_offset.to_le_bytes()); // p_offset
    image.extend_from_slice(&paddr.to_le_bytes()); // p_vaddr
    image.extend_from_slice(&paddr.to_le_bytes()); // p_paddr
    image.extend_from_slice(&(payload.len() as u64).to_le_bytes()); // p_filesz
    image.extend_from_slice(&(payload.len() as u64).to_le_bytes()); // p_memsz
    image.extend_from_slice(&0x1000u64.to_le_bytes()); // p_align
    assert_eq!(image.len(), payload_offset as usize);

    image.extend_from_slice(payload);
    image
}

#[test]
fn memory_test() {
    let memory_size = 16384;

    let mut bridge = ProtoBridge::new(MockChannel::new());

    let mut input_data = Vec::new();
    for i in 0..memory_size {
        input_data.push(i as u8);
    }

    bridge.write_bytes(0, &input_data);

    let mut output_data = vec![0; memory_size];

    assert!(bridge
        .read_bytes(0, &mut output_data, WAIT_INFINITE_CYCLES)
        .is_ok());

    for i in 0..memory_size {
        assert_eq!(input_data[i], output_data[i]);
    }
}

#[test]
fn read_with_zero_budget_times_out() {
    let mut bridge = ProtoBridge::new(MockChannel::new());

    bridge.write_bytes(0x40, &vec![1, 2, 3, 4]);

    let mut output_data = vec![0xaa; 4];
    let err = bridge.read_bytes(0x40, &mut output_data, 0).unwrap_err();
    assert_eq!(err.kind(), DeviceErrorKind::Timeout);
    // A timed-out read never yields a partially filled or wrong buffer.
    assert_eq!(output_data, vec![0xaa; 4]);
}

#[test]
fn read_with_insufficient_budget_times_out() {
    let mut bridge = ProtoBridge::new(MockChannel::new());

    bridge.write_bytes(0x40, &vec![1, 2, 3, 4]);

    let mut output_data = vec![0xaa; 4];
    // The write command alone takes eight cycles to drain; three cycles
    // cannot produce any response byte.
    let err = bridge.read_bytes(0x40, &mut output_data, 3).unwrap_err();
    assert_eq!(err.kind(), DeviceErrorKind::Timeout);
    assert_eq!(output_data, vec![0xaa; 4]);
}

#[test]
fn clocks_count_every_cycle_exactly() {
    let mut bridge = ProtoBridge::new(MockChannel::new());
    assert_eq!(bridge.clocks(), 0);

    // Nothing is queued, so every cycle is an idle cycle; a wait that times
    // out must drive exactly its budget, no more, no less.
    assert!(bridge.wait_for_output(1, 100).is_err());
    assert_eq!(bridge.clocks(), 100);

    assert!(bridge.wait_for_output(1, 23).is_err());
    assert_eq!(bridge.clocks(), 123);

    // A wait that is already satisfied drives no cycle.
    assert!(bridge.wait_for_output(0, 50).is_ok());
    assert_eq!(bridge.clocks(), 123);
}

#[test]
fn register_write_then_read_returns_value() {
    let mut bridge = ProtoBridge::new(MockChannel::new());

    bridge.write_reg(REG_IDX_FB_ADDR, 0x1234_5678 & 0x3fff_ffff);
    let value = bridge
        .read_reg(REG_IDX_FB_ADDR, WAIT_INFINITE_CYCLES)
        .unwrap();
    assert_eq!(value, 0x1234_5678 & 0x3fff_ffff);

    bridge.write_reg(REG_IDX_DEV_EN, 1);
    assert_eq!(bridge.read_reg(REG_IDX_DEV_EN, WAIT_INFINITE_CYCLES).unwrap(), 1);
}

#[test]
fn query_is_halted_tracks_enable_register() {
    let mut device = Device::new(MockChannel::new());

    // The enable register starts at zero: halted.
    assert_eq!(device.query_is_halted().unwrap(), true);

    device.enable();
    assert_eq!(device.query_is_halted().unwrap(), false);

    // Enabling twice has the same observable effect as once.
    device.enable();
    device.enable();
    assert_eq!(device.query_is_halted().unwrap(), false);

    device.disable();
    assert_eq!(device.query_is_halted().unwrap(), true);
}

#[test]
fn framebuffer_size_decodes_config_register() {
    let mut channel = MockChannel::new();
    // Width exponent field = 3, height exponent field = 4.
    channel.regs[2] = 3 | (4 << 3);
    let mut device = Device::new(channel);

    let (width, height) = device.query_framebuffer_size().unwrap();
    assert_eq!((width, height), (16, 32));
}

#[test]
fn dump_framebuffer_rejects_small_buffer_untouched() {
    let mut channel = MockChannel::new();
    // Smallest framebuffer: 2 x 2 pixels, 16 bytes.
    channel.regs[2] = 0;
    channel.regs[1] = 0x100;
    let mut device = Device::new(channel);

    let mut dst = vec![0x55u8; 15];
    let err = device.dump_framebuffer(&mut dst).unwrap_err();
    assert_eq!(err.kind(), DeviceErrorKind::BufferTooSmall);
    assert_eq!(dst, vec![0x55u8; 15]);
}

#[test]
fn dump_framebuffer_reads_framebuffer_region() {
    let mut channel = MockChannel::new();
    channel.regs[2] = 0; // 2 x 2 pixels: 16 bytes
    channel.regs[1] = 0x100;
    for k in 0..16 {
        channel.memory[0x100 + k] = 0xc0 + k as u8;
    }
    let mut device = Device::new(channel);

    let mut dst = vec![0u8; 16];
    device.dump_framebuffer(&mut dst).unwrap();
    for k in 0..16 {
        assert_eq!(dst[k], 0xc0 + k as u8);
    }
}

#[test]
fn load_elf_uploads_loadable_segment() {
    let payload = [0xde, 0xad, 0xbe, 0xef];
    let image = minimal_elf(0x100, &payload);

    let mut channel = MockChannel::new();
    channel.regs[2] = 0; // 2 x 2 pixels: 16 bytes
    channel.regs[1] = 0x100;
    let mut device = Device::new(channel);

    device.load_elf(&image).unwrap();

    // The upload is queued, not yet flushed; dumping the framebuffer region
    // that covers the segment drives the queue into the device and reads the
    // memory back.
    let mut dst = vec![0u8; 16];
    device.dump_framebuffer(&mut dst).unwrap();
    assert_eq!(&dst[0..4], &payload);
    assert_eq!(&dst[4..16], &[0u8; 12]);
}

#[test]
fn load_elf_rejects_malformed_image() {
    let mut device = Device::new(MockChannel::new());

    let err = device.load_elf(&vec![0u8; 16]).unwrap_err();
    assert_eq!(err.kind(), DeviceErrorKind::LoadError);
}

#[test]
fn load_elf_rejects_segment_outside_image() {
    let payload = [1, 2, 3, 4];
    let mut image = minimal_elf(0x100, &payload);
    // Corrupt p_filesz (offset 96 in the file) to point past the image end.
    image[96..104].copy_from_slice(&0x10000u64.to_le_bytes());

    let mut device = Device::new(MockChannel::new());
    let err = device.load_elf(&image).unwrap_err();
    assert_eq!(err.kind(), DeviceErrorKind::LoadError);
}

#[test]
fn simulation_pause_resume_toggle() {
    let mut sim = Simulation::new(MockChannel::new()).unwrap();
    assert!(sim.is_running());

    sim.pause();
    assert!(!sim.is_running());
    sim.pause();
    assert!(!sim.is_running());

    sim.resume();
    assert!(sim.is_running());

    sim.toggle();
    assert!(!sim.is_running());
    sim.toggle();
    assert!(sim.is_running());
}

#[test]
fn simulation_reports_framebuffer_geometry() {
    let mut channel = MockChannel::new();
    channel.regs[2] = 3 | (4 << 3);
    let sim = Simulation::new(channel).unwrap();

    assert_eq!(sim.framebuffer_width(), 16);
    assert_eq!(sim.framebuffer_height(), 32);
    assert_eq!(sim.framebuffer_size(), 16 * 32 * 4);
}

#[test]
fn simulation_update_runs_device_and_dumps() {
    let payload = [7, 8, 9, 10];
    let image = minimal_elf(0x100, &payload);

    let mut setup_channel = MockChannel::new();
    setup_channel.regs[2] = 0;
    let mut sim = Simulation::new(setup_channel).unwrap();

    let mut run_channel = MockChannel::new();
    run_channel.regs[2] = 0; // 2 x 2 pixels: 16 bytes
    run_channel.regs[1] = 0x100;
    // The "program" finishes quickly: the enable register clears itself.
    run_channel.auto_halt_after = Some(200);
    sim.load_elf(image, run_channel).unwrap();

    let mut fb_data = vec![0u8; 16];
    sim.update(&mut fb_data, 16).unwrap();
    assert_eq!(&fb_data[0..4], &payload);
}

#[test]
fn wait_for_output_reports_queue_length() {
    let mut channel = MockChannel::new();
    for k in 0..8 {
        channel.memory[0x20 + k] = 0x10 + k as u8;
    }
    let mut bridge = ProtoBridge::new(channel);

    // Ask the device for eight bytes but wait only until four are pending:
    // output arrives one byte per cycle, so the wait stops at exactly four.
    let mut read_buf = vec![0u8; 8];
    bridge.read_bytes(0x20, &mut read_buf, 0).unwrap_err();
    let pending = bridge.wait_for_output(4, WAIT_INFINITE_CYCLES).unwrap();
    assert_eq!(pending, 4);

    // A wait that is already satisfied reports the full queue length.
    let pending = bridge.wait_for_output(2, 0).unwrap();
    assert_eq!(pending, 4);

    // read_exact drains the waited-for bytes in FIFO order.
    let mut first_half = vec![0u8; 4];
    bridge.read_exact(&mut first_half);
    assert_eq!(first_half, vec![0x10, 0x11, 0x12, 0x13]);

    let pending = bridge.wait_for_output(4, WAIT_INFINITE_CYCLES).unwrap();
    assert_eq!(pending, 4);
    let mut second_half = vec![0u8; 4];
    bridge.read_exact(&mut second_half);
    assert_eq!(second_half, vec![0x14, 0x15, 0x16, 0x17]);
}

#[test]
fn dump_framebuffer_reads_exactly_the_region() {
    let mut channel = MockChannel::new();
    channel.regs[2] = 0; // 2 x 2 pixels: 16 bytes
    channel.regs[1] = 0x100;
    for k in 0..16 {
        channel.memory[0x100 + k] = 0xc0 + k as u8;
    }
    // Bytes just past the region differ, so an over-read would show.
    for k in 16..32 {
        channel.memory[0x100 + k] = 0xee;
    }
    let mut device = Device::new(channel);

    // A buffer larger than the region receives exactly the region at its
    // front; the rest of the buffer keeps the caller's contents.
    let mut dst = vec![0x55u8; 32];
    device.dump_framebuffer(&mut dst).unwrap();
    for k in 0..16 {
        assert_eq!(dst[k], 0xc0 + k as u8);
    }
    assert_eq!(&dst[16..32], &[0x55u8; 16]);
}
