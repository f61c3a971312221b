use vstd::prelude::*;

use crate::channel::ClockedChannel;
use crate::device::spec_fb_height;
use crate::device::spec_fb_width;
use crate::device::Device;
use crate::error::DeviceError;
use crate::device::dump_ok_witness;
use crate::loader::elf_program_headers;
use crate::loader::headers_ok;
use crate::loader::load_stream;
use crate::error::DeviceErrorKind;
use crate::protobridge::WAIT_INFINITE_CYCLES;

verus! {

/// Whether the simulation performs device work when updated.
#[derive(Clone, Copy, Debug, PartialEq, Eq, Structural)]
pub enum SimulationState {
    Running,
    Paused,
}

/// Simulation control object: owns an optional device and the executable
/// image loaded into it, plus a pause/resume state, and simplifies driving
/// the device until it halts. Resetting discards and recreates the device
/// over a fresh channel; there is no lighter register-level reset.
pub struct Simulation<C: ClockedChannel> {
    device: Option<Device<C>>,
    elf_image: Option<Vec<u8>>,
    state: SimulationState,
    fb_width: u32,
    fb_height: u32,
}

impl<C: ClockedChannel> Simulation<C> {
    /// The device currently owned, if an image has been loaded.
    pub closed spec fn spec_device(&self) -> Option<Device<C>> {
        self.device
    }

    /// The executable image to load on reset, if one was given.
    pub closed spec fn spec_image(&self) -> Option<Seq<u8>> {
        match self.elf_image {
            Some(img) => Some(img@),
            None => None,
        }
    }

    /// Whether the simulation is running or paused.
    pub closed spec fn spec_state(&self) -> SimulationState {
        self.state
    }

    /// The framebuffer width queried at construction.
    pub closed spec fn spec_fb_width(&self) -> u32 {
        self.fb_width
    }

    /// The framebuffer height queried at construction.
    pub closed spec fn spec_fb_height(&self) -> u32 {
        self.fb_height
    }

    /// Well-formedness: the stored framebuffer dimensions are ones the
    /// configuration register can express, and the owned device, if any, is
    /// itself well-formed.
    pub closed spec fn wf(&self) -> bool {
        &&& 2 <= self.fb_width <= 256
        &&& 2 <= self.fb_height <= 256
        &&& match self.device {
            Some(d) => d.wf(),
            None => true,
        }
    }

    /// Creates a simulation: queries the framebuffer size once through a
    /// throwaway device over `channel`, and starts with no image loaded.
    pub fn new(channel: C) -> (r: Result<Self, DeviceError>)
        ensures
            match r {
                Ok(sim) => {
                    &&& sim.wf()
                    &&& sim.spec_device() is None
                    &&& sim.spec_image() is None
                    &&& sim.spec_state() == SimulationState::Running
                    &&& exists|cfg: u32|
                        sim.spec_fb_width() == spec_fb_width(cfg) && sim.spec_fb_height()
                            == spec_fb_height(cfg)
                },
                Err(e) => e.spec_kind() == DeviceErrorKind::Timeout,
            },
    {
        // Create a device so we can query the framebuffer size
        let mut device = Device::new(channel);
        match device.query_framebuffer_size() {
            Ok(dims) => Ok(
                Simulation {
                    device: None,
                    elf_image: None,
                    state: SimulationState::Running,
                    fb_width: dims.0,
                    fb_height: dims.1,
                },
            ),
            Err(err) => Err(err),
        }
    }

    /// Loads an executable image into the simulator: stores the image and
    /// resets, recreating the device over `channel`.
    pub fn load_elf(&mut self, image: Vec<u8>, channel: C) -> (r: Result<(), DeviceError>)
        requires
            old(self).wf(),
        ensures
            final(self).wf(),
            final(self).spec_image() == Some(image@),
            final(self).spec_state() == old(self).spec_state(),
            final(self).spec_fb_width() == old(self).spec_fb_width(),
            final(self).spec_fb_height() == old(self).spec_fb_height(),
            match r {
                Ok(()) => final(self).spec_device() matches Some(d) && d.wf() && d.spec_clocks()
                    == 0 && d.produced() == Seq::<u8>::empty() && d.out_queue()
                    == Seq::<u8>::empty() && (elf_program_headers(image@) matches Some(hs)
                    && headers_ok(hs, image@.len() as int) && d.in_queue() == load_stream(
                    hs,
                    image@,
                )),
                Err(e) => {
                    &&& e.spec_kind() == DeviceErrorKind::LoadError
                    &&& final(self).spec_device() == old(self).spec_device()
                    &&& (elf_program_headers(image@) is None || (elf_program_headers(image@)
                        matches Some(hs) && !headers_ok(hs, image@.len() as int)))
                },
            },
    {
        self.elf_image = Some(image);
        self.reset(channel)
    }

    /// Resets the simulator: if an image is stored, recreates the device
    /// over `channel` and reloads the image into it. A simulator with no
    /// stored image is left untouched.
    pub fn reset(&mut self, channel: C) -> (r: Result<(), DeviceError>)
        requires
            old(self).wf(),
        ensures
            final(self).wf(),
            final(self).spec_image() == old(self).spec_image(),
            final(self).spec_state() == old(self).spec_state(),
            final(self).spec_fb_width() == old(self).spec_fb_width(),
            final(self).spec_fb_height() == old(self).spec_fb_height(),
            old(self).spec_image() is None ==> r is Ok && final(self).spec_device() == old(
                self,
            ).spec_device(),
            match r {
                Ok(()) => old(self).spec_image() matches Some(img)
                    ==> (final(self).spec_device() matches Some(d) && d.wf() && d.spec_clocks()
                        == 0 && d.produced() == Seq::<u8>::empty() && d.out_queue()
                        == Seq::<u8>::empty() && (elf_program_headers(img) matches Some(hs)
                        && headers_ok(hs, img.len() as int) && d.in_queue() == load_stream(
                        hs,
                        img,
                    ))),
                Err(e) => {
                    &&& e.spec_kind() == DeviceErrorKind::LoadError
                    &&& final(self).spec_device() == old(self).spec_device()
                    &&& old(self).spec_image() matches Some(img) && (elf_program_headers(img)
                        is None || (elf_program_headers(img) matches Some(hs) && !headers_ok(
                        hs,
                        img.len() as int,
                    )))
                },
            },
    {
        match &self.elf_image {
            Some(image) => {
                let mut device = Device::new(channel);
                match device.load_elf(image) {
                    Ok(()) => {
                        proof {
                            let hs = elf_program_headers(image@).unwrap();
                            assert(Seq::<u8>::empty() + load_stream(hs, image@) =~= load_stream(
                                hs,
                                image@,
                            ));
                        }
                        self.device = Some(device);
                        Ok(())
                    },
                    Err(err) => Err(err),
                }
            },
            None => Ok(()),
        }
    }

    /// Returns the width of the framebuffer image inside the device.
    pub fn framebuffer_width(&self) -> (r: u32)
        ensures
            r == self.spec_fb_width(),
    {
        self.fb_width
    }

    /// Returns the height of the framebuffer image inside the device.
    pub fn framebuffer_height(&self) -> (r: u32)
        ensures
            r == self.spec_fb_height(),
    {
        self.fb_height
    }

    /// Returns the size in bytes of the framebuffer image inside the
    /// device, four bytes per pixel.
    pub fn framebuffer_size(&self) -> (r: usize)
        requires
            self.wf(),
        ensures
            r == self.spec_fb_width() * self.spec_fb_height() * 4,
    {
        assert(self.fb_width * self.fb_height * 4 <= 262144) by (nonlinear_arith)
            requires
                2 <= self.fb_width <= 256 && 2 <= self.fb_height <= 256,
        ;
        (self.fb_width * self.fb_height * 4) as usize
    }

    /// Pauses the simulator so that future update calls don't trigger any
    /// device work.
    pub fn pause(&mut self)
        requires
            old(self).wf(),
        ensures
            final(self).wf(),
            final(self).spec_state() == SimulationState::Paused,
            final(self).spec_device() == old(self).spec_device(),
            final(self).spec_image() == old(self).spec_image(),
            final(self).spec_fb_width() == old(self).spec_fb_width(),
            final(self).spec_fb_height() == old(self).spec_fb_height(),
    {
        if self.state == SimulationState::Running {
            self.state = SimulationState::Paused;
        }
    }

    /// Resumes the simulator so that future update calls trigger simulation
    /// work.
    pub fn resume(&mut self)
        requires
            old(self).wf(),
        ensures
            final(self).wf(),
            final(self).spec_state() == SimulationState::Running,
            final(self).spec_device() == old(self).spec_device(),
            final(self).spec_image() == old(self).spec_image(),
            final(self).spec_fb_width() == old(self).spec_fb_width(),
            final(self).spec_fb_height() == old(self).spec_fb_height(),
    {
        if self.state == SimulationState::Paused {
            self.state = SimulationState::Running;
        }
    }

    /// If the simulator is running, pause it. Otherwise, resume it.
    pub fn toggle(&mut self)
        requires
            old(self).wf(),
        ensures
            final(self).wf(),
            final(self).spec_state() == (if old(self).spec_state() == SimulationState::Running {
                SimulationState::Paused
            } else {
                SimulationState::Running
            }),
            final(self).spec_device() == old(self).spec_device(),
            final(self).spec_image() == old(self).spec_image(),
            final(self).spec_fb_width() == old(self).spec_fb_width(),
            final(self).spec_fb_height() == old(self).spec_fb_height(),
    {
        if self.is_running() {
            self.pause();
        } else {
            self.resume();
        }
    }

    /// Returns true if the simulator is running.
    pub fn is_running(&self) -> (r: bool)
        ensures
            r == (self.spec_state() == SimulationState::Running),
    {
        self.state == SimulationState::Running
    }

    /// Updates the simulation if a device is present: while running, enables
    /// the device and polls it until it reports halted, giving up after
    /// `max_polls` queries (the device may never halt, so the caller bounds
    /// the polling; a poll that times out also ends the polling). The
    /// framebuffer is then dumped into `fb_data` regardless of the current
    /// simulation state; `fb_data` should be large enough to hold it.
    pub fn update(&mut self, fb_data: &mut Vec<u8>, max_polls: usize) -> (r: Result<
        (),
        DeviceError,
    >)
        requires
            old(self).wf(),
            old(self).spec_device() matches Some(d) ==> d.spec_clocks() + (max_polls + 3) * (
            WAIT_INFINITE_CYCLES as int) <= u64::MAX,
        ensures
            final(self).wf(),
            final(fb_data)@.len() == old(fb_data)@.len(),
            final(self).spec_image() == old(self).spec_image(),
            final(self).spec_state() == old(self).spec_state(),
            final(self).spec_fb_width() == old(self).spec_fb_width(),
            final(self).spec_fb_height() == old(self).spec_fb_height(),
            (final(self).spec_device() is Some) == (old(self).spec_device() is Some),
            old(self).spec_device() is None ==> r is Ok && final(fb_data)@ == old(fb_data)@,
            match r {
                Ok(()) => old(self).spec_device() matches Some(d0)
                    ==> (final(self).spec_device() matches Some(d1) && d1.wf() && exists|
                    pre_in: Seq<u8>,
                    pos0: int,
                    k: int,
                |
                    dump_ok_witness(
                        pre_in,
                        d1.produced(),
                        pos0,
                        old(fb_data)@,
                        d1.in_queue(),
                        d1.read_pos(),
                        final(fb_data)@,
                        k,
                    ) && d0.read_pos() <= pos0),
                Err(e) => {
                    &&& (e.spec_kind() == DeviceErrorKind::Timeout || e.spec_kind()
                        == DeviceErrorKind::BufferTooSmall)
                    &&& final(fb_data)@ == old(fb_data)@
                },
            },
    {
        match self.device.take() {
            Some(mut device) => {
                let ghost start_clocks = device.spec_clocks();
                let ghost start_pos = device.read_pos();

                // We only want to update the actual device simulation if the
                // simulation is currently running
                if self.state == SimulationState::Running {
                    device.enable();
                    let mut polls: usize = 0;
                    while polls < max_polls
                        invariant
                            polls <= max_polls,
                            device.wf(),
                            device.read_pos() >= start_pos,
                            start_clocks + (max_polls + 3) * (WAIT_INFINITE_CYCLES as int)
                                <= u64::MAX,
                            device.spec_clocks() <= start_clocks + polls * (
                            WAIT_INFINITE_CYCLES as int),
                        decreases max_polls - polls,
                    {
                        let halted = match device.query_is_halted() {
                            Ok(is_halted) => is_halted,
                            Err(_) => true,
                        };
                        polls = polls + 1;
                        if halted {
                            break;
                        }
                    }
                }
                // The framebuffer data from the device needs to be dumped
                // regardless of the current simulation state
                let ghost pre = device;
                let result = device.dump_framebuffer(fb_data);
                proof {
                    if result is Ok {
                        let k = choose|k: int|
                            dump_ok_witness(
                                pre.in_queue(),
                                device.produced(),
                                pre.read_pos(),
                                old(fb_data)@,
                                device.in_queue(),
                                device.read_pos(),
                                fb_data@,
                                k,
                            );
                        assert(dump_ok_witness(
                            pre.in_queue(),
                            device.produced(),
                            pre.read_pos(),
                            old(fb_data)@,
                            device.in_queue(),
                            device.read_pos(),
                            fb_data@,
                            k,
                        ));
                    }
                }
                self.device = Some(device);
                result
            },
            None => Ok(()),
        }
    }
}

} // verus!
