use vstd::prelude::*;

verus! {

/// Flow-control flags reported by a clocked byte channel, read without side
/// effects: whether the channel can accept an input byte this cycle and
/// whether it has an output byte ready.
pub struct ChannelStatus {
    pub input_full: bool,
    pub output_empty: bool,
}

/// One cycle-stepped byte channel into a hardware model.
///
/// Exactly one byte may enter and one byte may leave per clock cycle, gated
/// by the full/empty flags of `status`. The model behind the channel is
/// external: nothing is assumed about which bytes it produces or when.
pub trait ClockedChannel: Sized {
    /// Reads the channel's flow-control flags without advancing the clock.
    fn status(&self) -> ChannelStatus;

    /// Advances the model by exactly one cycle. If `input` is present the
    /// channel consumes that byte this cycle; if `want_output` is set and the
    /// channel has a byte ready, it is returned. Both may be absent: pure
    /// idle clocking.
    fn step(&mut self, input: Option<u8>, want_output: bool) -> Option<u8>;
}

} // verus!
