use vstd::prelude::*;

verus! {

/// A tone frequency in hertz, held as the bit pattern of a 32-bit IEEE-754 number.
///
/// The library only carries the frequency from the caller to the synthesiser, so it
/// keeps the exact bits and never interprets them.
#[derive(Clone, Copy, Debug, PartialEq, Eq, Structural)]
pub struct Frequency {
    pub bits: u32,
}

impl Frequency {
    /// The frequency whose IEEE-754 bit pattern is `bits`.
    pub fn from_bits(bits: u32) -> (r: Frequency)
        ensures
            r.bits == bits,
    {
        Frequency { bits }
    }

    /// The IEEE-754 bit pattern of this frequency.
    pub fn to_bits(&self) -> (r: u32)
        ensures
            r == self.bits,
    {
        self.bits
    }
}

/// A request from a caller to the voice processor.
#[derive(Clone, Copy, Debug, PartialEq, Eq, Structural)]
pub enum AudioCommand {
    /// Sound a tone under `id`, replacing any voice that already holds that id.
    PlayNote { id: u32, frequency: Frequency, duration_ms: u32 },
    /// Silence the voice held under `id`, if there is one.
    StopNote { id: u32 },
    /// Silence every voice.
    StopAll,
}

/// A tone that the processor asks the synthesiser to start under `id`.
#[derive(Clone, Copy, Debug, PartialEq, Eq, Structural)]
pub struct ToneRequest {
    pub id: u32,
    pub frequency: Frequency,
    pub duration_ms: u32,
}

/// The tone that a command asks to start: only `PlayNote` starts one.
pub open spec fn tone_of(cmd: AudioCommand) -> Option<ToneRequest> {
    match cmd {
        AudioCommand::PlayNote { id, frequency, duration_ms } => Some(
            ToneRequest { id, frequency, duration_ms },
        ),
        _ => None,
    }
}

} // verus!
