use std::sync::mpsc::Sender;
use vstd::prelude::*;

use crate::command::{AudioCommand, Frequency};
use crate::voice_id::{successor, IdAllocator};

verus! {

#[verifier::external_type_specification]
#[verifier::external_body]
#[verifier::reject_recursive_types(T)]
pub struct ExSender<T>(Sender<T>);

/// How long a note started through `Note_on` lasts at most, in milliseconds.
pub const LEGACY_NOTE_MS: u32 = 10000;

/// Relies on std's `Sender::send`: it queues `cmd` for the receiving end without
/// blocking. Its only failure, a receiver that is gone, is ignored: submitting is
/// fire-and-forget.
#[verifier::external_body]
fn submit(sender: &Sender<AudioCommand>, cmd: AudioCommand) {
    let _ = sender.send(cmd);
}

/// The caller side of the engine: it mints voice identifiers and hands every
/// command to the voice processor through a channel.
pub struct Engine {
    sender: Sender<AudioCommand>,
    ids: IdAllocator,
    sent: Ghost<Seq<AudioCommand>>,
}

impl Engine {
    /// The identifier that the next note receives.
    pub closed spec fn next_id(&self) -> u32 {
        self.ids.next_id()
    }

    /// Every command handed to the channel so far, oldest first.
    pub closed spec fn sent(&self) -> Seq<AudioCommand> {
        self.sent@
    }

    /// An engine that submits to `sender`; its first note gets identifier zero.
    pub fn new(sender: Sender<AudioCommand>) -> (r: Engine)
        ensures
            r.next_id() == 0,
            r.sent() == Seq::<AudioCommand>::empty(),
    {
        Engine { sender, ids: IdAllocator::new(), sent: Ghost(Seq::empty()) }
    }

    fn send(&mut self, cmd: AudioCommand)
        ensures
            final(self).next_id() == old(self).next_id(),
            final(self).sent() == old(self).sent().push(cmd),
    {
        submit(&self.sender, cmd);
        self.sent = Ghost(self.sent@.push(cmd));
    }
}

/// Queues a note of `frequency` lasting `duration_ms` and returns its new
/// identifier, with which it can be stopped early.
pub fn play_note(engine: &mut Engine, frequency: Frequency, duration_ms: u32) -> (r: u32)
    ensures
        r == old(engine).next_id(),
        final(engine).next_id() == successor(r),
        final(engine).sent() == old(engine).sent().push(
            (AudioCommand::PlayNote { id: r, frequency, duration_ms }),
        ),
{
    let id = engine.ids.allocate();
    engine.send(AudioCommand::PlayNote { id, frequency, duration_ms });
    id
}

/// Queues a note as `play_note` does, without handing back its identifier; the
/// caller then waits `duration_ms` for it.
pub fn play_note_sync(engine: &mut Engine, frequency: Frequency, duration_ms: u32)
    ensures
        final(engine).next_id() == successor(old(engine).next_id()),
        final(engine).sent() == old(engine).sent().push(
            (AudioCommand::PlayNote { id: old(engine).next_id(), frequency, duration_ms }),
        ),
{
    let _ = play_note(engine, frequency, duration_ms);
}

/// Queues a request to silence the voice `id`.
pub fn stop_note(engine: &mut Engine, id: u32)
    ensures
        final(engine).next_id() == old(engine).next_id(),
        final(engine).sent() == old(engine).sent().push((AudioCommand::StopNote { id })),
{
    engine.send(AudioCommand::StopNote { id });
}

/// Queues a request to silence every voice.
pub fn stop_all(engine: &mut Engine)
    ensures
        final(engine).next_id() == old(engine).next_id(),
        final(engine).sent() == old(engine).sent().push(AudioCommand::StopAll),
{
    engine.send(AudioCommand::StopAll);
}

/// Starts a note of `frequency` that lasts at most `LEGACY_NOTE_MS`.
#[allow(non_snake_case)]
pub fn Note_on(engine: &mut Engine, frequency: Frequency)
    ensures
        final(engine).next_id() == successor(old(engine).next_id()),
        final(engine).sent() == old(engine).sent().push(
            (AudioCommand::PlayNote {
                id: old(engine).next_id(),
                frequency,
                duration_ms: LEGACY_NOTE_MS,
            }),
        ),
{
    let _ = play_note(engine, frequency, LEGACY_NOTE_MS);
}

/// Silences every voice, as `stop_all` does.
#[allow(non_snake_case)]
pub fn Note_off(engine: &mut Engine)
    ensures
        final(engine).next_id() == old(engine).next_id(),
        final(engine).sent() == old(engine).sent().push(AudioCommand::StopAll),
{
    stop_all(engine);
}

} // verus!
