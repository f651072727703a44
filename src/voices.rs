use std::collections::HashMap;
use vstd::prelude::*;

use crate::command::{tone_of, AudioCommand, Frequency, ToneRequest};

verus! {

broadcast use vstd::std_specs::hash::group_hash_axioms;

/// `order` lists each identifier of `voices` exactly once.
pub open spec fn enumerates<H>(order: Seq<u32>, voices: Map<u32, H>) -> bool {
    &&& order.no_duplicates()
    &&& forall|id: u32| order.contains(id) <==> voices.contains_key(id)
}

/// The voices left once `cmd` has been applied to `voices`.
pub open spec fn voices_after<H>(voices: Map<u32, H>, cmd: AudioCommand) -> Map<u32, H> {
    match cmd {
        AudioCommand::PlayNote { id, .. } => voices.remove(id),
        AudioCommand::StopNote { id } => voices.remove(id),
        AudioCommand::StopAll => Map::empty(),
    }
}

/// The voice held under `id`, as a sequence of zero or one voices.
pub open spec fn held<H>(voices: Map<u32, H>, id: u32) -> Seq<H> {
    if voices.contains_key(id) {
        seq![voices[id]]
    } else {
        Seq::empty()
    }
}

/// The voices that applying `cmd` to `voices` silences, where `order` enumerates
/// `voices`: a new note on an occupied id evicts the voice there, whatever its state.
pub open spec fn silenced<H>(order: Seq<u32>, voices: Map<u32, H>, cmd: AudioCommand) -> Seq<H> {
    match cmd {
        AudioCommand::PlayNote { id, .. } => held(voices, id),
        AudioCommand::StopNote { id } => held(voices, id),
        AudioCommand::StopAll => order.map_values(|id: u32| voices[id]),
    }
}

/// A new note under an identifier that already sounds replaces the voice there:
/// that earlier voice is silenced, the table then holds the new voice alone under
/// the identifier, and stopping the identifier silences the new voice only and
/// leaves every other voice as it was.
pub proof fn lemma_note_supersedes<H>(
    order: Seq<u32>,
    voices: Map<u32, H>,
    id: u32,
    frequency: Frequency,
    duration_ms: u32,
    second: H,
)
    requires
        voices.contains_key(id),
    ensures
        ({
            let play = AudioCommand::PlayNote { id, frequency, duration_ms };
            let stop = AudioCommand::StopNote { id };
            let replaced = voices_after(voices, play).insert(id, second);
            &&& silenced(order, voices, play) == seq![voices[id]]
            &&& replaced == voices.insert(id, second)
            &&& forall|o: Seq<u32>| silenced(o, replaced, stop) == seq![second]
            &&& voices_after(replaced, stop) == voices.remove(id)
        }),
{
    let play = AudioCommand::PlayNote { id, frequency, duration_ms };
    let stop = AudioCommand::StopNote { id };
    let replaced = voices_after(voices, play).insert(id, second);
    assert(replaced =~= voices.insert(id, second));
    assert(voices_after(replaced, stop) =~= voices.remove(id));
}

/// Stopping an identifier that the table does not hold silences nothing and
/// leaves the table as it was.
pub proof fn lemma_stop_unheld_is_noop<H>(order: Seq<u32>, voices: Map<u32, H>, id: u32)
    requires
        !voices.contains_key(id),
    ensures
        silenced(order, voices, AudioCommand::StopNote { id }) == Seq::<H>::empty(),
        voices_after(voices, AudioCommand::StopNote { id }) == voices,
{
    assert(voices.remove(id) =~= voices);
}

/// A voice reclaimed because it finished is no longer held, so stopping its
/// identifier afterwards silences nothing and changes nothing.
pub proof fn lemma_stop_after_reclaim<H>(
    order: Seq<u32>,
    voices: Map<u32, H>,
    finished: Seq<u32>,
    id: u32,
)
    requires
        finished.contains(id),
    ensures
        ({
            let left = voices.remove_keys(finished.to_set());
            &&& silenced(order, left, AudioCommand::StopNote { id }) == Seq::<H>::empty()
            &&& voices_after(left, AudioCommand::StopNote { id }) == left
        }),
{
    let left = voices.remove_keys(finished.to_set());
    assert(finished.to_set().contains(id));
    lemma_stop_unheld_is_noop(order, left, id);
}

/// Stopping one identifier leaves the voice under every other identifier as it was.
pub proof fn lemma_stop_note_spares_others<H>(voices: Map<u32, H>, id: u32, other: u32)
    requires
        other != id,
    ensures
        voices_after(voices, AudioCommand::StopNote { id }).contains_key(other)
            == voices.contains_key(other),
        voices.contains_key(other) ==> voices_after(voices, AudioCommand::StopNote { id })[other]
            == voices[other],
{
}

/// Once every voice is stopped, a further `StopAll` or any `StopNote` silences
/// nothing and leaves the table empty.
pub proof fn lemma_stop_all_idempotent<H>(
    voices: Map<u32, H>,
    order: Seq<u32>,
    next: AudioCommand,
)
    requires
        next is StopAll || next is StopNote,
        enumerates(order, voices_after(voices, AudioCommand::StopAll)),
    ensures
        voices_after(voices, AudioCommand::StopAll) == Map::<u32, H>::empty(),
        voices_after(voices_after(voices, AudioCommand::StopAll), next) == Map::<u32, H>::empty(),
        silenced(order, voices_after(voices, AudioCommand::StopAll), next) == Seq::<H>::empty(),
{
    let empty = Map::<u32, H>::empty();
    if order.len() > 0 {
        assert(order.contains(order[0]));
    }
    assert(voices_after(empty, next) =~= empty);
    assert(silenced(order, empty, next) =~= Seq::<H>::empty());
}

/// What the processor does for one command: the voices to silence now, and the
/// tone to start afterwards, if any.
pub struct Reaction<H> {
    pub silence: Vec<H>,
    pub start: Option<ToneRequest>,
}

/// The live voices of the processor, keyed by voice identifier.
///
/// `H` is whatever handle controls one playing tone. At most one voice is held
/// per identifier.
pub struct VoiceTable<H> {
    voices: HashMap<u32, H>,
    order: Vec<u32>,
}

impl<H> View for VoiceTable<H> {
    type V = Map<u32, H>;

    closed spec fn view(&self) -> Map<u32, H> {
        self.voices@
    }
}

impl<H> VoiceTable<H> {
    /// The identifiers of the table, each once, in an order of the table's choosing.
    pub closed spec fn order(&self) -> Seq<u32> {
        self.order@
    }

    /// The enumeration order lists exactly the identifiers held, each once.
    pub open spec fn wf(&self) -> bool {
        enumerates(self.order(), self@)
    }

    /// An empty table.
    pub fn new() -> (r: VoiceTable<H>)
        ensures
            r.wf(),
            r@ == Map::<u32, H>::empty(),
    {
        let r = VoiceTable { voices: HashMap::new(), order: Vec::new() };
        assert(r.voices@ =~= Map::<u32, H>::empty());
        r
    }

    /// The number of voices held.
    pub fn len(&self) -> (r: usize)
        ensures
            r == self@.len(),
    {
        self.voices.len()
    }

    /// Whether a voice is held under `id`.
    pub fn contains(&self, id: u32) -> (r: bool)
        ensures
            r == self@.contains_key(id),
    {
        self.voices.contains_key(&id)
    }

    /// The voice held under `id`.
    pub fn get(&self, id: u32) -> (r: Option<&H>)
        ensures
            r == (if self@.contains_key(id) { Some(&self@[id]) } else { None::<&H> }),
    {
        self.voices.get(&id)
    }

    /// The identifiers held, each once.
    pub fn ids(&self) -> (r: Vec<u32>)
        requires
            self.wf(),
        ensures
            r@ == self.order(),
            enumerates(r@, self@),
    {
        let mut r: Vec<u32> = Vec::new();
        let mut i: usize = 0;
        while i < self.order.len()
            invariant
                i <= self.order@.len(),
                r@ == self.order@.subrange(0, i as int),
            decreases self.order@.len() - i,
        {
            r.push(self.order[i]);
            i += 1;
            assert(r@ =~= self.order@.subrange(0, i as int));
        }
        assert(r@ =~= self.order@);
        r
    }

    /// Drops `id` from the enumeration order.
    fn forget(&mut self, id: u32)
        requires
            old(self).order@.no_duplicates(),
            old(self).order@.contains(id),
        ensures
            final(self).voices == old(self).voices,
            final(self).order@.no_duplicates(),
            forall|k: u32| final(self).order@.contains(k) <==> (old(self).order@.contains(k) && k != id),
    {
        let ghost before = self.order@;
        let mut i: usize = 0;
        while i < self.order.len()
            invariant
                self.order@ == before,
                before == old(self).order@,
                before.no_duplicates(),
                self.voices == old(self).voices,
                before.contains(id),
                i <= before.len(),
                forall|j: int| 0 <= j < i ==> before[j] != id,
            decreases before.len() - i,
        {
            if self.order[i] == id {
                self.order.remove(i);
                let ghost after = self.order@;
                assert(after =~= before.remove(i as int));
                assert(forall|j: int| 0 <= j < i ==> after[j] == before[j]);
                assert(forall|j: int| i <= j < after.len() ==> after[j] == before[j + 1]);
                assert forall|k: u32| after.contains(k) <==> (before.contains(k) && k != id) by {
                    if before.contains(k) && k != id {
                        let j = choose|j: int| 0 <= j < before.len() && before[j] == k;
                        if j < i {
                            assert(after[j] == k);
                        } else {
                            assert(after[j - 1] == k);
                        }
                    }
                    if after.contains(k) {
                        let j = choose|j: int| 0 <= j < after.len() && after[j] == k;
                        if j < i {
                            assert(before[j] == k);
                        } else {
                            assert(before[j + 1] == k);
                        }
                    }
                }
                return;
            }
            i += 1;
        }
    }

    /// Removes the voice held under `id` and hands it back.
    pub fn take(&mut self, id: u32) -> (r: Option<H>)
        requires
            old(self).wf(),
        ensures
            final(self).wf(),
            final(self)@ == old(self)@.remove(id),
            r == (if old(self)@.contains_key(id) { Some(old(self)@[id]) } else { None::<H> }),
    {
        let r = self.voices.remove(&id);
        if r.is_some() {
            self.forget(id);
        }
        r
    }

    /// Records `voice` under `id` and hands back the voice it replaces, if any.
    pub fn insert(&mut self, id: u32, voice: H) -> (r: Option<H>)
        requires
            old(self).wf(),
        ensures
            final(self).wf(),
            final(self)@ == old(self)@.insert(id, voice),
            r == (if old(self)@.contains_key(id) { Some(old(self)@[id]) } else { None::<H> }),
    {
        let r = self.voices.insert(id, voice);
        if r.is_none() {
            let ghost before = self.order@;
            self.order.push(id);
            assert(!before.contains(id));
            assert(self.order@ =~= before.push(id));
            assert(self.order@.no_duplicates()) by {
                assert forall|a: int, b: int|
                    0 <= a < self.order@.len() && 0 <= b < self.order@.len() && a != b
                    implies self.order@[a] != self.order@[b] by {
                    if a == before.len() {
                        assert(before.contains(self.order@[b]) || b == before.len());
                    } else if b == before.len() {
                        assert(before.contains(self.order@[a]));
                    }
                }
            }
            assert forall|k: u32| self.order@.contains(k) <==> (before.contains(k) || k == id) by {
                if before.contains(k) {
                    let j = choose|j: int| 0 <= j < before.len() && before[j] == k;
                    assert(self.order@[j] == k);
                }
                if k == id {
                    assert(self.order@[before.len() as int] == k);
                }
                if self.order@.contains(k) {
                    let j = choose|j: int| 0 <= j < self.order@.len() && self.order@[j] == k;
                    if j < before.len() {
                        assert(before[j] == k);
                    }
                }
            }
            assert forall|k: u32| self.order@.contains(k) <==> self.voices@.contains_key(k) by {
                assert(before.contains(k) <==> old(self)@.contains_key(k));
            }
        } else {
            assert(old(self)@.contains_key(id));
            assert forall|k: u32| self.order@.contains(k) <==> self.voices@.contains_key(k) by {
                assert(old(self).order@.contains(k) <==> old(self)@.contains_key(k));
            }
        }
        r
    }

    /// Removes every voice and hands them back in the table's order.
    pub fn clear(&mut self) -> (r: Vec<H>)
        requires
            old(self).wf(),
        ensures
            final(self).wf(),
            final(self)@ == Map::<u32, H>::empty(),
            r@ == old(self).order().map_values(|id: u32| old(self)@[id]),
    {
        let ghost start = self.voices@;
        assert forall|j: int| 0 <= j < self.order@.len() implies self.voices@.contains_key(
            self.order@[j],
        ) by {
            assert(self.order@.contains(self.order@[j]));
        }
        let mut r: Vec<H> = Vec::new();
        let mut i: usize = 0;
        while i < self.order.len()
            invariant
                self.order@ == old(self).order@,
                start == old(self)@,
                self.order@.no_duplicates(),
                i <= self.order@.len(),
                forall|j: int|
                    i <= j < self.order@.len() ==> #[trigger] self.voices@.contains_key(self.order@[j])
                        && self.voices@[self.order@[j]] == start[self.order@[j]],
                r@ == self.order@.subrange(0, i as int).map_values(|id: u32| start[id]),
            decreases self.order@.len() - i,
        {
            let id = self.order[i];
            let v = self.voices.remove(&id);
            match v {
                Some(v) => {
                    r.push(v);
                },
                None => {
                    assert(false);
                },
            }
            i += 1;
            assert(r@ =~= self.order@.subrange(0, i as int).map_values(|id: u32| start[id]));
        }
        assert(r@ =~= self.order@.map_values(|id: u32| start[id]));
        self.voices.clear();
        self.order.clear();
        assert(self.order@ =~= Seq::<u32>::empty());
        r
    }

    /// Removes the voices held under the identifiers of `finished`; an identifier
    /// that the table does not hold is passed over.
    pub fn reclaim(&mut self, finished: &Vec<u32>)
        requires
            old(self).wf(),
        ensures
            final(self).wf(),
            final(self)@ == old(self)@.remove_keys(finished@.to_set()),
    {
        let mut i: usize = 0;
        while i < finished.len()
            invariant
                self.wf(),
                i <= finished@.len(),
                forall|k: u32|
                    #[trigger] self@.contains_key(k) <==> (old(self)@.contains_key(k) && forall|j: int|
                        0 <= j < i ==> finished@[j] != k),
                forall|k: u32| #[trigger] self@.contains_key(k) ==> self@[k] == old(self)@[k],
            decreases finished@.len() - i,
        {
            let _ = self.take(finished[i]);
            i += 1;
        }
        assert(self@ =~= old(self)@.remove_keys(finished@.to_set()));
    }

    /// Applies one command: the voices it stops leave the table and are handed
    /// back to be silenced, and a new note's tone is handed back to be started.
    pub fn apply(&mut self, cmd: AudioCommand) -> (r: Reaction<H>)
        requires
            old(self).wf(),
        ensures
            final(self).wf(),
            final(self)@ == voices_after(old(self)@, cmd),
            r.silence@ == silenced(old(self).order(), old(self)@, cmd),
            r.start == tone_of(cmd),
    {
        match cmd {
            AudioCommand::PlayNote { id, frequency, duration_ms } => {
                let silence = self.evict(id);
                Reaction { silence, start: Some(ToneRequest { id, frequency, duration_ms }) }
            },
            AudioCommand::StopNote { id } => {
                let silence = self.evict(id);
                Reaction { silence, start: None }
            },
            AudioCommand::StopAll => {
                let silence = self.clear();
                Reaction { silence, start: None }
            },
        }
    }

    /// Removes the voice under `id`, handing it back as a vector of zero or one voices.
    fn evict(&mut self, id: u32) -> (r: Vec<H>)
        requires
            old(self).wf(),
        ensures
            final(self).wf(),
            final(self)@ == old(self)@.remove(id),
            r@ == held(old(self)@, id),
    {
        let mut r: Vec<H> = Vec::new();
        match self.take(id) {
            Some(v) => {
                r.push(v);
            },
            None => {},
        }
        assert(r@ =~= held(old(self)@, id));
        r
    }
}

} // verus!
