use std::sync::mpsc;

use audio_engine::{
    play_note, stop_all, stop_note, AudioCommand, Engine, Frequency, ToneRequest, VoiceTable,
};

fn hz(f: f32) -> Frequency {
    Frequency::from_bits(f.to_bits())
}

/// Runs one command through the table; a started tone is recorded under the
/// handle `handle`. Returns the silenced handles.
fn step(table: &mut VoiceTable<u32>, cmd: AudioCommand, handle: u32) -> Vec<u32> {
    let reaction = table.apply(cmd);
    let mut silenced = reaction.silence;
    if let Some(tone) = reaction.start {
        if let Some(old) = table.insert(tone.id, handle) {
            silenced.push(old);
        }
    }
    silenced
}

#[test]
fn new_table_is_empty() {
    let t: VoiceTable<u32> = VoiceTable::new();
    assert_eq!(t.len(), 0);
    assert!(t.ids().is_empty());
    assert!(!t.contains(0));
}

#[test]
fn play_note_reaction_asks_for_the_tone() {
    let mut t: VoiceTable<u32> = VoiceTable::new();
    let r = t.apply(AudioCommand::PlayNote { id: 4, frequency: hz(440.0), duration_ms: 200 });
    assert!(r.silence.is_empty());
    assert_eq!(
        r.start,
        Some(ToneRequest { id: 4, frequency: hz(440.0), duration_ms: 200 })
    );
}

#[test]
fn second_note_on_same_id_evicts_the_first() {
    let mut t: VoiceTable<u32> = VoiceTable::new();
    let play = AudioCommand::PlayNote { id: 7, frequency: hz(440.0), duration_ms: 200 };
    assert!(step(&mut t, play, 100).is_empty());
    assert!(step(&mut t, AudioCommand::PlayNote { id: 8, frequency: hz(500.0), duration_ms: 9 }, 300).is_empty());
    assert_eq!(step(&mut t, play, 200), vec![100]);
    assert_eq!(t.len(), 2);
    assert_eq!(t.get(7), Some(&200));
    assert_eq!(step(&mut t, AudioCommand::StopNote { id: 7 }, 0), vec![200]);
    assert_eq!(t.get(8), Some(&300));
    assert_eq!(t.len(), 1);
}

#[test]
fn stop_note_on_unknown_id_is_a_no_op() {
    let mut t: VoiceTable<u32> = VoiceTable::new();
    let _ = t.insert(1, 10);
    let _ = t.insert(2, 20);
    assert!(step(&mut t, AudioCommand::StopNote { id: 99 }, 0).is_empty());
    assert_eq!(t.len(), 2);
    assert_eq!(t.get(1), Some(&10));
    assert_eq!(t.get(2), Some(&20));
}

#[test]
fn stop_note_on_a_reclaimed_voice_is_a_no_op() {
    let mut t: VoiceTable<u32> = VoiceTable::new();
    let _ = t.insert(1, 10);
    let _ = t.insert(2, 20);
    t.reclaim(&vec![1, 55]);
    assert!(!t.contains(1));
    assert!(step(&mut t, AudioCommand::StopNote { id: 1 }, 0).is_empty());
    assert_eq!(t.ids(), vec![2]);
    assert_eq!(t.get(2), Some(&20));
}

#[test]
fn stop_all_silences_every_voice() {
    let mut t: VoiceTable<u32> = VoiceTable::new();
    let _ = t.insert(1, 10);
    let _ = t.insert(2, 20);
    let _ = t.insert(3, 30);
    let mut silenced = step(&mut t, AudioCommand::StopAll, 0);
    silenced.sort();
    assert_eq!(silenced, vec![10, 20, 30]);
    assert_eq!(t.len(), 0);
}

#[test]
fn stop_all_is_idempotent() {
    let mut t: VoiceTable<u32> = VoiceTable::new();
    let _ = t.insert(1, 10);
    assert_eq!(step(&mut t, AudioCommand::StopAll, 0), vec![10]);
    assert!(step(&mut t, AudioCommand::StopAll, 0).is_empty());
    assert!(step(&mut t, AudioCommand::StopNote { id: 1 }, 0).is_empty());
    assert_eq!(t.len(), 0);
}

#[test]
fn stop_all_with_no_voices_does_nothing() {
    let mut t: VoiceTable<u32> = VoiceTable::new();
    let r = t.apply(AudioCommand::StopAll);
    assert!(r.silence.is_empty());
    assert_eq!(r.start, None);
    assert_eq!(t.len(), 0);
}

#[test]
fn insert_hands_back_the_replaced_voice() {
    let mut t: VoiceTable<u32> = VoiceTable::new();
    assert_eq!(t.insert(5, 1), None);
    assert_eq!(t.insert(5, 2), Some(1));
    assert_eq!(t.take(5), Some(2));
    assert_eq!(t.take(5), None);
}

#[test]
fn ids_lists_each_voice_once() {
    let mut t: VoiceTable<u32> = VoiceTable::new();
    let _ = t.insert(9, 0);
    let _ = t.insert(3, 0);
    let _ = t.insert(9, 1);
    let mut ids = t.ids();
    ids.sort();
    assert_eq!(ids, vec![3, 9]);
}

#[test]
fn replay_scenario_through_engine_and_table() {
    let (tx, rx) = mpsc::channel();
    let mut e = Engine::new(tx);
    let x = play_note(&mut e, hz(440.0), 200);
    let y = play_note(&mut e, hz(440.0), 200);
    assert_ne!(x, y);
    stop_note(&mut e, x);
    stop_note(&mut e, y);
    stop_all(&mut e);

    let mut t: VoiceTable<u32> = VoiceTable::new();
    let cmds: Vec<AudioCommand> = rx.try_iter().collect();
    assert!(step(&mut t, cmds[0], 1000).is_empty());
    // the first tone finishes and is reclaimed before the next command
    t.reclaim(&vec![x]);
    assert!(step(&mut t, cmds[1], 2000).is_empty());
    assert!(step(&mut t, cmds[2], 0).is_empty());
    assert_eq!(step(&mut t, cmds[3], 0), vec![2000]);
    assert!(step(&mut t, cmds[4], 0).is_empty());
    assert_eq!(t.len(), 0);
}
