use std::collections::HashMap;
use virtual_soundboard::effects::{FilterConfig, MicEffectsConfig, SaturationConfig};
use virtual_soundboard::hotkeys::HotkeyTarget;
use virtual_soundboard::soundboard::Soundboard;
use virtual_soundboard::table::ClipTable;

type Board = Soundboard<&'static str, u8, String, f32>;

fn board() -> Board {
    Soundboard::new("/data/clips".to_string())
}

fn started() -> Board {
    let mut b = board();
    b.begin_engine_start();
    b.note_stats_logger_initialized();
    b.attach_engine("engine");
    b
}

#[test]
fn new_soundboard_is_stopped_and_empty() {
    let b = board();
    let s = b.status();
    assert!(!s.engine_running);
    assert_eq!(s.clips_dir, "/data/clips");
    assert_eq!(s.clip_count, 0);
    assert!(!b.is_engine_running());
    assert!(!b.is_mic_test_running());
    assert!(b.running_mic_test().is_none());
    assert_eq!(b.clips_directory(), "/data/clips");
    assert_eq!(b.audio_stats_log(), vec!["$ audio engine stopped".to_string()]);
    let c = b.mic_effects_config();
    assert!(!c.high_pass.enabled && !c.low_pass.enabled && !c.saturation.enabled);
}

#[test]
fn starting_and_stopping_the_engine_is_logged() {
    let mut b = started();
    assert!(b.is_engine_running());
    assert!(b.status().engine_running);
    assert_eq!(
        b.audio_stats_log(),
        vec![
            "$ audio engine starting".to_string(),
            "$ audio stats logger initialized".to_string(),
            "$ audio engine running".to_string(),
        ]
    );
    b.stop_audio_engine();
    assert!(!b.is_engine_running());
    let log = b.audio_stats_log();
    assert_eq!(log.len(), 5);
    assert_eq!(log[3], "$ audio engine stopping");
    assert_eq!(log[4], "$ audio engine stopped");
    b.stop_audio_engine();
    assert_eq!(b.audio_stats_log().len(), 5);
}

#[test]
fn playing_needs_a_running_engine_and_a_loaded_clip() {
    let mut b = board();
    assert_eq!(
        b.play_clip("beep-1").err().unwrap(),
        "Start the audio engine before playing clips"
    );
    b.add_clip("beep-1".to_string(), "BEEP".to_string());
    assert_eq!(
        b.play_clip("beep-1").err().unwrap(),
        "Start the audio engine before playing clips"
    );
    let mut b = started();
    assert_eq!(b.play_clip("beep-1").err().unwrap(), "Clip has not been loaded");
    b.add_clip("beep-1".to_string(), "BEEP".to_string());
    let p = b.play_clip("beep-1").unwrap();
    assert_eq!(*p.engine, "engine");
    assert_eq!(p.clip, "BEEP");
    assert!(!p.boost);
    assert!(p.monitor);
}

#[test]
fn playback_options_follow_the_settings() {
    let mut b = started();
    b.add_clip("beep-1".to_string(), "BEEP".to_string());
    b.set_clip_boost_enabled(true);
    b.set_monitor_clip_playback(false);
    let p = b.play_clip("beep-1").unwrap();
    assert!(p.boost);
    assert!(!p.monitor);
}

#[test]
fn clips_are_added_replaced_and_removed() {
    let mut b = started();
    b.add_clip("a-1".to_string(), "A".to_string());
    b.add_clip("b-2".to_string(), "B".to_string());
    b.add_clip("a-1".to_string(), "A2".to_string());
    assert_eq!(b.status().clip_count, 2);
    assert!(b.has_clip("a-1"));
    assert_eq!(b.play_clip("a-1").unwrap().clip, "A2");
    b.remove_clip("a-1");
    assert!(!b.has_clip("a-1"));
    assert!(b.has_clip("b-2"));
    assert_eq!(b.status().clip_count, 1);
    assert_eq!(b.play_clip("a-1").err().unwrap(), "Clip has not been loaded");
    b.remove_clip("never-added");
    assert_eq!(b.status().clip_count, 1);
}

#[test]
fn hotkeys_play_their_clip_with_their_volume() {
    let mut b = started();
    b.add_clip("horn-1".to_string(), "HORN".to_string());
    let mut map = HashMap::new();
    map.insert(7u32, HotkeyTarget { clip_id: "horn-1".to_string(), volume: 0.4f32 });
    map.insert(8u32, HotkeyTarget { clip_id: "gone-2".to_string(), volume: 1.0f32 });
    b.set_hotkeys(map);
    let (p, v) = b.play_hotkey(7).unwrap().unwrap();
    assert_eq!(p.clip, "HORN");
    assert_eq!(*v, 0.4);
    assert!(b.play_hotkey(99).unwrap().is_none());
    assert_eq!(b.play_hotkey(8).err().unwrap(), "Clip has not been loaded");
    b.stop_audio_engine();
    assert_eq!(
        b.play_hotkey(7).err().unwrap(),
        "Start the audio engine before playing clips"
    );
    assert!(b.play_hotkey(99).unwrap().is_none());
}

#[test]
fn mic_test_is_attached_and_stopped() {
    let mut b = board();
    b.attach_mic_test(3);
    assert!(b.is_mic_test_running());
    assert_eq!(b.running_mic_test(), Some(&3));
    b.stop_mic_test();
    assert!(!b.is_mic_test_running());
    assert!(b.running_mic_test().is_none());
}

#[test]
fn mic_effects_are_clamped() {
    let mut b = board();
    b.set_mic_effects_config(MicEffectsConfig {
        high_pass: FilterConfig { enabled: true, cutoff_hz: 1.0f32.to_bits() },
        low_pass: FilterConfig { enabled: true, cutoff_hz: 9_000.0f32.to_bits() },
        saturation: SaturationConfig { enabled: false, drive: 20.0f32.to_bits() },
    });
    let c = b.mic_effects_config();
    assert_eq!(f32::from_bits(c.high_pass.cutoff_hz), 20.0);
    assert_eq!(f32::from_bits(c.low_pass.cutoff_hz), 9_000.0);
    assert_eq!(f32::from_bits(c.saturation.drive), 8.0);
    let s = b.mic_effects_snapshot();
    assert!(s.high_pass_enabled && s.low_pass_enabled && !s.saturation_enabled);
    assert_eq!(s.high_pass_cutoff_hz, c.high_pass.cutoff_hz);
}

#[test]
fn stats_periods_are_logged_and_warned() {
    let mut b = board();
    let warnings = b.record_audio_stats(12, 0);
    assert_eq!(warnings, vec!["Dropped 12 input frames. Try increasing LATENCY_MS.".to_string()]);
    assert_eq!(b.audio_stats_log(), vec!["$ warning dropped_input_frames=12".to_string()]);
    assert!(b.record_audio_stats(0, 0).is_empty());
    let warnings = b.record_audio_stats(1, 2);
    assert_eq!(warnings.len(), 2);
    assert_eq!(
        b.audio_stats_log(),
        vec![
            "$ warning dropped_input_frames=12".to_string(),
            "$ warning dropped_input_frames=1".to_string(),
            "$ warning missing_output_frames=2".to_string(),
        ]
    );
}

#[test]
fn import_plan_uses_the_clips_directory() {
    let b = board();
    let r = b.plan_import("/home/me/Airhorn.mp3", 1_700_000_000_000).unwrap();
    assert_eq!(r.id, "airhorn-1700000000000");
    assert_eq!(r.name, "Airhorn");
    assert_eq!(r.path, "/data/clips/airhorn-1700000000000.mp3");
    assert_eq!(
        b.plan_import("/home/me/Airhorn.flac", 1).err().unwrap(),
        "Only MP3 and WAV clips are supported"
    );
}

#[test]
fn clip_table_maps_ids_to_clips() {
    let mut t: ClipTable<u32> = ClipTable::new();
    assert_eq!(t.len(), 0);
    assert!(!t.contains("x"));
    t.insert("x".to_string(), 1);
    t.insert("y".to_string(), 2);
    t.insert("x".to_string(), 3);
    assert_eq!(t.len(), 2);
    assert_eq!(t.get("x"), Some(&3));
    assert_eq!(t.get("y"), Some(&2));
    assert_eq!(t.get("z"), None);
    t.remove("x");
    assert!(!t.contains("x"));
    assert_eq!(t.len(), 1);
    t.remove("x");
    assert_eq!(t.len(), 1);
}

#[test]
fn deleting_a_clip_forgets_it_and_picks_its_files() {
    let mut b = started();
    b.add_clip("beep-3".to_string(), "BEEP".to_string());
    b.add_clip("horn-4".to_string(), "HORN".to_string());
    let names: Vec<Option<String>> = vec![
        Some("beep-3.mp3".to_string()),
        Some("horn-4.wav".to_string()),
        Some("beep-3__Loud-Beep.wav".to_string()),
        Some("beep-30.mp3".to_string()),
        Some("notes.txt".to_string()),
        None,
    ];
    let stored = b.delete_clip("beep-3", &names);
    assert_eq!(stored, vec![true, false, true, false, false, false]);
    assert!(!b.has_clip("beep-3"));
    assert!(b.has_clip("horn-4"));
    assert_eq!(b.play_clip("beep-3").err().unwrap(), "Clip has not been loaded");
    assert!(b.delete_clip("gone-1", &Vec::new()).is_empty());
    assert_eq!(b.status().clip_count, 1);
}

#[test]
fn stopping_keeps_the_latest_log_lines() {
    let mut b = started();
    for i in 0..200 {
        b.record_audio_stats(i + 1, 0);
    }
    let before = b.audio_stats_log();
    assert_eq!(before.len(), 120);
    b.stop_audio_engine();
    let after = b.audio_stats_log();
    assert_eq!(after.len(), 120);
    assert_eq!(after[..118], before[2..]);
    assert_eq!(after[118], "$ audio engine stopping");
    assert_eq!(after[119], "$ audio engine stopped");
    assert!(!b.status().engine_running);
}
