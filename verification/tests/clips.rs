use virtual_soundboard::clips::{
    chars_name_le, clip_id_from_stem, clip_import_record, clip_import_record_for_path, clip_import_record_from_parts,
    clip_record_from_file_name, clip_record_from_path, create_clip_id, display_name_from_id,
    display_name_from_stem, is_stored_file_of_clip, is_stored_path_of_clip,
    is_supported_clip_file_name, is_supported_clip_path, is_vb_cable_playback_name,
    persisted_clip_record, persisted_clip_record_for, sort_by_name, unreadable_clip_file, audio_file_format,
    AudioFileFormat, ClipRecord,
};

fn record(id: &str, name: &str) -> ClipRecord {
    ClipRecord {
        id: id.to_string(),
        name: name.to_string(),
        file_name: format!("{id}.mp3"),
        format: "mp3".to_string(),
        path: format!("/clips/{id}.mp3"),
    }
}

fn chars(s: &str) -> Vec<char> {
    s.chars().collect()
}

#[test]
fn clip_id_is_the_stem_before_the_first_double_underscore() {
    assert_eq!(clip_id_from_stem("abc-123__My-Song"), "abc-123");
    assert_eq!(clip_id_from_stem("a__b__c"), "a");
    assert_eq!(clip_id_from_stem("plain-id-5"), "plain-id-5");
    assert_eq!(clip_id_from_stem("__name"), "");
    assert_eq!(clip_id_from_stem(""), "");
}

#[test]
fn display_name_from_id_drops_the_timestamp_and_capitalizes_words() {
    assert_eq!(display_name_from_id("my-clip-1700000000000"), "My Clip");
    assert_eq!(display_name_from_id("airhorn-42"), "Airhorn");
    assert_eq!(display_name_from_id("a--b-123"), "A B");
    assert_eq!(display_name_from_id("clip"), "Clip");
    assert_eq!(display_name_from_id("-5"), "");
    assert_eq!(display_name_from_id(""), "");
}

#[test]
fn display_name_uses_the_full_uppercase_mapping() {
    // 'ß' upper-cases to "SS", and 'é' to 'É'.
    assert_eq!(display_name_from_id("ßeta-éclair-7"), "SSeta Éclair");
}

#[test]
fn display_name_from_stem_prefers_the_name_after_double_underscore() {
    assert_eq!(display_name_from_stem("abc-1__Hello-World"), "Hello World");
    assert_eq!(display_name_from_stem("abc-1__"), "");
    assert_eq!(display_name_from_stem("my-clip-17"), "My Clip");
}

#[test]
fn create_clip_id_slugs_the_name_and_appends_the_timestamp() {
    assert_eq!(create_clip_id("My Clip!", 1_700_000_000_000), "my-clip-1700000000000");
    assert_eq!(create_clip_id("  Air Horn  ", 9), "air-horn-9");
    assert_eq!(create_clip_id("Déjà Vu", 12), "d-j--vu-12");
    assert_eq!(create_clip_id("!!!", 5), "clip-5");
    assert_eq!(create_clip_id("", 0), "clip-0");
    assert_eq!(create_clip_id("A", u128::MAX), format!("a-{}", u128::MAX));
}

#[test]
fn vb_cable_playback_names_contain_cable_input_in_any_case() {
    assert!(is_vb_cable_playback_name("CABLE Input (VB-Audio Virtual Cable)"));
    assert!(is_vb_cable_playback_name("my cable INPUT 2"));
    assert!(!is_vb_cable_playback_name("CABLE Output (VB-Audio Virtual Cable)"));
    assert!(!is_vb_cable_playback_name("Speakers"));
    assert!(!is_vb_cable_playback_name("cable  input"));
    assert!(!is_vb_cable_playback_name(""));
}

#[test]
fn record_from_file_name_reads_id_name_and_format() {
    let r = clip_record_from_file_name("/clips/abc-1__My-Song.MP3", Some("abc-1__My-Song.MP3")).unwrap();
    assert_eq!(r.id, "abc-1");
    assert_eq!(r.name, "My Song");
    assert_eq!(r.file_name, "abc-1__My-Song.MP3");
    assert_eq!(r.format, "mp3");
    assert_eq!(r.path, "/clips/abc-1__My-Song.MP3");

    let r = clip_record_from_file_name("x/air-horn-42.wav", Some("air-horn-42.wav")).unwrap();
    assert_eq!(r.id, "air-horn-42");
    assert_eq!(r.name, "Air Horn");
    assert_eq!(r.format, "wav");
}

#[test]
fn record_from_file_name_errors() {
    assert_eq!(
        clip_record_from_file_name("/", None).err().unwrap(),
        "Clip file has no valid id"
    );
    assert_eq!(
        clip_record_from_file_name("/clips/noext", Some("noext")).err().unwrap(),
        "Clip file has no extension"
    );
    assert_eq!(
        clip_record_from_file_name("/clips/.wav", Some(".wav")).err().unwrap(),
        "Clip file has no extension"
    );
}

#[test]
fn record_from_file_name_with_trailing_dot_has_empty_format() {
    let r = clip_record_from_file_name("/c/a.", Some("a.")).unwrap();
    assert_eq!(r.id, "a");
    assert_eq!(r.format, "");
}

#[test]
fn supported_clip_file_names_are_mp3_and_wav_in_any_case() {
    assert!(is_supported_clip_file_name(Some("a.mp3")));
    assert!(is_supported_clip_file_name(Some("a.WAV")));
    assert!(is_supported_clip_file_name(Some("x.y.Mp3")));
    assert!(!is_supported_clip_file_name(Some("a.ogg")));
    assert!(!is_supported_clip_file_name(Some("mp3")));
    assert!(!is_supported_clip_file_name(Some(".mp3")));
    assert!(!is_supported_clip_file_name(Some("a.mp3.txt")));
    assert!(!is_supported_clip_file_name(None));
}

#[test]
fn supported_clip_paths() {
    assert!(is_supported_clip_path("song.mp3"));
    assert!(is_supported_clip_path("/home/me/clips/song.WAV"));
    assert!(!is_supported_clip_path("/home/me/clips/notes.txt"));
    assert!(!is_supported_clip_path("/"));
    assert!(!is_supported_clip_path(""));
}

#[test]
fn record_from_path_uses_the_file_name() {
    let r = clip_record_from_path("/data/clips/air-horn-42.wav").unwrap();
    assert_eq!(r.id, "air-horn-42");
    assert_eq!(r.name, "Air Horn");
    assert_eq!(r.file_name, "air-horn-42.wav");
    assert_eq!(r.format, "wav");
    assert_eq!(r.path, "/data/clips/air-horn-42.wav");
    assert_eq!(clip_record_from_path("/").err().unwrap(), "Clip file has no valid id");
    assert_eq!(clip_record_from_path("/data/clips/README").err().unwrap(), "Clip file has no extension");
}

#[test]
fn persisted_records_skip_unsupported_files() {
    assert!(persisted_clip_record("/data/clips/readme.txt").is_none());
    assert!(persisted_clip_record("/data/clips/noext").is_none());
    let r = persisted_clip_record("/data/clips/beep-3.mp3").unwrap().unwrap();
    assert_eq!(r.id, "beep-3");
    assert_eq!(r.name, "Beep");
}

#[test]
fn import_record_for_a_supported_file() {
    let r = clip_import_record(Some("My Song.MP3"), "/data/clips", 42).unwrap();
    assert_eq!(r.id, "my-song-42");
    assert_eq!(r.name, "My Song");
    assert_eq!(r.file_name, "my-song-42.mp3");
    assert_eq!(r.format, "mp3");
    assert_eq!(r.path, "/data/clips/my-song-42.mp3");
}

#[test]
fn import_record_joins_with_a_separator_only_when_needed() {
    let r = clip_import_record(Some("x.wav"), "/data/clips/", 1).unwrap();
    assert_eq!(r.path, "/data/clips/x-1.wav");
    let r = clip_import_record(Some("x.wav"), "", 1).unwrap();
    assert_eq!(r.path, "x-1.wav");
}

#[test]
fn import_record_errors() {
    assert_eq!(
        clip_import_record(Some("song"), "/d", 1).err().unwrap(),
        "Audio clip path has no extension"
    );
    assert_eq!(
        clip_import_record(Some(".wav"), "/d", 1).err().unwrap(),
        "Audio clip path has no extension"
    );
    assert_eq!(clip_import_record(None, "/d", 1).err().unwrap(), "Audio clip path has no extension");
    assert_eq!(
        clip_import_record(Some("song.ogg"), "/d", 1).err().unwrap(),
        "Only MP3 and WAV clips are supported"
    );
}

#[test]
fn import_record_for_a_path() {
    let r = clip_import_record_for_path("/home/me/Music/Bruh Sound.wav", "/app/clips", 1_700_000_000_123).unwrap();
    assert_eq!(r.id, "bruh-sound-1700000000123");
    assert_eq!(r.name, "Bruh Sound");
    assert_eq!(r.file_name, "bruh-sound-1700000000123.wav");
    assert_eq!(r.path, "/app/clips/bruh-sound-1700000000123.wav");
    assert_eq!(
        clip_import_record_for_path("/home/me/Music/notes.txt", "/app/clips", 1).err().unwrap(),
        "Only MP3 and WAV clips are supported"
    );
}

#[test]
fn imported_clip_is_found_again_under_its_id() {
    for (name, ts) in [("My Song.MP3", 42u128), ("!!!.wav", 0), ("__x__.mp3", 77), ("a.b.c.WAV", 5)] {
        let imported = clip_import_record(Some(name), "/data/clips", ts).unwrap();
        let reloaded = clip_record_from_path(&imported.path).unwrap();
        assert_eq!(reloaded.id, imported.id);
        assert_eq!(reloaded.format, imported.format);
        assert_eq!(reloaded.file_name, imported.file_name);
        assert!(is_stored_path_of_clip(&imported.path, &imported.id));
    }
}

#[test]
fn names_order_as_strings_do() {
    let cases = ["", "a", "B", "b", "ab", "abc", "Zz", "é", "a b"];
    for x in cases {
        for y in cases {
            assert_eq!(chars_name_le(&chars(x), &chars(y)), x <= y, "{x:?} <= {y:?}");
        }
    }
}

#[test]
fn sort_by_name_is_stable() {
    let records = vec![
        record("c-1", "Charlie"),
        record("a-1", "Alpha"),
        record("c-2", "Charlie"),
        record("b-1", "Bravo"),
        record("a-2", "Alpha"),
    ];
    let sorted = sort_by_name(records);
    let ids: Vec<&str> = sorted.iter().map(|r| r.id.as_str()).collect();
    assert_eq!(ids, vec!["a-1", "a-2", "b-1", "c-1", "c-2"]);
    assert!(sort_by_name(Vec::new()).is_empty());
}

#[test]
fn stored_files_of_a_clip() {
    assert!(is_stored_file_of_clip(Some("beep-3.mp3"), "beep-3"));
    assert!(is_stored_file_of_clip(Some("beep-3__Beep-Loud.wav"), "beep-3"));
    assert!(is_stored_file_of_clip(Some("beep-3"), "beep-3"));
    assert!(!is_stored_file_of_clip(Some("beep-30.mp3"), "beep-3"));
    assert!(!is_stored_file_of_clip(None, "beep-3"));
    assert!(is_stored_path_of_clip("/data/clips/beep-3.mp3", "beep-3"));
    assert!(!is_stored_path_of_clip("/data/clips/other-1.mp3", "beep-3"));
}

#[test]
fn clip_ids_differ_unless_slug_and_millisecond_agree() {
    assert_ne!(create_clip_id("Horn", 1), create_clip_id("Horn", 2));
    assert_ne!(create_clip_id("Horn", 12), create_clip_id("Horn-1", 2));
    assert_ne!(create_clip_id("a-1", 2), create_clip_id("a", 12));
    assert_eq!(create_clip_id("Horn!", 7), create_clip_id("horn", 7));
}

#[test]
fn import_from_parts_names_a_clip_without_a_readable_stem() {
    let r = clip_import_record_from_parts(None, Some("WAV"), "/d", 5).unwrap();
    assert_eq!(r.id, "audio-clip-5");
    assert_eq!(r.name, "Audio Clip");
    assert_eq!(r.file_name, "audio-clip-5.wav");
    assert_eq!(r.path, "/d/audio-clip-5.wav");
    let r = clip_import_record_from_parts(Some("Bell"), Some("mp3"), "/d", 6).unwrap();
    assert_eq!(r.id, "bell-6");
    assert_eq!(
        clip_import_record_from_parts(Some("Bell"), None, "/d", 6).err().unwrap(),
        "Audio clip path has no extension"
    );
    assert_eq!(
        clip_import_record_from_parts(None, Some("ogg"), "/d", 6).err().unwrap(),
        "Only MP3 and WAV clips are supported"
    );
}

#[test]
fn unreadable_clip_files_are_reported_only_when_supported() {
    assert_eq!(unreadable_clip_file(Some("MP3")).unwrap(), "Clip file has no valid id");
    assert_eq!(unreadable_clip_file(Some("wav")).unwrap(), "Clip file has no valid id");
    assert!(unreadable_clip_file(Some("txt")).is_none());
    assert!(unreadable_clip_file(None).is_none());
}

#[test]
fn decoder_is_chosen_by_the_lowered_extension() {
    assert!(matches!(audio_file_format(Some("WAV")), Ok(AudioFileFormat::Wav)));
    assert!(matches!(audio_file_format(Some("mp3")), Ok(AudioFileFormat::Mp3)));
    assert_eq!(
        audio_file_format(Some("OGG")).err().unwrap(),
        "Unsupported audio file extension: ogg"
    );
    assert_eq!(audio_file_format(None).err().unwrap(), "Audio file path has no extension");
}

#[test]
fn persisted_records_from_directory_entries() {
    let r = persisted_clip_record_for("/data/clips/beep-3.mp3", Some("beep-3.mp3")).unwrap().unwrap();
    assert_eq!(r.id, "beep-3");
    assert_eq!(r.path, "/data/clips/beep-3.mp3");
    assert!(persisted_clip_record_for("/data/clips/a.txt", Some("a.txt")).is_none());
    assert!(persisted_clip_record_for("/data/clips/x", None).is_none());
}

#[test]
fn portable_paths_use_their_last_part() {
    let r = clip_record_from_path("clips/sub/air-horn-42.wav").unwrap();
    assert_eq!(r.file_name, "air-horn-42.wav");
    assert!(is_supported_clip_path("relative/dir/a.MP3"));
    assert!(is_stored_path_of_clip("./clips/beep-3.mp3", "beep-3"));
}

#[test]
fn reloaded_clip_is_named_by_its_id() {
    let imported = clip_import_record(Some("my_song!.wav"), "/d", 9).unwrap();
    assert_eq!(imported.name, "my_song!");
    let reloaded = clip_record_from_path(&imported.path).unwrap();
    assert_eq!(reloaded.id, "my-song-9");
    assert_eq!(reloaded.name, display_name_from_id("my-song-9"));
    assert_eq!(reloaded.name, "My Song");
}
