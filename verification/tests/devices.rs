use virtual_soundboard::devices::{
    audio_device_lists, choose_engine_devices, choose_input_device, choose_monitor_output_device,
    device_infos, find_input_device, find_monitor_output_device, find_vb_cable_playback_device,
    first_non_vb_cable_output_device, AudioDeviceInfo, DeviceChoice, DeviceEntry, DeviceSelection,
};

const CABLE: &str = "CABLE Input (VB-Audio Virtual Cable)";
const NO_VB_CABLE: &str = "VB-Cable was not found. Install VB-Cable, restart the app, then choose 'CABLE Output (VB-Audio Virtual Cable)' as the microphone/input in Discord or your game.";

fn names(list: &[Option<&str>]) -> Vec<Option<String>> {
    list.iter().map(|n| n.map(|s| s.to_string())).collect()
}

fn info(name: &str, channels: u16) -> AudioDeviceInfo {
    AudioDeviceInfo {
        name: name.to_string(),
        channels,
        sample_rate: 48_000,
        sample_format: "f32".to_string(),
    }
}

fn entry(name: Option<&str>, channels: Option<u16>) -> DeviceEntry {
    DeviceEntry {
        name: name.map(|s| s.to_string()),
        info: match (name, channels) {
            (Some(n), Some(c)) => Some(info(n, c)),
            _ => None,
        },
    }
}

fn listed(c: &DeviceChoice) -> Option<usize> {
    match c {
        DeviceChoice::Listed(i) => Some(*i),
        DeviceChoice::Default => None,
    }
}

#[test]
fn finds_the_first_vb_cable_device() {
    let outs = names(&[Some("Speakers"), None, Some(CABLE), Some("cable input 2")]);
    assert_eq!(find_vb_cable_playback_device(&outs), Some(2));
    assert_eq!(find_vb_cable_playback_device(&names(&[Some("Speakers"), None])), None);
    assert_eq!(find_vb_cable_playback_device(&Vec::new()), None);
}

#[test]
fn finds_the_first_device_that_is_not_vb_cable() {
    assert_eq!(first_non_vb_cable_output_device(&names(&[Some(CABLE), None, Some("Speakers")])), Some(1));
    assert_eq!(first_non_vb_cable_output_device(&names(&[Some(CABLE), Some("Speakers")])), Some(1));
    assert_eq!(first_non_vb_cable_output_device(&names(&[Some(CABLE)])), None);
}

#[test]
fn finds_the_selected_input_device() {
    let ins = names(&[Some("Mic A"), None, Some("Mic B"), Some("Mic B")]);
    assert_eq!(find_input_device(&ins, &Some("Mic B".to_string())), Some(2));
    assert_eq!(find_input_device(&ins, &Some("Mic C".to_string())), None);
    assert_eq!(find_input_device(&ins, &None), None);
}

#[test]
fn monitor_output_is_never_vb_cable() {
    let outs = names(&[Some(CABLE), Some("Speakers")]);
    assert_eq!(find_monitor_output_device(&outs, &Some(CABLE.to_string())), None);
    assert_eq!(find_monitor_output_device(&outs, &Some("Speakers".to_string())), Some(1));
    assert_eq!(find_monitor_output_device(&outs, &None), None);
}

#[test]
fn input_choice_falls_back_to_the_default() {
    let ins = names(&[Some("Mic A")]);
    assert_eq!(listed(&choose_input_device(&ins, &Some("Mic A".to_string()), false).unwrap()), Some(0));
    assert!(matches!(choose_input_device(&ins, &Some("Other".to_string()), true), Ok(DeviceChoice::Default)));
    assert!(matches!(choose_input_device(&ins, &None, true), Ok(DeviceChoice::Default)));
    assert_eq!(
        choose_input_device(&ins, &None, false).err().unwrap(),
        "Failed to get default input device"
    );
}

#[test]
fn monitor_choice_order() {
    let outs = names(&[Some(CABLE), Some("Speakers"), Some("Headphones")]);
    let selected = Some("Headphones".to_string());
    assert_eq!(listed(&choose_monitor_output_device(&outs, &selected, &Some(Some("Speakers".to_string()))).unwrap()), Some(2));
    assert!(matches!(
        choose_monitor_output_device(&outs, &None, &Some(Some("Speakers".to_string()))),
        Ok(DeviceChoice::Default)
    ));
    assert!(matches!(
        choose_monitor_output_device(&outs, &None, &Some(None)),
        Ok(DeviceChoice::Default)
    ));
    assert_eq!(
        listed(&choose_monitor_output_device(&outs, &None, &Some(Some(CABLE.to_string()))).unwrap()),
        Some(1)
    );
    assert_eq!(listed(&choose_monitor_output_device(&outs, &None, &None).unwrap()), Some(1));
    assert_eq!(
        choose_monitor_output_device(&names(&[Some(CABLE)]), &None, &Some(Some(CABLE.to_string())))
            .err()
            .unwrap(),
        "Failed to get default output device for clip monitoring"
    );
}

#[test]
fn engine_devices_when_all_are_found() {
    let selection = DeviceSelection {
        input_device: Some("Mic B".to_string()),
        monitor_output_device: None,
    };
    let ins = names(&[Some("Mic A"), Some("Mic B")]);
    let outs = names(&[Some("Speakers"), Some(CABLE)]);
    let d = choose_engine_devices(&selection, &ins, true, &outs, &Some(Some("Speakers".to_string()))).unwrap();
    assert_eq!(listed(&d.input), Some(1));
    assert_eq!(d.voice_output, 1);
    assert!(matches!(d.monitor_output, DeviceChoice::Default));
}

#[test]
fn engine_devices_report_the_first_missing_device() {
    let selection = DeviceSelection { input_device: None, monitor_output_device: None };
    let outs = names(&[Some("Speakers")]);
    assert_eq!(
        choose_engine_devices(&selection, &Vec::new(), false, &outs, &None).err().unwrap(),
        "Failed to get default input device"
    );
    assert_eq!(
        choose_engine_devices(&selection, &Vec::new(), true, &outs, &None).err().unwrap(),
        NO_VB_CABLE
    );
    assert_eq!(
        choose_engine_devices(&selection, &Vec::new(), true, &names(&[Some(CABLE)]), &None).err().unwrap(),
        "Failed to get default output device for clip monitoring"
    );
}

#[test]
fn device_infos_skip_unreadable_and_optionally_vb_cable() {
    let entries = vec![
        entry(Some("Speakers"), Some(2)),
        entry(Some(CABLE), Some(8)),
        entry(None, None),
        entry(Some("Broken"), None),
        entry(Some("Headphones"), Some(1)),
    ];
    let all = device_infos(&entries, false);
    let names_all: Vec<&str> = all.iter().map(|i| i.name.as_str()).collect();
    assert_eq!(names_all, vec!["Speakers", CABLE, "Headphones"]);
    let outs = device_infos(&entries, true);
    let names_outs: Vec<&str> = outs.iter().map(|i| i.name.as_str()).collect();
    assert_eq!(names_outs, vec!["Speakers", "Headphones"]);
    assert_eq!(outs[1].channels, 1);
    assert_eq!(outs[1].sample_rate, 48_000);
    assert_eq!(outs[1].sample_format, "f32");
}

#[test]
fn device_lists_offer_what_the_front_end_shows() {
    let inputs = vec![entry(Some("Mic"), Some(1)), entry(Some("Broken Mic"), None)];
    let outputs = vec![
        entry(Some(CABLE), Some(8)),
        entry(Some("Speakers"), Some(2)),
        entry(Some("Headphones"), Some(2)),
    ];
    let lists = audio_device_lists(&inputs, &outputs, &Some(entry(Some("Headphones"), Some(2))));
    assert_eq!(lists.inputs.len(), 1);
    assert_eq!(lists.inputs[0].name, "Mic");
    let outs: Vec<&str> = lists.outputs.iter().map(|i| i.name.as_str()).collect();
    assert_eq!(outs, vec!["Speakers", "Headphones"]);
    assert!(lists.vb_cable.installed);
    assert_eq!(lists.vb_cable.playback_device.as_ref().unwrap().name, CABLE);
    assert_eq!(lists.vb_cable.voice_chat_input_name, "CABLE Output (VB-Audio Virtual Cable)");
    assert_eq!(lists.monitor_output.as_ref().unwrap().name, "Headphones");

    let lists = audio_device_lists(&inputs, &outputs, &Some(entry(Some(CABLE), Some(8))));
    assert_eq!(lists.monitor_output.as_ref().unwrap().name, "Speakers");

    let lists = audio_device_lists(&Vec::new(), &vec![entry(Some("Speakers"), Some(2))], &None);
    assert!(!lists.vb_cable.installed);
    assert!(lists.vb_cable.playback_device.is_none());
    assert_eq!(lists.monitor_output.as_ref().unwrap().name, "Speakers");

    let lists = audio_device_lists(&Vec::new(), &vec![entry(Some(CABLE), None)], &None);
    assert!(!lists.vb_cable.installed);
    assert!(lists.monitor_output.is_none());
    assert!(lists.outputs.is_empty());
}
