use vstd::prelude::*;
use crate::clips::is_vb_cable_playback_name;
use crate::text::{owned_string, ascii_lower_seq, chars_of, find, string_from_chars};

verus! {

/// The devices the user picked; `None` asks for a sensible default.
pub struct DeviceSelection {
    pub input_device: Option<String>,
    pub monitor_output_device: Option<String>,
}

/// What the front end is shown of an audio device.
pub struct AudioDeviceInfo {
    pub name: String,
    pub channels: u16,
    pub sample_rate: u32,
    pub sample_format: String,
}

impl AudioDeviceInfo {
    /// A copy of this record.
    pub fn copy(&self) -> (r: AudioDeviceInfo)
        ensures
            r == *self,
    {
        AudioDeviceInfo {
            name: self.name.clone(),
            channels: self.channels,
            sample_rate: self.sample_rate,
            sample_format: self.sample_format.clone(),
        }
    }
}

/// Whether the VB-Cable playback device is present, and how voice chat apps see it.
pub struct VbCableStatus {
    pub installed: bool,
    pub playback_device: Option<AudioDeviceInfo>,
    pub voice_chat_input_name: String,
}

/// The devices the front end can offer.
pub struct AudioDeviceLists {
    pub inputs: Vec<AudioDeviceInfo>,
    pub outputs: Vec<AudioDeviceInfo>,
    pub vb_cable: VbCableStatus,
    pub monitor_output: Option<AudioDeviceInfo>,
}

/// One device as the host reported it: its name, if its description could be
/// read, and its info, if its default configuration could be read too.
pub struct DeviceEntry {
    pub name: Option<String>,
    pub info: Option<AudioDeviceInfo>,
}

/// The name voice chat apps show for the VB-Cable recording device.
pub open spec fn voice_chat_input_name() -> Seq<char> {
    "CABLE Output (VB-Audio Virtual Cable)"@
}

/// Whether a device name is that of the VB-Cable playback device.
pub open spec fn is_vb_cable_name(name: Seq<char>) -> bool {
    find(ascii_lower_seq(name), "cable input"@) is Some
}

/// Whether a device is the VB-Cable playback device (a device without a readable
/// name is not).
pub open spec fn is_vb_cable_device(name: Option<String>) -> bool {
    name matches Some(n) && is_vb_cable_name(n@)
}

/// The infos of the entries that have one, in order; VB-Cable devices left out
/// when `skip_vb_cable` holds.
pub open spec fn infos_of(entries: Seq<DeviceEntry>, skip_vb_cable: bool) -> Seq<AudioDeviceInfo>
    decreases entries.len(),
{
    if entries.len() == 0 {
        Seq::empty()
    } else {
        let rest = infos_of(entries.drop_last(), skip_vb_cable);
        let e = entries.last();
        if (skip_vb_cable && is_vb_cable_device(e.name)) || e.info is None {
            rest
        } else {
            rest.push(e.info->0)
        }
    }
}

/// Whether `i` is the first index of `entries` whose name satisfies `p`.
pub open spec fn is_first_where(entries: Seq<Option<String>>, p: spec_fn(Option<String>) -> bool, i: int) -> bool {
    &&& 0 <= i < entries.len()
    &&& p(entries[i])
    &&& forall|j: int| 0 <= j < i ==> !p(#[trigger] entries[j])
}

/// Whether no name of `entries` satisfies `p`.
pub open spec fn none_where(entries: Seq<Option<String>>, p: spec_fn(Option<String>) -> bool) -> bool {
    forall|j: int| 0 <= j < entries.len() ==> !p(#[trigger] entries[j])
}

/// The names of a list of entries.
pub open spec fn names_of(entries: Seq<DeviceEntry>) -> Seq<Option<String>> {
    entries.map_values(|e: DeviceEntry| e.name)
}

/// The first index whose name satisfies `p`, found by `find`.
pub open spec fn found_first(entries: Seq<Option<String>>, p: spec_fn(Option<String>) -> bool, r: Option<usize>) -> bool {
    match r {
        Some(i) => is_first_where(entries, p, i as int),
        None => none_where(entries, p),
    }
}

/// Names that are the VB-Cable playback device.
pub open spec fn vb_pred() -> spec_fn(Option<String>) -> bool {
    |n: Option<String>| is_vb_cable_device(n)
}

/// Names that are not the VB-Cable playback device.
pub open spec fn non_vb_pred() -> spec_fn(Option<String>) -> bool {
    |n: Option<String>| !is_vb_cable_device(n)
}

/// Names equal to `wanted`.
pub open spec fn named_pred(wanted: Seq<char>) -> spec_fn(Option<String>) -> bool {
    |n: Option<String>| n matches Some(s) && s@ == wanted
}

/// Names equal to `wanted` of devices that are not the VB-Cable playback device.
pub open spec fn named_non_vb_pred(wanted: Seq<char>) -> spec_fn(Option<String>) -> bool {
    |n: Option<String>| !is_vb_cable_device(n) && (n matches Some(s) && s@ == wanted)
}

fn device_is_vb_cable(name: &Option<String>) -> (r: bool)
    ensures
        r == is_vb_cable_device(*name),
{
    match name {
        Some(n) => is_vb_cable_playback_name(n.as_str()),
        None => false,
    }
}

fn name_is(name: &Option<String>, wanted: &String) -> (r: bool)
    ensures
        r == (name matches Some(s) && s@ == wanted@),
{
    match name {
        Some(n) => *n == *wanted,
        None => false,
    }
}

/// The first device that is the VB-Cable playback device.
pub fn find_vb_cable_playback_device(names: &Vec<Option<String>>) -> (r: Option<usize>)
    ensures
        found_first(names@, vb_pred(), r),
{
    let mut i: usize = 0;
    while i < names.len()
        invariant
            i <= names@.len(),
            forall|j: int| 0 <= j < i ==> !vb_pred()(#[trigger] names@[j]),
        decreases names@.len() - i,
    {
        if device_is_vb_cable(&names[i]) {
            return Some(i);
        }
        i = i + 1;
    }
    None
}

/// The first device that is not the VB-Cable playback device.
pub fn first_non_vb_cable_output_device(names: &Vec<Option<String>>) -> (r: Option<usize>)
    ensures
        found_first(names@, non_vb_pred(), r),
{
    let mut i: usize = 0;
    while i < names.len()
        invariant
            i <= names@.len(),
            forall|j: int| 0 <= j < i ==> !non_vb_pred()(#[trigger] names@[j]),
        decreases names@.len() - i,
    {
        if !device_is_vb_cable(&names[i]) {
            return Some(i);
        }
        i = i + 1;
    }
    None
}

/// The first input device named as selected; nothing when none was selected.
pub fn find_input_device(names: &Vec<Option<String>>, selected: &Option<String>) -> (r: Option<usize>)
    ensures
        selected is None ==> r is None,
        selected is Some ==> found_first(names@, named_pred(selected->0@), r),
{
    let wanted = match selected {
        Some(w) => w,
        None => {
            return None;
        },
    };
    let mut i: usize = 0;
    while i < names.len()
        invariant
            i <= names@.len(),
            forall|j: int| 0 <= j < i ==> !named_pred(wanted@)(#[trigger] names@[j]),
            selected is Some && selected->0@ == wanted@,
        decreases names@.len() - i,
    {
        if name_is(&names[i], wanted) {
            return Some(i);
        }
        i = i + 1;
    }
    None
}

/// The first output device named as selected that is not the VB-Cable playback
/// device; nothing when none was selected.
pub fn find_monitor_output_device(names: &Vec<Option<String>>, selected: &Option<String>) -> (r: Option<usize>)
    ensures
        selected is None ==> r is None,
        selected is Some ==> found_first(names@, named_non_vb_pred(selected->0@), r),
{
    let wanted = match selected {
        Some(w) => w,
        None => {
            return None;
        },
    };
    let mut i: usize = 0;
    while i < names.len()
        invariant
            i <= names@.len(),
            forall|j: int| 0 <= j < i ==> !named_non_vb_pred(wanted@)(#[trigger] names@[j]),
            selected is Some && selected->0@ == wanted@,
        decreases names@.len() - i,
    {
        if !device_is_vb_cable(&names[i]) && name_is(&names[i], wanted) {
            return Some(i);
        }
        i = i + 1;
    }
    None
}

/// Which device to open: one of the listed devices, or the host's default.
pub enum DeviceChoice {
    Listed(usize),
    Default,
}

/// The devices the audio engine opens.
pub struct EngineDevices {
    pub input: DeviceChoice,
    pub voice_output: usize,
    pub monitor_output: DeviceChoice,
}

/// The error when no input device can be opened.
pub open spec fn no_input_error() -> Seq<char> {
    "Failed to get default input device"@
}

/// The error when VB-Cable is missing.
pub open spec fn no_vb_cable_error() -> Seq<char> {
    "VB-Cable was not found. Install VB-Cable, restart the app, then choose 'CABLE Output (VB-Audio Virtual Cable)' as the microphone/input in Discord or your game."@
}

/// The error when no output device can monitor clips.
pub open spec fn no_monitor_error() -> Seq<char> {
    "Failed to get default output device for clip monitoring"@
}

/// Whether `r` is the input device to open: the selected one if listed, else the
/// host's default, else the error.
pub open spec fn is_input_choice(
    names: Seq<Option<String>>,
    selected: Option<String>,
    has_default: bool,
    r: Result<DeviceChoice, Seq<char>>,
) -> bool {
    let selected_found = selected matches Some(w) && !none_where(names, named_pred(w@));
    if selected_found {
        r matches Ok(DeviceChoice::Listed(i)) && is_first_where(names, named_pred(selected->0@), i as int)
    } else if has_default {
        r matches Ok(DeviceChoice::Default)
    } else {
        r == Err::<DeviceChoice, Seq<char>>(no_input_error())
    }
}

/// Whether `r` is the monitor output to open: the selected one if listed and not
/// VB-Cable, else the host's default unless it is VB-Cable, else the first device
/// that is not VB-Cable, else the error.
pub open spec fn is_monitor_choice(
    names: Seq<Option<String>>,
    selected: Option<String>,
    default_name: Option<Option<String>>,
    r: Result<DeviceChoice, Seq<char>>,
) -> bool {
    let selected_found = selected matches Some(w) && !none_where(names, named_non_vb_pred(w@));
    if selected_found {
        r matches Ok(DeviceChoice::Listed(i)) && is_first_where(names, named_non_vb_pred(selected->0@), i as int)
    } else if default_name matches Some(d) && !is_vb_cable_device(d) {
        r matches Ok(DeviceChoice::Default)
    } else if !none_where(names, non_vb_pred()) {
        r matches Ok(DeviceChoice::Listed(i)) && is_first_where(names, non_vb_pred(), i as int)
    } else {
        r == Err::<DeviceChoice, Seq<char>>(no_monitor_error())
    }
}

/// The view of a choice result.
pub open spec fn choice_view(r: Result<DeviceChoice, String>) -> Result<DeviceChoice, Seq<char>> {
    match r {
        Ok(c) => Ok(c),
        Err(e) => Err(e@),
    }
}

/// The microphone to open, given the input devices' names and whether the host
/// has a default input device.
pub fn choose_input_device(
    names: &Vec<Option<String>>,
    selected: &Option<String>,
    has_default: bool,
) -> (r: Result<DeviceChoice, String>)
    ensures
        is_input_choice(names@, *selected, has_default, choice_view(r)),
{
    match find_input_device(names, selected) {
        Some(i) => Ok(DeviceChoice::Listed(i)),
        None => {
            if has_default {
                Ok(DeviceChoice::Default)
            } else {
                Err(owned_string("Failed to get default input device"))
            }
        },
    }
}

/// The clip monitor output to open, given the output devices' names and the name
/// of the host's default output device (if it has one).
pub fn choose_monitor_output_device(
    names: &Vec<Option<String>>,
    selected: &Option<String>,
    default_name: &Option<Option<String>>,
) -> (r: Result<DeviceChoice, String>)
    ensures
        is_monitor_choice(names@, *selected, *default_name, choice_view(r)),
{
    if let Some(i) = find_monitor_output_device(names, selected) {
        return Ok(DeviceChoice::Listed(i));
    }
    let default_usable = match default_name {
        Some(d) => !device_is_vb_cable(d),
        None => false,
    };
    if default_usable {
        return Ok(DeviceChoice::Default);
    }
    match first_non_vb_cable_output_device(names) {
        Some(i) => Ok(DeviceChoice::Listed(i)),
        None => Err(owned_string("Failed to get default output device for clip monitoring")),
    }
}

/// The devices the audio engine opens: the microphone, the VB-Cable playback
/// device and the clip monitor output; or why they cannot be found. The input
/// device is looked for first, then VB-Cable, then the monitor output.
pub fn choose_engine_devices(
    selection: &DeviceSelection,
    input_names: &Vec<Option<String>>,
    has_default_input: bool,
    output_names: &Vec<Option<String>>,
    default_output_name: &Option<Option<String>>,
) -> (r: Result<EngineDevices, String>)
    ensures
        match r {
            Ok(d) => {
                &&& is_input_choice(input_names@, selection.input_device, has_default_input, Ok(d.input))
                &&& is_first_where(output_names@, vb_pred(), d.voice_output as int)
                &&& is_monitor_choice(
                    output_names@,
                    selection.monitor_output_device,
                    *default_output_name,
                    Ok(d.monitor_output),
                )
            },
            Err(e) => {
                ||| is_input_choice(input_names@, selection.input_device, has_default_input, Err(e@))
                ||| (!is_input_choice(input_names@, selection.input_device, has_default_input, Err(no_input_error()))
                    && none_where(output_names@, vb_pred()) && e@ == no_vb_cable_error())
                ||| (!is_input_choice(input_names@, selection.input_device, has_default_input, Err(no_input_error()))
                    && !none_where(output_names@, vb_pred()) && is_monitor_choice(
                    output_names@,
                    selection.monitor_output_device,
                    *default_output_name,
                    Err(e@),
                ))
            },
        },
{
    let input = choose_input_device(input_names, &selection.input_device, has_default_input);
    let input = match input {
        Ok(c) => c,
        Err(e) => {
            return Err(e);
        },
    };
    let voice_output = match find_vb_cable_playback_device(output_names) {
        Some(i) => i,
        None => {
            return Err(
                owned_string(
                    "VB-Cable was not found. Install VB-Cable, restart the app, then choose 'CABLE Output (VB-Audio Virtual Cable)' as the microphone/input in Discord or your game.",
                ),
            );
        },
    };
    let monitor_output = choose_monitor_output_device(
        output_names,
        &selection.monitor_output_device,
        default_output_name,
    );
    let monitor_output = match monitor_output {
        Ok(c) => c,
        Err(e) => {
            return Err(e);
        },
    };
    Ok(EngineDevices { input, voice_output, monitor_output })
}

/// The infos of the entries that have one, in order; VB-Cable devices left out
/// when `skip_vb_cable` holds.
pub fn device_infos(entries: &Vec<DeviceEntry>, skip_vb_cable: bool) -> (r: Vec<AudioDeviceInfo>)
    ensures
        r@ == infos_of(entries@, skip_vb_cable),
{
    let mut r: Vec<AudioDeviceInfo> = Vec::new();
    let mut i: usize = 0;
    while i < entries.len()
        invariant
            i <= entries@.len(),
            r@ == infos_of(entries@.take(i as int), skip_vb_cable),
        decreases entries@.len() - i,
    {
        assert(entries@.take(i + 1 as int).drop_last() =~= entries@.take(i as int));
        let e = &entries[i];
        let skip = skip_vb_cable && device_is_vb_cable(&e.name);
        if !skip {
            match &e.info {
                Some(info) => {
                    r.push(info.copy());
                },
                None => {},
            }
        }
        i = i + 1;
    }
    assert(entries@.take(entries@.len() as int) =~= entries@);
    r
}

/// The VB-Cable status: the first VB-Cable playback device, with its info.
pub open spec fn vb_cable_status_of(outputs: Seq<DeviceEntry>, r: VbCableStatus) -> bool {
    &&& r.voice_chat_input_name@ == voice_chat_input_name()
    &&& r.installed == (r.playback_device is Some)
    &&& if none_where(names_of(outputs), vb_pred()) {
        r.playback_device is None
    } else {
        exists|i: int| is_first_where(names_of(outputs), vb_pred(), i) && r.playback_device == outputs[i].info
    }
}

/// Whether `r` is the monitor output offered by default: the host's default output
/// unless it is VB-Cable, else the first output that is not VB-Cable; with its info.
pub open spec fn default_monitor_of(outputs: Seq<DeviceEntry>, default_output: Option<DeviceEntry>, r: Option<AudioDeviceInfo>) -> bool {
    if default_output matches Some(d) && !is_vb_cable_device(d.name) {
        r == default_output->0.info
    } else if none_where(names_of(outputs), non_vb_pred()) {
        r is None
    } else {
        exists|i: int| is_first_where(names_of(outputs), non_vb_pred(), i) && r == outputs[i].info
    }
}

fn entry_names(entries: &Vec<DeviceEntry>) -> (r: Vec<Option<String>>)
    ensures
        r@ == names_of(entries@),
{
    let mut r: Vec<Option<String>> = Vec::new();
    let mut i: usize = 0;
    while i < entries.len()
        invariant
            i <= entries@.len(),
            r@ == names_of(entries@).take(i as int),
        decreases entries@.len() - i,
    {
        let n = match &entries[i].name {
            Some(s) => Some(s.clone()),
            None => None,
        };
        r.push(n);
        i = i + 1;
        assert(r@ =~= names_of(entries@).take(i as int));
    }
    r
}

fn copy_info(info: &Option<AudioDeviceInfo>) -> (r: Option<AudioDeviceInfo>)
    ensures
        r == *info,
{
    match info {
        Some(i) => Some(i.copy()),
        None => None,
    }
}

/// The lists of devices to offer: every input device with readable info, every
/// output device with readable info that is not VB-Cable, the VB-Cable status and
/// the monitor output chosen by default.
pub fn audio_device_lists(
    inputs: &Vec<DeviceEntry>,
    outputs: &Vec<DeviceEntry>,
    default_output: &Option<DeviceEntry>,
) -> (r: AudioDeviceLists)
    ensures
        r.inputs@ == infos_of(inputs@, false),
        r.outputs@ == infos_of(outputs@, true),
        vb_cable_status_of(outputs@, r.vb_cable),
        default_monitor_of(outputs@, *default_output, r.monitor_output),
{
    proof {
        reveal_strlit("CABLE Output (VB-Audio Virtual Cable)");
    }
    let input_infos = device_infos(inputs, false);
    let output_infos = device_infos(outputs, true);
    let names = entry_names(outputs);
    let playback_device = match find_vb_cable_playback_device(&names) {
        Some(i) => copy_info(&outputs[i].info),
        None => None,
    };
    let vb_cable = VbCableStatus {
        installed: playback_device.is_some(),
        playback_device,
        voice_chat_input_name: owned_string("CABLE Output (VB-Audio Virtual Cable)"),
    };
    let default_usable = match default_output {
        Some(d) => !device_is_vb_cable(&d.name),
        None => false,
    };
    let monitor_output = if default_usable {
        copy_info(&default_output.as_ref().unwrap().info)
    } else {
        match first_non_vb_cable_output_device(&names) {
            Some(i) => copy_info(&outputs[i].info),
            None => None,
        }
    };
    AudioDeviceLists { inputs: input_infos, outputs: output_infos, vb_cable, monitor_output }
}

/// Clips are never monitored on the VB-Cable device: the monitor output chosen is
/// a listed device that is not VB-Cable, or the host's default output when that is
/// not VB-Cable.
pub proof fn lemma_monitor_never_vb_cable(
    names: Seq<Option<String>>,
    selected: Option<String>,
    default_name: Option<Option<String>>,
    choice: DeviceChoice,
)
    requires
        is_monitor_choice(names, selected, default_name, Ok(choice)),
    ensures
        match choice {
            DeviceChoice::Listed(i) => i < names.len() && !is_vb_cable_device(names[i as int]),
            DeviceChoice::Default => default_name matches Some(d) && !is_vb_cable_device(d),
        },
{
}

/// The outputs offered leave VB-Cable out: each comes, in order, from a device that
/// is not VB-Cable.
pub proof fn lemma_offered_outputs_exclude_vb_cable(entries: Seq<DeviceEntry>)
    ensures
        forall|k: int| 0 <= k < infos_of(entries, true).len() ==> exists|i: int|
            0 <= i < entries.len() && !is_vb_cable_device(entries[i].name) && entries[i].info == Some(
                #[trigger] infos_of(entries, true)[k],
            ),
    decreases entries.len(),
{
    if entries.len() > 0 {
        let rest = entries.drop_last();
        lemma_offered_outputs_exclude_vb_cable(rest);
        let r = infos_of(rest, true);
        assert forall|k: int| 0 <= k < infos_of(entries, true).len() implies exists|i: int|
            0 <= i < entries.len() && !is_vb_cable_device(entries[i].name) && entries[i].info == Some(
                #[trigger] infos_of(entries, true)[k],
            ) by {
            if k < r.len() {
                assert(infos_of(entries, true)[k] == r[k]);
                let i = choose|i: int| 0 <= i < rest.len() && !is_vb_cable_device(rest[i].name) && rest[i].info == Some(r[k]);
                assert(entries[i] == rest[i]);
            } else {
                assert(entries[entries.len() - 1] == entries.last());
            }
        }
    }
}

} // verus!
