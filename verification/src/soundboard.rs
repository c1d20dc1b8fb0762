use vstd::prelude::*;
use std::collections::HashMap;
use crate::clips::{
    clip_import_record_for_path, clip_import_record_from_parts, file_name_facts, import_parts, is_import_outcome,
    is_import_result, opt_str_view, is_stored_file_of_clip, opt_view, record_result_view,
    stores_clip, ClipRecord,
};
use crate::effects::{clamped_config, default_config, snapshot_of, MicEffectsConfig, MicEffectsSnapshot, SharedMicEffects};
use crate::hotkeys::HotkeyTarget;
use crate::stats::{
    counter_add, latest_lines, lemma_log_push_all_latest, log_push, log_push_all, stats_log_lines, stats_warnings,
    AudioStats, AudioStatsLog, MAX_AUDIO_STATS_LOG_LINES,
};
use crate::table::ClipTable;
use crate::text::{owned_string, chars_of, string_from_chars};

verus! {

broadcast use vstd::std_specs::hash::group_hash_axioms;

/// What the front end is told of the backend.
pub struct SoundboardStatus {
    pub engine_running: bool,
    pub clips_dir: String,
    pub clip_count: usize,
}

/// What playing a clip sends: the running engine to send it to, the decoded clip,
/// whether the clip boost applies and whether the monitor output plays it too.
pub struct ClipPlayback<'a, E, C> {
    pub engine: &'a E,
    pub clip: &'a C,
    pub boost: bool,
    pub monitor: bool,
}

/// The state of the soundboard: the running audio engine (`E`) and mic test (`M`),
/// the decoded clips (`C`) by id, the hotkeys by shortcut id with their volumes
/// (`V`), the playback options, the mic effects and the audio stats with their log.
pub struct Soundboard<E, M, C, V> {
    run: EngineLog<E>,
    mic_test: Option<M>,
    clips: ClipTable<C>,
    clips_dir: String,
    hotkeys: HashMap<u32, HotkeyTarget<V>>,
    clip_boost_enabled: bool,
    monitor_clip_playback: bool,
    mic_effects: SharedMicEffects,
}

/// The running engine with the stats and their log. The log is never empty while
/// the engine runs: starting it logs a line.
struct EngineLog<E> {
    engine: Option<E>,
    stats: AudioStats,
}

impl<E> EngineLog<E> {
    #[verifier::type_invariant]
    closed spec fn logged_while_running(self) -> bool {
        self.engine is Some ==> self.stats.log@.len() > 0
    }

    /// Hands out the parts, leaving a stopped engine with an empty log in place.
    fn take_parts(&mut self) -> (r: (Option<E>, AudioStats))
        ensures
            r.0 == old(self).engine,
            r.1 == old(self).stats,
            r.0 is Some ==> r.1.log@.len() > 0,
    {
        proof {
            use_type_invariant(&*self);
        }
        let mut taken = EngineLog { engine: None, stats: AudioStats::new(AudioStatsLog::new()) };
        std::mem::swap(&mut taken, self);
        proof {
            use_type_invariant(&taken);
        }
        let EngineLog { engine, stats } = taken;
        (engine, stats)
    }
}

/// The log line written when the engine starts starting.
pub open spec fn starting_line() -> Seq<char> {
    "$ audio engine starting"@
}

/// The log line written when the stats logger is set up.
pub open spec fn logger_line() -> Seq<char> {
    "$ audio stats logger initialized"@
}

/// The log line written when the engine runs.
pub open spec fn running_line() -> Seq<char> {
    "$ audio engine running"@
}

/// The log line written when the engine starts stopping.
pub open spec fn stopping_line() -> Seq<char> {
    "$ audio engine stopping"@
}

/// The log line written when the engine has stopped (and shown for an empty log).
pub open spec fn stopped_line() -> Seq<char> {
    "$ audio engine stopped"@
}

/// The error when a clip is played with the engine stopped.
pub open spec fn engine_stopped_error() -> Seq<char> {
    "Start the audio engine before playing clips"@
}

/// The error when the clip to play was never loaded.
pub open spec fn clip_not_loaded_error() -> Seq<char> {
    "Clip has not been loaded"@
}

impl<E, M, C, V> Soundboard<E, M, C, V> {
    /// Whether the audio engine runs.
    pub closed spec fn engine_running(&self) -> bool {
        self.run.engine is Some
    }

    /// The running engine.
    pub closed spec fn engine(&self) -> E {
        self.run.engine->0
    }

    /// Whether the mic test runs.
    pub closed spec fn mic_test_running(&self) -> bool {
        self.mic_test is Some
    }

    /// The decoded clips by id.
    pub closed spec fn clips(&self) -> Map<Seq<char>, C> {
        self.clips@
    }

    /// The directory imported clips are copied to.
    pub closed spec fn clips_dir(&self) -> Seq<char> {
        self.clips_dir@
    }

    /// The hotkeys by shortcut id.
    pub closed spec fn hotkeys(&self) -> Map<u32, HotkeyTarget<V>> {
        self.hotkeys@
    }

    /// Whether played clips are boosted.
    pub closed spec fn clip_boost(&self) -> bool {
        self.clip_boost_enabled
    }

    /// Whether played clips also go to the monitor output.
    pub closed spec fn monitor_playback(&self) -> bool {
        self.monitor_clip_playback
    }

    /// The mic effect settings.
    pub closed spec fn effects(&self) -> MicEffectsConfig {
        self.mic_effects@
    }

    /// The rolling stats log.
    pub closed spec fn log(&self) -> Seq<Seq<char>> {
        self.run.stats.log@
    }

    /// The counts of the stats period under way: dropped input frames and
    /// missing output frames.
    pub closed spec fn pending_counts(&self) -> (usize, usize) {
        (self.run.stats.dropped_input_frames, self.run.stats.missing_output_frames)
    }

    /// A stopped soundboard for clips kept in `clips_dir`: no clips or hotkeys
    /// yet, no clip boost, clips heard on the monitor output, default effects and
    /// an empty log.
    pub fn new(clips_dir: String) -> (s: Self)
        ensures
            !s.engine_running(),
            !s.mic_test_running(),
            s.clips() == Map::<Seq<char>, C>::empty(),
            s.clips_dir() == clips_dir@,
            s.hotkeys() == Map::<u32, HotkeyTarget<V>>::empty(),
            !s.clip_boost(),
            s.monitor_playback(),
            s.effects() == default_config(),
            s.log() == Seq::<Seq<char>>::empty(),
            s.pending_counts() == (0usize, 0usize),
    {
        Soundboard {
            run: EngineLog { engine: None, stats: AudioStats::new(AudioStatsLog::new()) },
            mic_test: None,
            clips: ClipTable::new(),
            clips_dir,
            hotkeys: HashMap::new(),
            clip_boost_enabled: false,
            monitor_clip_playback: true,
            mic_effects: SharedMicEffects::new(),
        }
    }

    /// Whether the audio engine runs.
    pub fn is_engine_running(&self) -> (r: bool)
        ensures
            r == self.engine_running(),
    {
        self.run.engine.is_some()
    }

    /// Logs that the engine is starting; the caller starts it next.
    pub fn begin_engine_start(&mut self)
        requires
            !old(self).engine_running(),
        ensures
            final(self).log() == log_push(old(self).log(), starting_line()),
            !final(self).engine_running(),
            final(self).same_except_log(*old(self)),
    {
        let (engine, mut stats) = self.run.take_parts();
        stats.log.push(owned_string("$ audio engine starting"));
        self.run = EngineLog { engine, stats };
    }

    /// Logs that the stats logger of the starting engine is set up.
    pub fn note_stats_logger_initialized(&mut self)
        ensures
            final(self).log() == log_push(old(self).log(), logger_line()),
            final(self).engine_running() == old(self).engine_running(),
            final(self).same_except_log(*old(self)),
    {
        let (engine, mut stats) = self.run.take_parts();
        stats.log.push(owned_string("$ audio stats logger initialized"));
        self.run = EngineLog { engine, stats };
    }

    /// Keeps the started engine and logs that it runs.
    pub fn attach_engine(&mut self, engine: E)
        requires
            !old(self).engine_running(),
        ensures
            final(self).engine_running(),
            final(self).engine() == engine,
            final(self).log() == log_push(old(self).log(), running_line()),
            final(self).same_except_log(*old(self)),
    {
        let (_, mut stats) = self.run.take_parts();
        stats.log.push(owned_string("$ audio engine running"));
        self.run = EngineLog { engine: Some(engine), stats };
    }

    /// Stops the engine (dropping it stops its streams); logs the stop when it ran.
    pub fn stop_audio_engine(&mut self)
        ensures
            !final(self).engine_running(),
            old(self).engine_running() ==> final(self).log() == log_push(
                log_push(old(self).log(), stopping_line()),
                stopped_line(),
            ),
            !old(self).engine_running() ==> final(self).log() == old(self).log(),
            old(self).engine_running() ==> final(self).log() == latest_lines(
                old(self).log() + seq![stopping_line(), stopped_line()],
            ),
            final(self).same_except_log(*old(self)),
    {
        if self.run.engine.is_some() {
            let (_, mut stats) = self.run.take_parts();
            let ghost before = stats.log@;
            stats.log.push(owned_string("$ audio engine stopping"));
            stats.log.push(owned_string("$ audio engine stopped"));
            proof {
                let added = seq![stopping_line(), stopped_line()];
                lemma_log_push_all_latest(before, added);
                assert(added.drop_last() =~= seq![stopping_line()]);
                assert(seq![stopping_line()].drop_last() =~= Seq::<Seq<char>>::empty());
            }
            self.run = EngineLog { engine: None, stats };
        }
    }

    /// Everything but the engine and the log is as in `other`.
    pub closed spec fn same_except_log(&self, other: Self) -> bool {
        &&& self.mic_test_running() == other.mic_test_running()
        &&& self.clips() == other.clips()
        &&& self.clips_dir() == other.clips_dir()
        &&& self.hotkeys() == other.hotkeys()
        &&& self.clip_boost() == other.clip_boost()
        &&& self.monitor_playback() == other.monitor_playback()
        &&& self.effects() == other.effects()
        &&& self.pending_counts() == other.pending_counts()
    }

    /// The clips directory, the hotkeys, the playback options and the mic
    /// effects are as in `other`.
    pub closed spec fn same_settings(&self, other: Self) -> bool {
        &&& self.clips_dir() == other.clips_dir()
        &&& self.hotkeys() == other.hotkeys()
        &&& self.clip_boost() == other.clip_boost()
        &&& self.monitor_playback() == other.monitor_playback()
        &&& self.effects() == other.effects()
    }

    /// The engine, the log and the counts of the stats period are as in `other`.
    pub closed spec fn same_engine(&self, other: Self) -> bool {
        &&& self.run.engine == other.run.engine
        &&& self.log() == other.log()
        &&& self.pending_counts() == other.pending_counts()
    }

    /// Everything but the settings is as in `other`.
    pub closed spec fn same_runtime(&self, other: Self) -> bool {
        &&& self.same_engine(other)
        &&& self.mic_test == other.mic_test
        &&& self.clips() == other.clips()
    }

    /// Whether the mic test runs.
    pub fn is_mic_test_running(&self) -> (r: bool)
        ensures
            r == self.mic_test_running(),
    {
        self.mic_test.is_some()
    }

    /// Keeps the started mic test.
    pub fn attach_mic_test(&mut self, mic_test: M)
        requires
            !old(self).mic_test_running(),
        ensures
            final(self).mic_test_running(),
            final(self).mic_test() == Some(mic_test),
            final(self).engine_running() == old(self).engine_running(),
            final(self).log() == old(self).log(),
            final(self).clips() == old(self).clips(),
            final(self).same_engine(*old(self)),
            final(self).same_settings(*old(self)),
    {
        self.mic_test = Some(mic_test);
    }

    /// The running mic test.
    pub closed spec fn mic_test(&self) -> Option<M> {
        self.mic_test
    }

    /// Stops the mic test (dropping it stops its stream).
    pub fn stop_mic_test(&mut self)
        ensures
            !final(self).mic_test_running(),
            final(self).engine_running() == old(self).engine_running(),
            final(self).log() == old(self).log(),
            final(self).clips() == old(self).clips(),
            final(self).same_engine(*old(self)),
            final(self).same_settings(*old(self)),
    {
        self.mic_test = None;
    }

    /// The running mic test, whose level the caller reads (`0` when none runs).
    pub fn running_mic_test(&self) -> (r: Option<&M>)
        ensures
            r is Some <==> self.mic_test_running(),
            r matches Some(m) ==> self.mic_test() == Some(*m),
    {
        self.mic_test.as_ref()
    }

    /// Whether a clip with this id is loaded.
    pub fn has_clip(&self, clip_id: &str) -> (r: bool)
        ensures
            r == self.clips().contains_key(clip_id@),
    {
        self.clips.contains(clip_id)
    }

    /// Keeps a decoded clip under `clip_id`, replacing any clip kept under it.
    pub fn add_clip(&mut self, clip_id: String, clip: C)
        ensures
            final(self).clips() == old(self).clips().insert(clip_id@, clip),
            final(self).engine_running() == old(self).engine_running(),
            final(self).log() == old(self).log(),
            final(self).hotkeys() == old(self).hotkeys(),
            final(self).same_engine(*old(self)),
            final(self).mic_test() == old(self).mic_test(),
            final(self).same_settings(*old(self)),
    {
        self.clips.insert(clip_id, clip);
    }

    /// Forgets the clip kept under `clip_id`; its files are removed by the caller.
    pub fn remove_clip(&mut self, clip_id: &str)
        ensures
            final(self).clips() == old(self).clips().remove(clip_id@),
            final(self).engine_running() == old(self).engine_running(),
            final(self).log() == old(self).log(),
            final(self).hotkeys() == old(self).hotkeys(),
            final(self).same_engine(*old(self)),
            final(self).mic_test() == old(self).mic_test(),
            final(self).same_settings(*old(self)),
    {
        self.clips.remove(clip_id);
    }

    /// Forgets the clip kept under `clip_id` and tells, for the name of each file
    /// found in the clips directory (missing when it is not valid text), whether
    /// that file stores the clip; the caller removes those files.
    pub fn delete_clip(&mut self, clip_id: &str, stored_file_names: &Vec<Option<String>>) -> (r: Vec<bool>)
        ensures
            final(self).clips() == old(self).clips().remove(clip_id@),
            final(self).engine_running() == old(self).engine_running(),
            final(self).log() == old(self).log(),
            final(self).hotkeys() == old(self).hotkeys(),
            final(self).same_engine(*old(self)),
            final(self).mic_test() == old(self).mic_test(),
            final(self).same_settings(*old(self)),
            r@.len() == stored_file_names@.len(),
            forall|i: int|
                #![trigger r@[i]]
                0 <= i < r@.len() ==> r@[i] == stores_clip(opt_view(stored_file_names@[i]), clip_id@),
    {
        self.clips.remove(clip_id);
        let mut r: Vec<bool> = Vec::new();
        let mut i: usize = 0;
        while i < stored_file_names.len()
            invariant
                i <= stored_file_names@.len(),
                r@.len() == i,
                forall|k: int|
                    #![trigger r@[k]]
                    0 <= k < i ==> r@[k] == stores_clip(opt_view(stored_file_names@[k]), clip_id@),
            decreases stored_file_names@.len() - i,
        {
            let name = match &stored_file_names[i] {
                Some(n) => Some(n.as_str()),
                None => None,
            };
            let stored = is_stored_file_of_clip(name, clip_id);
            r.push(stored);
            i = i + 1;
        }
        r
    }

    /// The directory imported clips are copied to.
    pub fn clips_directory(&self) -> (r: &str)
        ensures
            r@ == self.clips_dir(),
    {
        self.clips_dir.as_str()
    }

    /// The record a clip imported from `source_path` at `timestamp` (milliseconds
    /// since the epoch) gets, or why it cannot be imported; the caller copies and
    /// decodes the file, then keeps the clip with `add_clip`.
    pub fn plan_import(&self, source_path: &str, timestamp: u128) -> (r: Result<ClipRecord, String>)
        ensures
            exists|n: Option<Seq<char>>| file_name_facts(source_path@, n) && is_import_outcome(
                n,
                self.clips_dir(),
                timestamp as nat,
                record_result_view(r),
            ),
    {
        clip_import_record_for_path(source_path, self.clips_dir.as_str(), timestamp)
    }

    /// The record a clip imported from a file whose path is not valid text gets, from
    /// the stem and extension of that path where they are valid text; or why it
    /// cannot be imported.
    pub fn plan_import_parts(&self, stem: Option<&str>, extension: Option<&str>, timestamp: u128) -> (r: Result<
        ClipRecord,
        String,
    >)
        ensures
            is_import_result(
                import_parts(opt_str_view(stem), opt_str_view(extension), timestamp as nat),
                self.clips_dir(),
                record_result_view(r),
            ),
    {
        clip_import_record_from_parts(stem, extension, self.clips_dir.as_str(), timestamp)
    }

    /// The clip that playing `clip_id` sends, or why it cannot be played: the
    /// engine must run and the clip be loaded.
    pub open spec fn play_result(&self, clip_id: Seq<char>) -> Result<C, Seq<char>> {
        if !self.engine_running() {
            Err(engine_stopped_error())
        } else if !self.clips().contains_key(clip_id) {
            Err(clip_not_loaded_error())
        } else {
            Ok(self.clips()[clip_id])
        }
    }

    /// What to send to play the clip `clip_id`: the engine, the clip and the
    /// playback options; or why it cannot be played.
    pub fn play_clip(&self, clip_id: &str) -> (r: Result<ClipPlayback<'_, E, C>, String>)
        ensures
            match r {
                Ok(p) => self.play_result(clip_id@) == Ok::<C, Seq<char>>(*p.clip),
                Err(e) => self.play_result(clip_id@) == Err::<C, Seq<char>>(e@),
            },
            match r {
                Ok(p) => {
                    &&& self.engine_running()
                    &&& self.clips().contains_key(clip_id@)
                    &&& *p.engine == self.engine()
                    &&& *p.clip == self.clips()[clip_id@]
                    &&& p.boost == self.clip_boost()
                    &&& p.monitor == self.monitor_playback()
                },
                Err(e) => if !self.engine_running() {
                    e@ == engine_stopped_error()
                } else {
                    !self.clips().contains_key(clip_id@) && e@ == clip_not_loaded_error()
                },
            },
    {
        let engine = match self.run.engine.as_ref() {
            Some(e) => e,
            None => {
                return Err(owned_string("Start the audio engine before playing clips"));
            },
        };
        let clip = match self.clips.get(clip_id) {
            Some(c) => c,
            None => {
                return Err(owned_string("Clip has not been loaded"));
            },
        };
        Ok(
            ClipPlayback {
                engine,
                clip,
                boost: self.clip_boost_enabled,
                monitor: self.monitor_clip_playback,
            },
        )
    }

    /// What to send for the hotkey with shortcut id `hotkey_id`, with the volume it
    /// was bound with: nothing for an unknown hotkey, else as `play_clip` for its clip.
    pub fn play_hotkey(&self, hotkey_id: u32) -> (r: Result<Option<(ClipPlayback<'_, E, C>, &V)>, String>)
        ensures
            !self.hotkeys().contains_key(hotkey_id) ==> r matches Ok(None),
            self.hotkeys().contains_key(hotkey_id) ==> {
                let t = self.hotkeys()[hotkey_id];
                match r {
                    Ok(Some((p, v))) => {
                        &&& *v == t.volume
                        &&& self.engine_running()
                        &&& self.clips().contains_key(t.clip_id@)
                        &&& *p.engine == self.engine()
                        &&& *p.clip == self.clips()[t.clip_id@]
                        &&& p.boost == self.clip_boost()
                        &&& p.monitor == self.monitor_playback()
                    },
                    Ok(None) => false,
                    Err(e) => if !self.engine_running() {
                        e@ == engine_stopped_error()
                    } else {
                        !self.clips().contains_key(t.clip_id@) && e@ == clip_not_loaded_error()
                    },
                }
            },
    {
        let target = match self.hotkeys.get(&hotkey_id) {
            Some(t) => t,
            None => {
                return Ok(None);
            },
        };
        match self.play_clip(target.clip_id.as_str()) {
            Ok(p) => Ok(Some((p, &target.volume))),
            Err(e) => Err(e),
        }
    }

    /// Sets whether played clips are boosted.
    pub fn set_clip_boost_enabled(&mut self, enabled: bool)
        ensures
            final(self).clip_boost() == enabled,
            final(self).monitor_playback() == old(self).monitor_playback(),
            final(self).clips_dir() == old(self).clips_dir(),
            final(self).hotkeys() == old(self).hotkeys(),
            final(self).effects() == old(self).effects(),
            final(self).same_runtime(*old(self)),
            final(self).engine_running() == old(self).engine_running(),
            final(self).clips() == old(self).clips(),
            final(self).log() == old(self).log(),
    {
        self.clip_boost_enabled = enabled;
    }

    /// Sets whether played clips also go to the monitor output.
    pub fn set_monitor_clip_playback(&mut self, enabled: bool)
        ensures
            final(self).monitor_playback() == enabled,
            final(self).clip_boost() == old(self).clip_boost(),
            final(self).clips_dir() == old(self).clips_dir(),
            final(self).hotkeys() == old(self).hotkeys(),
            final(self).effects() == old(self).effects(),
            final(self).same_runtime(*old(self)),
            final(self).engine_running() == old(self).engine_running(),
            final(self).clips() == old(self).clips(),
            final(self).log() == old(self).log(),
    {
        self.monitor_clip_playback = enabled;
    }

    /// The mic effect settings.
    pub fn mic_effects_config(&self) -> (c: MicEffectsConfig)
        ensures
            c == self.effects(),
            clamped_config(c) == c,
    {
        self.mic_effects.config()
    }

    /// Takes on new mic effect settings, each parameter clamped into its range.
    pub fn set_mic_effects_config(&mut self, config: MicEffectsConfig)
        ensures
            final(self).effects() == clamped_config(config),
            final(self).effects().high_pass.enabled == config.high_pass.enabled,
            final(self).effects().low_pass.enabled == config.low_pass.enabled,
            final(self).effects().saturation.enabled == config.saturation.enabled,
            final(self).clips_dir() == old(self).clips_dir(),
            final(self).hotkeys() == old(self).hotkeys(),
            final(self).clip_boost() == old(self).clip_boost(),
            final(self).monitor_playback() == old(self).monitor_playback(),
            final(self).same_runtime(*old(self)),
            final(self).engine_running() == old(self).engine_running(),
            final(self).clips() == old(self).clips(),
            final(self).log() == old(self).log(),
    {
        self.mic_effects.set_config(config);
    }

    /// The mic effect settings for the audio callback.
    pub fn mic_effects_snapshot(&self) -> (s: MicEffectsSnapshot)
        ensures
            s == snapshot_of(self.effects()),
    {
        self.mic_effects.snapshot()
    }

    /// Replaces the hotkeys.
    pub fn set_hotkeys(&mut self, hotkeys: HashMap<u32, HotkeyTarget<V>>)
        ensures
            final(self).hotkeys() == hotkeys@,
            final(self).clips_dir() == old(self).clips_dir(),
            final(self).clip_boost() == old(self).clip_boost(),
            final(self).monitor_playback() == old(self).monitor_playback(),
            final(self).effects() == old(self).effects(),
            final(self).same_runtime(*old(self)),
            final(self).engine_running() == old(self).engine_running(),
            final(self).clips() == old(self).clips(),
            final(self).log() == old(self).log(),
    {
        self.hotkeys = hotkeys;
    }

    /// What the front end is told: whether the engine runs, the clips directory and
    /// how many clips are loaded.
    pub fn status(&self) -> (s: SoundboardStatus)
        ensures
            s.engine_running == self.engine_running(),
            s.clips_dir@ == self.clips_dir(),
            s.clip_count == self.clips().len(),
    {
        SoundboardStatus {
            engine_running: self.run.engine.is_some(),
            clips_dir: self.clips_dir.clone(),
            clip_count: self.clips.len(),
        }
    }

    /// The stats log lines to show, oldest first; an empty log shows as stopped.
    pub fn audio_stats_log(&self) -> (r: Vec<String>)
        ensures
            self.log().len() == 0 ==> r@.map_values(|s: String| s@) == seq![stopped_line()],
            self.log().len() > 0 ==> r@.map_values(|s: String| s@) == self.log(),
            self.log().len() <= MAX_AUDIO_STATS_LOG_LINES,
            self.engine_running() ==> self.log().len() > 0,
    {
        proof {
            use_type_invariant(&self.run);
        }
        if self.run.stats.log.is_empty() {
            let mut r: Vec<String> = Vec::new();
            r.push(owned_string("$ audio engine stopped"));
            assert(r@.map_values(|s: String| s@) =~= seq![stopped_line()]);
            r
        } else {
            self.run.stats.log.lines()
        }
    }

    /// Closes one stats period in which `dropped` more input frames were dropped and
    /// `missing` more output frames were missing: logs a warning line for each
    /// non-zero count of the period and returns the console warnings to print.
    pub fn record_audio_stats(&mut self, dropped: usize, missing: usize) -> (warnings: Vec<String>)
        ensures
            ({
                let d = counter_add(old(self).pending_counts().0, dropped) as nat;
                let m = counter_add(old(self).pending_counts().1, missing) as nat;
                &&& final(self).log() == log_push_all(old(self).log(), stats_log_lines(d, m))
                &&& warnings@.map_values(|s: String| s@) == stats_warnings(d, m)
            }),
            old(self).pending_counts() == (0usize, 0usize) ==> final(self).log() == log_push_all(
                old(self).log(),
                stats_log_lines(dropped as nat, missing as nat),
            ),
            final(self).pending_counts() == (0usize, 0usize),
            final(self).engine_running() == old(self).engine_running(),
            final(self).clips() == old(self).clips(),
            final(self).mic_test() == old(self).mic_test(),
            final(self).same_settings(*old(self)),
    {
        let (engine, mut stats) = self.run.take_parts();
        stats.add_dropped_input_frames(dropped);
        stats.add_missing_output_frames(missing);
        let ghost before = stats.log@;
        let warnings = stats.report();
        proof {
            let d = stats_log_lines(counter_add(old(self).pending_counts().0, dropped) as nat, counter_add(old(self).pending_counts().1, missing) as nat);
            lemma_log_push_all_latest(before, d);
        }
        self.run = EngineLog { engine, stats };
        warnings
    }
}

/// A clip kept under `clip_id` (as `add_clip` leaves the clips) is what playing
/// `clip_id` sends while the engine runs.
pub proof fn lemma_added_clip_plays<E, M, C, V>(
    before: Soundboard<E, M, C, V>,
    after: Soundboard<E, M, C, V>,
    clip_id: Seq<char>,
    clip: C,
)
    requires
        after.clips() == before.clips().insert(clip_id, clip),
        after.engine_running(),
    ensures
        after.play_result(clip_id) == Ok::<C, Seq<char>>(clip),
{
}

/// Once the clip under `clip_id` is forgotten (as `remove_clip` leaves the clips),
/// playing `clip_id` reports that it is not loaded while the engine runs; other
/// clips play as before.
pub proof fn lemma_removed_clip_does_not_play<E, M, C, V>(
    before: Soundboard<E, M, C, V>,
    after: Soundboard<E, M, C, V>,
    clip_id: Seq<char>,
    other: Seq<char>,
)
    requires
        after.clips() == before.clips().remove(clip_id),
        after.engine_running() == before.engine_running(),
        other != clip_id,
    ensures
        after.engine_running() ==> after.play_result(clip_id) == Err::<C, Seq<char>>(clip_not_loaded_error()),
        after.play_result(other) == before.play_result(other),
{
}

/// With the engine stopped nothing plays: every clip reports that the engine must
/// be started first.
pub proof fn lemma_stopped_engine_plays_nothing<E, M, C, V>(board: Soundboard<E, M, C, V>, clip_id: Seq<char>)
    requires
        !board.engine_running(),
    ensures
        board.play_result(clip_id) == Err::<C, Seq<char>>(engine_stopped_error()),
{
}

} // verus!
