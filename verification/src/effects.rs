use vstd::prelude::*;

verus! {

// ---------------------------------------------------------------------
// f32 values, held as their IEEE-754 bit patterns
// ---------------------------------------------------------------------

/// Bits of `80.0f32`, the default high-pass cutoff in Hz.
pub const DEFAULT_HIGH_PASS_CUTOFF_HZ: u32 = 0x42a0_0000;
/// Bits of `12000.0f32`, the default low-pass cutoff in Hz.
pub const DEFAULT_LOW_PASS_CUTOFF_HZ: u32 = 0x463b_8000;
/// Bits of `1.5f32`, the default saturation drive.
pub const DEFAULT_SATURATION_DRIVE: u32 = 0x3fc0_0000;

/// Bits of `20.0f32` and `2000.0f32`: the high-pass cutoff range in Hz.
pub const HIGH_PASS_CUTOFF_MIN: u32 = 0x41a0_0000;
pub const HIGH_PASS_CUTOFF_MAX: u32 = 0x44fa_0000;
/// Bits of `1000.0f32` and `20000.0f32`: the low-pass cutoff range in Hz.
pub const LOW_PASS_CUTOFF_MIN: u32 = 0x447a_0000;
pub const LOW_PASS_CUTOFF_MAX: u32 = 0x469c_4000;
/// Bits of `1.0f32` and `8.0f32`: the saturation drive range.
pub const SATURATION_DRIVE_MIN: u32 = 0x3f80_0000;
pub const SATURATION_DRIVE_MAX: u32 = 0x4100_0000;

/// The sign bit of an f32 bit pattern is set.
pub open spec fn f32_sign(b: u32) -> bool {
    b >= 0x8000_0000
}

/// The f32 bit pattern without its sign bit.
pub open spec fn f32_magnitude(b: u32) -> int {
    if f32_sign(b) {
        b - 0x8000_0000
    } else {
        b as int
    }
}

/// The bit pattern is a NaN: all exponent bits set and a non-zero fraction.
pub open spec fn f32_is_nan(b: u32) -> bool {
    f32_magnitude(b) > 0x7f80_0000
}

/// A number that orders non-NaN f32 bit patterns as their values are ordered
/// (both zeros map to 0).
pub open spec fn f32_order_key(b: u32) -> int {
    if f32_sign(b) {
        -f32_magnitude(b)
    } else {
        f32_magnitude(b)
    }
}

/// The f32 comparison `a < b` on bit patterns: false when either is NaN.
pub open spec fn f32_lt(a: u32, b: u32) -> bool {
    !f32_is_nan(a) && !f32_is_nan(b) && f32_order_key(a) < f32_order_key(b)
}

/// `f32::clamp` on bit patterns: `max` above the range, `min` below it, else the
/// value itself (a NaN stays NaN).
pub open spec fn f32_clamp(v: u32, min: u32, max: u32) -> u32 {
    if f32_lt(v, min) {
        min
    } else if f32_lt(max, v) {
        max
    } else {
        v
    }
}

/// A range `f32::clamp` accepts: neither end NaN and `min <= max`.
pub open spec fn f32_valid_range(min: u32, max: u32) -> bool {
    !f32_is_nan(min) && !f32_is_nan(max) && !f32_lt(max, min)
}

fn f32_bits_magnitude(b: u32) -> (r: u32)
    ensures
        r == f32_magnitude(b),
{
    if b >= 0x8000_0000 {
        b - 0x8000_0000
    } else {
        b
    }
}

fn f32_bits_lt(a: u32, b: u32) -> (r: bool)
    ensures
        r == f32_lt(a, b),
{
    let ma = f32_bits_magnitude(a);
    let mb = f32_bits_magnitude(b);
    if ma > 0x7f80_0000 || mb > 0x7f80_0000 {
        return false;
    }
    let sa = a >= 0x8000_0000;
    let sb = b >= 0x8000_0000;
    if sa && sb {
        mb < ma
    } else if sa && !sb {
        !(ma == 0 && mb == 0)
    } else if !sa && sb {
        false
    } else {
        ma < mb
    }
}

/// `value.clamp(min, max)` for f32 values held as bits.
pub fn clamp_f32_bits(value: u32, min: u32, max: u32) -> (r: u32)
    requires
        f32_valid_range(min, max),
    ensures
        r == f32_clamp(value, min, max),
{
    if f32_bits_lt(value, min) {
        min
    } else if f32_bits_lt(max, value) {
        max
    } else {
        value
    }
}

/// Clamping into a valid range again changes nothing.
pub proof fn lemma_f32_clamp_idempotent(v: u32, min: u32, max: u32)
    requires
        f32_valid_range(min, max),
    ensures
        f32_clamp(f32_clamp(v, min, max), min, max) == f32_clamp(v, min, max),
{
}

/// A value that is not NaN lands inside the range: not below `min`, not above `max`.
pub proof fn lemma_f32_clamp_in_range(v: u32, min: u32, max: u32)
    requires
        f32_valid_range(min, max),
        !f32_is_nan(v),
    ensures
        !f32_lt(f32_clamp(v, min, max), min),
        !f32_lt(max, f32_clamp(v, min, max)),
{
}

// ---------------------------------------------------------------------
// Mic effect settings
// ---------------------------------------------------------------------

/// A first-order filter: whether it runs and its cutoff in Hz (f32 bits).
#[derive(Clone, Copy)]
pub struct FilterConfig {
    pub enabled: bool,
    pub cutoff_hz: u32,
}

/// Soft saturation: whether it runs and its drive (f32 bits).
#[derive(Clone, Copy)]
pub struct SaturationConfig {
    pub enabled: bool,
    pub drive: u32,
}

/// The mic effect settings the front end edits.
#[derive(Clone, Copy)]
pub struct MicEffectsConfig {
    pub high_pass: FilterConfig,
    pub low_pass: FilterConfig,
    pub saturation: SaturationConfig,
}

/// The settings the audio callback reads for one sample.
#[derive(Clone, Copy)]
pub struct MicEffectsSnapshot {
    pub high_pass_enabled: bool,
    pub high_pass_cutoff_hz: u32,
    pub low_pass_enabled: bool,
    pub low_pass_cutoff_hz: u32,
    pub saturation_enabled: bool,
    pub saturation_drive: u32,
}

/// The default settings: every effect off, at its default parameter.
pub open spec fn default_config() -> MicEffectsConfig {
    MicEffectsConfig {
        high_pass: FilterConfig { enabled: false, cutoff_hz: DEFAULT_HIGH_PASS_CUTOFF_HZ },
        low_pass: FilterConfig { enabled: false, cutoff_hz: DEFAULT_LOW_PASS_CUTOFF_HZ },
        saturation: SaturationConfig { enabled: false, drive: DEFAULT_SATURATION_DRIVE },
    }
}

/// The settings with each parameter clamped into its range.
pub open spec fn clamped_config(c: MicEffectsConfig) -> MicEffectsConfig {
    MicEffectsConfig {
        high_pass: FilterConfig {
            enabled: c.high_pass.enabled,
            cutoff_hz: f32_clamp(c.high_pass.cutoff_hz, HIGH_PASS_CUTOFF_MIN, HIGH_PASS_CUTOFF_MAX),
        },
        low_pass: FilterConfig {
            enabled: c.low_pass.enabled,
            cutoff_hz: f32_clamp(c.low_pass.cutoff_hz, LOW_PASS_CUTOFF_MIN, LOW_PASS_CUTOFF_MAX),
        },
        saturation: SaturationConfig {
            enabled: c.saturation.enabled,
            drive: f32_clamp(c.saturation.drive, SATURATION_DRIVE_MIN, SATURATION_DRIVE_MAX),
        },
    }
}

/// The snapshot that shows the settings `c`.
pub open spec fn snapshot_of(c: MicEffectsConfig) -> MicEffectsSnapshot {
    MicEffectsSnapshot {
        high_pass_enabled: c.high_pass.enabled,
        high_pass_cutoff_hz: c.high_pass.cutoff_hz,
        low_pass_enabled: c.low_pass.enabled,
        low_pass_cutoff_hz: c.low_pass.cutoff_hz,
        saturation_enabled: c.saturation.enabled,
        saturation_drive: c.saturation.drive,
    }
}

impl MicEffectsConfig {
    /// The default settings.
    pub fn default() -> (c: MicEffectsConfig)
        ensures
            c == default_config(),
    {
        MicEffectsConfig {
            high_pass: FilterConfig { enabled: false, cutoff_hz: DEFAULT_HIGH_PASS_CUTOFF_HZ },
            low_pass: FilterConfig { enabled: false, cutoff_hz: DEFAULT_LOW_PASS_CUTOFF_HZ },
            saturation: SaturationConfig { enabled: false, drive: DEFAULT_SATURATION_DRIVE },
        }
    }
}

/// The current mic effect settings, as the front end writes them; the audio
/// callback reads copies of them taken with `snapshot`. Every parameter it holds
/// lies in its range.
pub struct SharedMicEffects {
    high_pass_enabled: bool,
    high_pass_cutoff_hz: u32,
    low_pass_enabled: bool,
    low_pass_cutoff_hz: u32,
    saturation_enabled: bool,
    saturation_drive: u32,
}

impl View for SharedMicEffects {
    type V = MicEffectsConfig;

    closed spec fn view(&self) -> MicEffectsConfig {
        MicEffectsConfig {
            high_pass: FilterConfig { enabled: self.high_pass_enabled, cutoff_hz: self.high_pass_cutoff_hz },
            low_pass: FilterConfig { enabled: self.low_pass_enabled, cutoff_hz: self.low_pass_cutoff_hz },
            saturation: SaturationConfig { enabled: self.saturation_enabled, drive: self.saturation_drive },
        }
    }
}

impl SharedMicEffects {
    #[verifier::type_invariant]
    closed spec fn in_range(self) -> bool {
        clamped_config(self@) == self@
    }

    /// The default settings.
    pub fn new() -> (effects: Self)
        ensures
            effects@ == clamped_config(default_config()),
            effects@ == default_config(),
    {
        let mut effects = SharedMicEffects {
            high_pass_enabled: false,
            high_pass_cutoff_hz: DEFAULT_HIGH_PASS_CUTOFF_HZ,
            low_pass_enabled: false,
            low_pass_cutoff_hz: DEFAULT_LOW_PASS_CUTOFF_HZ,
            saturation_enabled: false,
            saturation_drive: DEFAULT_SATURATION_DRIVE,
        };
        effects.set_config(MicEffectsConfig::default());
        effects
    }

    /// The current settings.
    pub fn config(&self) -> (c: MicEffectsConfig)
        ensures
            c == self@,
            clamped_config(c) == c,
    {
        proof {
            use_type_invariant(self);
        }
        MicEffectsConfig {
            high_pass: FilterConfig { enabled: self.high_pass_enabled, cutoff_hz: self.high_pass_cutoff_hz },
            low_pass: FilterConfig { enabled: self.low_pass_enabled, cutoff_hz: self.low_pass_cutoff_hz },
            saturation: SaturationConfig { enabled: self.saturation_enabled, drive: self.saturation_drive },
        }
    }

    /// Takes on `config`, each parameter clamped into its range.
    pub fn set_config(&mut self, config: MicEffectsConfig)
        ensures
            final(self)@ == clamped_config(config),
            final(self)@.high_pass.enabled == config.high_pass.enabled,
            final(self)@.low_pass.enabled == config.low_pass.enabled,
            final(self)@.saturation.enabled == config.saturation.enabled,
    {
        proof {
            use_type_invariant(&*self);
        }
        self.high_pass_enabled = config.high_pass.enabled;
        self.high_pass_cutoff_hz = clamp_f32_bits(
            config.high_pass.cutoff_hz,
            HIGH_PASS_CUTOFF_MIN,
            HIGH_PASS_CUTOFF_MAX,
        );
        self.low_pass_enabled = config.low_pass.enabled;
        self.low_pass_cutoff_hz = clamp_f32_bits(
            config.low_pass.cutoff_hz,
            LOW_PASS_CUTOFF_MIN,
            LOW_PASS_CUTOFF_MAX,
        );
        self.saturation_enabled = config.saturation.enabled;
        self.saturation_drive = clamp_f32_bits(
            config.saturation.drive,
            SATURATION_DRIVE_MIN,
            SATURATION_DRIVE_MAX,
        );
    }

    /// The settings for the audio callback.
    pub fn snapshot(&self) -> (s: MicEffectsSnapshot)
        ensures
            s == snapshot_of(self@),
    {
        MicEffectsSnapshot {
            high_pass_enabled: self.high_pass_enabled,
            high_pass_cutoff_hz: self.high_pass_cutoff_hz,
            low_pass_enabled: self.low_pass_enabled,
            low_pass_cutoff_hz: self.low_pass_cutoff_hz,
            saturation_enabled: self.saturation_enabled,
            saturation_drive: self.saturation_drive,
        }
    }
}

/// Clamped settings are their own clamp, so writing back the settings just read
/// (which `config` shows are clamped) changes nothing.
pub proof fn lemma_set_config_of_config_is_identity(c: MicEffectsConfig)
    ensures
        clamped_config(clamped_config(c)) == clamped_config(c),
{
    lemma_f32_clamp_idempotent(c.high_pass.cutoff_hz, HIGH_PASS_CUTOFF_MIN, HIGH_PASS_CUTOFF_MAX);
    lemma_f32_clamp_idempotent(c.low_pass.cutoff_hz, LOW_PASS_CUTOFF_MIN, LOW_PASS_CUTOFF_MAX);
    lemma_f32_clamp_idempotent(c.saturation.drive, SATURATION_DRIVE_MIN, SATURATION_DRIVE_MAX);
}

/// How a parameter is taken on: kept when it lies in `[min, max]`, raised to `min`
/// below it, lowered to `max` above it.
pub open spec fn clamps_into(v: u32, min: u32, max: u32, r: u32) -> bool {
    &&& (!f32_lt(v, min) && !f32_lt(max, v) ==> r == v)
    &&& (f32_lt(v, min) ==> r == min)
    &&& (f32_lt(max, v) ==> r == max)
}

/// Taking on settings keeps every effect switched on or off exactly as given, and
/// moves each numeric parameter only into its own range: the high-pass cutoff into
/// 20 to 2000 Hz, the low-pass cutoff into 1000 to 20000 Hz and the drive into 1 to 8.
pub proof fn lemma_settings_taken_as_given(c: MicEffectsConfig)
    ensures
        clamped_config(c).high_pass.enabled == c.high_pass.enabled,
        clamped_config(c).low_pass.enabled == c.low_pass.enabled,
        clamped_config(c).saturation.enabled == c.saturation.enabled,
        clamps_into(c.high_pass.cutoff_hz, HIGH_PASS_CUTOFF_MIN, HIGH_PASS_CUTOFF_MAX, clamped_config(c).high_pass.cutoff_hz),
        clamps_into(c.low_pass.cutoff_hz, LOW_PASS_CUTOFF_MIN, LOW_PASS_CUTOFF_MAX, clamped_config(c).low_pass.cutoff_hz),
        clamps_into(c.saturation.drive, SATURATION_DRIVE_MIN, SATURATION_DRIVE_MAX, clamped_config(c).saturation.drive),
{
}

/// The default settings lie in their ranges: taking them on keeps them as they are.
pub proof fn lemma_default_config_in_range()
    ensures
        clamped_config(default_config()) == default_config(),
{
}

} // verus!
