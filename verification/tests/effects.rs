use virtual_soundboard::effects::{
    clamp_f32_bits, FilterConfig, MicEffectsConfig, SaturationConfig, SharedMicEffects,
    DEFAULT_HIGH_PASS_CUTOFF_HZ, DEFAULT_LOW_PASS_CUTOFF_HZ, DEFAULT_SATURATION_DRIVE,
    HIGH_PASS_CUTOFF_MAX, HIGH_PASS_CUTOFF_MIN, LOW_PASS_CUTOFF_MAX, LOW_PASS_CUTOFF_MIN,
    SATURATION_DRIVE_MAX, SATURATION_DRIVE_MIN,
};

fn config(hp: f32, lp: f32, drive: f32) -> MicEffectsConfig {
    MicEffectsConfig {
        high_pass: FilterConfig { enabled: true, cutoff_hz: hp.to_bits() },
        low_pass: FilterConfig { enabled: false, cutoff_hz: lp.to_bits() },
        saturation: SaturationConfig { enabled: true, drive: drive.to_bits() },
    }
}

#[test]
fn constants_are_the_documented_values() {
    assert_eq!(f32::from_bits(DEFAULT_HIGH_PASS_CUTOFF_HZ), 80.0);
    assert_eq!(f32::from_bits(DEFAULT_LOW_PASS_CUTOFF_HZ), 12_000.0);
    assert_eq!(f32::from_bits(DEFAULT_SATURATION_DRIVE), 1.5);
    assert_eq!(f32::from_bits(HIGH_PASS_CUTOFF_MIN), 20.0);
    assert_eq!(f32::from_bits(HIGH_PASS_CUTOFF_MAX), 2_000.0);
    assert_eq!(f32::from_bits(LOW_PASS_CUTOFF_MIN), 1_000.0);
    assert_eq!(f32::from_bits(LOW_PASS_CUTOFF_MAX), 20_000.0);
    assert_eq!(f32::from_bits(SATURATION_DRIVE_MIN), 1.0);
    assert_eq!(f32::from_bits(SATURATION_DRIVE_MAX), 8.0);
}

#[test]
fn default_settings_have_every_effect_off() {
    let c = MicEffectsConfig::default();
    assert!(!c.high_pass.enabled && !c.low_pass.enabled && !c.saturation.enabled);
    assert_eq!(c.high_pass.cutoff_hz, DEFAULT_HIGH_PASS_CUTOFF_HZ);
    assert_eq!(c.low_pass.cutoff_hz, DEFAULT_LOW_PASS_CUTOFF_HZ);
    assert_eq!(c.saturation.drive, DEFAULT_SATURATION_DRIVE);
    let shared = SharedMicEffects::new();
    let read = shared.config();
    assert_eq!(read.high_pass.cutoff_hz, DEFAULT_HIGH_PASS_CUTOFF_HZ);
    assert!(!read.saturation.enabled);
}

#[test]
fn clamp_bits_agrees_with_f32_clamp() {
    let values = [
        0.0f32, -0.0, 1.0, -1.0, 0.5, 19.999, 20.0, 80.0, 2_000.0, 2_000.001, 1e9, -1e9,
        f32::INFINITY, f32::NEG_INFINITY, f32::MIN_POSITIVE, f32::MAX, f32::MIN, 1e-40,
    ];
    let ranges = [(20.0f32, 2_000.0f32), (1_000.0, 20_000.0), (1.0, 8.0), (-5.0, 5.0), (-0.0, 0.0), (3.0, 3.0)];
    for (lo, hi) in ranges {
        for v in values {
            let got = clamp_f32_bits(v.to_bits(), lo.to_bits(), hi.to_bits());
            assert_eq!(got, v.clamp(lo, hi).to_bits(), "{v} in [{lo}, {hi}]");
        }
        let nan = clamp_f32_bits(f32::NAN.to_bits(), lo.to_bits(), hi.to_bits());
        assert!(f32::from_bits(nan).is_nan());
    }
}

#[test]
fn settings_are_clamped_into_their_ranges() {
    let mut shared = SharedMicEffects::new();
    shared.set_config(config(5.0, 50_000.0, 0.2));
    let c = shared.config();
    assert!(c.high_pass.enabled && !c.low_pass.enabled && c.saturation.enabled);
    assert_eq!(f32::from_bits(c.high_pass.cutoff_hz), 20.0);
    assert_eq!(f32::from_bits(c.low_pass.cutoff_hz), 20_000.0);
    assert_eq!(f32::from_bits(c.saturation.drive), 1.0);

    shared.set_config(config(150.0, 8_000.0, 3.25));
    let c = shared.config();
    assert_eq!(f32::from_bits(c.high_pass.cutoff_hz), 150.0);
    assert_eq!(f32::from_bits(c.low_pass.cutoff_hz), 8_000.0);
    assert_eq!(f32::from_bits(c.saturation.drive), 3.25);

    shared.set_config(config(-1.0, f32::INFINITY, 9.0));
    let c = shared.config();
    assert_eq!(f32::from_bits(c.high_pass.cutoff_hz), 20.0);
    assert_eq!(f32::from_bits(c.low_pass.cutoff_hz), 20_000.0);
    assert_eq!(f32::from_bits(c.saturation.drive), 8.0);
}

#[test]
fn writing_back_what_was_read_changes_nothing() {
    let mut shared = SharedMicEffects::new();
    shared.set_config(config(5.0, 4_000.0, 100.0));
    let first = shared.config();
    shared.set_config(first);
    let second = shared.config();
    assert_eq!(first.high_pass.cutoff_hz, second.high_pass.cutoff_hz);
    assert_eq!(first.low_pass.cutoff_hz, second.low_pass.cutoff_hz);
    assert_eq!(first.saturation.drive, second.saturation.drive);
    assert_eq!(first.high_pass.enabled, second.high_pass.enabled);
}

#[test]
fn snapshot_shows_the_settings() {
    let mut shared = SharedMicEffects::new();
    shared.set_config(config(100.0, 5_000.0, 2.0));
    let s = shared.snapshot();
    assert!(s.high_pass_enabled && !s.low_pass_enabled && s.saturation_enabled);
    assert_eq!(f32::from_bits(s.high_pass_cutoff_hz), 100.0);
    assert_eq!(f32::from_bits(s.low_pass_cutoff_hz), 5_000.0);
    assert_eq!(f32::from_bits(s.saturation_drive), 2.0);
}
