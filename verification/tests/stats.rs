use virtual_soundboard::stats::{AudioStats, AudioStatsLog, MAX_AUDIO_STATS_LOG_LINES};

#[test]
fn new_log_is_empty() {
    let log = AudioStatsLog::new();
    assert!(log.is_empty());
    assert!(log.lines().is_empty());
}

#[test]
fn log_keeps_lines_in_order() {
    let mut log = AudioStatsLog::new();
    log.push("$ one".to_string());
    log.push("$ two".to_string());
    assert!(!log.is_empty());
    assert_eq!(log.lines(), vec!["$ one".to_string(), "$ two".to_string()]);
}

#[test]
fn log_keeps_only_the_latest_lines() {
    let mut log = AudioStatsLog::new();
    for i in 0..130 {
        log.push(format!("line {i}"));
    }
    let lines = log.lines();
    assert_eq!(MAX_AUDIO_STATS_LOG_LINES, 120);
    assert_eq!(lines.len(), 120);
    assert_eq!(lines[0], "line 10");
    assert_eq!(lines[119], "line 129");
    let expected: Vec<String> = (10..130).map(|i| format!("line {i}")).collect();
    assert_eq!(lines, expected);
}

#[test]
fn log_at_exactly_the_limit_drops_nothing() {
    let mut log = AudioStatsLog::new();
    for i in 0..120 {
        log.push(format!("{i}"));
    }
    assert_eq!(log.lines().len(), 120);
    assert_eq!(log.lines()[0], "0");
    log.push("120".to_string());
    assert_eq!(log.lines()[0], "1");
    assert_eq!(log.lines().len(), 120);
}

#[test]
fn new_stats_start_at_zero_and_keep_the_log() {
    let mut log = AudioStatsLog::new();
    log.push("$ earlier".to_string());
    let stats = AudioStats::new(log);
    assert_eq!(stats.dropped_input_frames, 0);
    assert_eq!(stats.missing_output_frames, 0);
    assert_eq!(stats.log.lines(), vec!["$ earlier".to_string()]);
}

#[test]
fn report_logs_and_warns_for_each_nonzero_count() {
    let mut stats = AudioStats::new(AudioStatsLog::new());
    stats.add_dropped_input_frames(3);
    stats.add_dropped_input_frames(2);
    stats.add_missing_output_frames(480);
    let warnings = stats.report();
    assert_eq!(
        warnings,
        vec![
            "Dropped 5 input frames. Try increasing LATENCY_MS.".to_string(),
            "Output needed 480 missing frames. Try increasing LATENCY_MS.".to_string(),
        ]
    );
    assert_eq!(
        stats.log.lines(),
        vec![
            "$ warning dropped_input_frames=5".to_string(),
            "$ warning missing_output_frames=480".to_string(),
        ]
    );
    assert_eq!(stats.dropped_input_frames, 0);
    assert_eq!(stats.missing_output_frames, 0);
}

#[test]
fn report_with_only_missing_frames() {
    let mut stats = AudioStats::new(AudioStatsLog::new());
    stats.add_missing_output_frames(7);
    assert_eq!(
        stats.report(),
        vec!["Output needed 7 missing frames. Try increasing LATENCY_MS.".to_string()]
    );
    assert_eq!(stats.log.lines(), vec!["$ warning missing_output_frames=7".to_string()]);
}

#[test]
fn quiet_period_reports_nothing() {
    let mut stats = AudioStats::new(AudioStatsLog::new());
    assert!(stats.report().is_empty());
    assert!(stats.log.is_empty());
    stats.add_dropped_input_frames(0);
    assert!(stats.report().is_empty());
    assert!(stats.log.is_empty());
}

#[test]
fn counters_wrap_like_atomics() {
    let mut stats = AudioStats::new(AudioStatsLog::new());
    stats.add_dropped_input_frames(usize::MAX);
    stats.add_dropped_input_frames(2);
    assert_eq!(stats.dropped_input_frames, 1);
    stats.add_missing_output_frames(usize::MAX);
    stats.add_missing_output_frames(1);
    assert_eq!(stats.missing_output_frames, 0);
    assert_eq!(stats.report(), vec!["Dropped 1 input frames. Try increasing LATENCY_MS.".to_string()]);
}
