use thugsrf::codec::{
    check_demod_mode, check_encode, check_encoding_mode, decode_kind, demod_rates, ook_symbol,
    pulse_runs, CodecError, DecodeKind,
};
use thugsrf::config::Config;
use thugsrf::dsp::{check_iq, fft_length, DspError};
use thugsrf::paths::{config_dir, data_dir, join, log_dir, stale_logs};
use thugsrf::storage::{history, HistoryRow};
use thugsrf::survey::{sweep_args, sweep_bins, SurveyError, SweepCoverage};
use thugsrf::view::{
    column_bins, cycle_mode, digit_panel, next_fft_size, next_panel, previous_panel, tuned,
    visible_range, zoom_level,
};

#[test]
fn directories_follow_the_xdg_variables() {
    let home = Some("/home/op".to_string());
    assert_eq!(config_dir(&None, &home), "/home/op/.config/thugsrf");
    assert_eq!(data_dir(&None, &home), "/home/op/.local/share/thugsrf");
    assert_eq!(log_dir(&Some("/xdg".into()), &home), "/xdg/thugsrf/logs");
    assert_eq!(config_dir(&Some("relative".into()), &None), "./.config/thugsrf");
    assert_eq!(join("/a/", "b"), "/a/b");
    assert_eq!(join("/a", "/b"), "/b");
}

#[test]
fn only_the_twenty_newest_logs_of_a_kind_stay() {
    let mut names: Vec<String> = (0..25).map(|i| format!("audio-{}.log", 1000 + i)).collect();
    names.push("capture-1.log".into());
    names.insert(0, "notes.txt".into());
    let stale = stale_logs(&names, "audio");
    assert_eq!(stale, vec![1, 2, 3, 4, 5]);
    assert!(stale_logs(&names, "capture").is_empty());
}

#[test]
fn pruning_one_kind_leaves_kinds_that_share_its_prefix() {
    let mut names: Vec<String> = (0..25).map(|i| format!("a-b-{}.log", 1000 + i)).collect();
    names.extend((0..3).map(|i| format!("a-{}.log", 2000 + i)));
    names.push("a-.log".into());
    names.push("a-12x.log".into());
    assert!(stale_logs(&names, "a").is_empty());
    assert_eq!(stale_logs(&names, "a-b"), vec![0, 1, 2, 3, 4]);
}

#[test]
fn history_lines_are_aligned() {
    let rows = vec![
        HistoryRow { id: 12, created: "2026-01-02 03:04:05".into(), source: "a.cs8".into() },
        HistoryRow { id: 123456, created: "t".into(), source: "b".into() },
    ];
    assert_eq!(history(&rows), "#12    2026-01-02 03:04:05  a.cs8\n#123456 t  b");
    assert_eq!(history(&vec![]), "");
}

#[test]
fn encoding_requests_are_checked() {
    assert_eq!(check_encode("1011", 48000, 1200), Ok(40));
    assert_eq!(check_encode("", 48000, 1200), Err(CodecError::Bits));
    assert_eq!(check_encode("10x1", 48000, 1200), Err(CodecError::Bits));
    assert_eq!(check_encode("1", 100, 1200), Err(CodecError::Rate));
    assert_eq!(check_encode(&"1".repeat(100_000), 20_000_000, 1), Err(CodecError::TooLong));
    assert_eq!(check_encoding_mode("afsk", 4000), Err(CodecError::AfskRate));
    assert_eq!(check_encoding_mode("ook", 1), Ok(()));
    assert_eq!(check_encoding_mode("psk", 48000), Err(CodecError::EncodeMode));
    assert_eq!(check_demod_mode("ssb"), Err(CodecError::DemodMode));
    assert_eq!(demod_rates(2_000_000), Ok((41, 48_780)));
    assert_eq!(demod_rates(48_000), Ok((1, 48_000)));
    assert_eq!(demod_rates(47_999), Err(CodecError::DemodRate));
    assert_eq!(ook_symbol(true, 2), vec![90, 0, 90, 0]);
    assert_eq!(ook_symbol(false, 1), vec![0, 0]);
    assert_eq!(decode_kind("fsk"), Ok(DecodeKind::Fsk));
    assert_eq!(decode_kind("rds"), Ok(DecodeKind::Rds));
    assert_eq!(decode_kind("qam").unwrap_err().message(), "builtin decoder must be ook, fsk or rds; use addon run for protocol addons");
}

#[test]
fn envelope_pulses_are_runs_of_equal_levels() {
    assert_eq!(
        pulse_runs(&vec![true, true, false, true, true, true]),
        vec![(true, 2), (false, 1), (true, 3)]
    );
    assert!(pulse_runs(&vec![]).is_empty());
    let alternating: Vec<bool> = (0..20_005).map(|i| i % 2 == 0).collect();
    let pulses = pulse_runs(&alternating);
    assert_eq!(pulses.len(), 10_000);
    assert_eq!(pulses[9_999], (false, 1));
}

#[test]
fn spectrum_sizes() {
    assert_eq!(fft_length(8192, 100_000), Ok(8192));
    assert_eq!(fft_length(8192, 1000), Ok(512));
    assert_eq!(fft_length(256, 256), Ok(256));
    assert_eq!(fft_length(8192, 255), Err(DspError::TooShort));
    assert_eq!(check_iq("cs8", 4), Ok(()));
    assert_eq!(check_iq("wav", 4), Err(DspError::Format));
    assert_eq!(check_iq("cu8", 3), Err(DspError::Truncated));
}

#[test]
fn survey_command_and_coverage() {
    assert_eq!(sweep_bins(1, 6000, 1_000_000), 5999);
    assert_eq!(sweep_bins(1, 2, 300_000), 4);
    let mut c = Config::default();
    c.sweep_start_mhz = 100;
    c.sweep_end_mhz = 200;
    c.serial = "abc".into();
    let args = sweep_args(&c).unwrap();
    assert_eq!(
        args,
        vec![
            "-f", "100:200", "-w", "1000000", "-l", "16", "-g", "20", "-a", "0", "-p", "0", "-n",
            "-P", "estimate", "-d", "abc"
        ]
    );
    c.device = "rtl".into();
    assert_eq!(sweep_args(&c), Err(SurveyError::NotHackrf));
    let mut cov = SweepCoverage::new(4);
    cov.begin_row("2026-01-01 00:00:00");
    cov.mark(1);
    cov.mark(3);
    cov.mark(9);
    assert_eq!(cov.covered(), 2);
    assert_eq!(cov.measured[1], Some(1));
    cov.begin_row("2026-01-01 00:00:00");
    assert_eq!(cov.covered(), 2);
    cov.begin_row("2026-01-01 00:00:01");
    assert_eq!(cov.passes, 1);
    assert_eq!(cov.covered(), 0);
    cov.mark(1);
    assert_eq!(cov.measured[1], Some(2));
    assert_eq!(cov.measured[3], Some(1));
}

#[test]
fn navigation_keys() {
    assert_eq!(next_panel(9), 0);
    assert_eq!(previous_panel(0), 9);
    assert_eq!(digit_panel('3'), Some(2));
    assert_eq!(digit_panel('0'), None);
    assert_eq!(zoom_level(1, 8192, true), 2);
    assert_eq!(zoom_level(1024, 8192, true), 1024);
    assert_eq!(zoom_level(1, 8192, false), 1);
    assert_eq!(zoom_level(4, 16, true), 2);
    assert_eq!(cycle_mode("nfm"), ("fm", 50000));
    assert_eq!(cycle_mode("am"), ("nfm", 12500));
    assert_eq!(next_fft_size(8192), 32768);
    assert_eq!(next_fft_size(65536), 2048);
    assert_eq!(tuned(100, 50, false), Some(50));
    assert_eq!(tuned(u64::MAX, 1, true), None);
}

#[test]
fn waterfall_preserves_thin_peaks_and_zoomed_edges() {
    let column = 4097 * 80 / 8192;
    let (lo, hi) = column_bins(0, 8192, column, 80);
    assert!((lo..hi).contains(&4097));
    for column in 0..80 {
        let (lo, hi) = column_bins(4094, 4102, column, 80);
        assert!((4094..4102).contains(&lo) && hi > lo && hi <= 4102);
    }
}

#[test]
fn zoomed_windows_and_column_spans() {
    assert_eq!(visible_range(8192, 2, 4097), (2049, 6145));
    assert_eq!(visible_range(8192, 2, 8192), (4096, 8192));
    assert_eq!(visible_range(8192, 2, 0), (0, 4096));
    let (first, end) = visible_range(8192, 100, 4097);
    assert_eq!((first, end), (4057, 4138));
    assert_eq!(visible_range(8192, 1, 0), (0, 8192));
    assert_eq!(visible_range(8192, 100, 8192), (8111, 8192));
    assert_eq!(column_bins(0, 8192, 0, 80), (0, 102));
    assert_eq!(column_bins(0, 8192, 79, 80), (8089, 8192));
    assert_eq!(column_bins(0, 10, 5, 80), (0, 1));
    assert_eq!(column_bins(4094, 4102, 200, 80), (4101, 4102));
    assert_eq!(visible_range(0, 4, 10), (0, 0));
    assert_eq!(visible_range(5, 1, 3), (0, 5));
    let top = usize::MAX;
    assert_eq!(column_bins(top - 8, top, 0, 8), (top - 8, top - 7));
    assert_eq!(column_bins(top - 8, top, 7, 8), (top - 1, top));
    assert_eq!(column_bins(7, 7, 0, 8), (7, 7));
}

#[test]
fn detections_are_maximal_runs_inside_the_spectrum() {
    let above = vec![true, true, false, true, true, false, false, true, true];
    assert_eq!(thugsrf::dsp::threshold_runs(&above), vec![(1, 2), (3, 5), (7, 8)]);
    assert!(thugsrf::dsp::threshold_runs(&vec![true]).is_empty());
    assert!(thugsrf::dsp::threshold_runs(&vec![false, false, false]).is_empty());
    assert_eq!(thugsrf::dsp::threshold_runs(&vec![false, true, true, true]), vec![(1, 3)]);
}

#[test]
fn the_history_opens_with_the_newest_report() {
    let rows = vec![
        HistoryRow { id: 7, created: "2026-02-01 10:00:00".into(), source: "new.cs8".into() },
        HistoryRow { id: 3, created: "2026-01-01 10:00:00".into(), source: "old.cs8".into() },
    ];
    let text = history(&rows);
    let first = text.lines().next().unwrap();
    assert!(first.starts_with("#7     "));
    assert!(first.ends_with("new.cs8"));
    assert_eq!(text.lines().count(), 2);
}
