use std::collections::VecDeque;
use thugsrf::live::{
    append, clean, entry_prefix, live_format, no_decoder_notice, result_lines, tap_samples,
    wav_samples, DecoderReply, Tap,
};

#[test]
fn raw_tap_preserves_contiguous_samples_across_uneven_blocks() {
    let tap = Tap { samples: 4 };
    let mut pending = Vec::new();
    let first = tap.push(&[0, 1, 2, 3, 4], &mut pending, true);
    assert!(first.is_empty());
    let second = tap.push(&[5, 6, 7, 8, 9], &mut pending, true);
    assert_eq!(second.last().unwrap(), &vec![0, 1, 2, 3, 4, 5, 6, 7]);
    let third = tap.push(&[10, 11, 12, 13, 14, 15], &mut pending, true);
    assert_eq!(third.last().unwrap(), &vec![8, 9, 10, 11, 12, 13, 14, 15]);
}

#[test]
fn tap_drops_the_partial_window_when_nothing_listens() {
    let tap = Tap { samples: 2 };
    let mut pending = vec![1, 2, 3];
    assert!(tap.push(&[4, 5, 6], &mut pending, false).is_empty());
    assert!(pending.is_empty());
    let blocks = tap.push(&[1, 2, 3, 4, 5, 6, 7, 8, 9], &mut pending, true);
    assert_eq!(blocks, vec![vec![1, 2, 3, 4], vec![5, 6, 7, 8]]);
    assert_eq!(pending, vec![9]);
}

#[test]
fn console_bounds_do_not_truncate_the_log_input() {
    let line = "x".repeat(5000);
    assert_eq!(clean(&line).len(), 5000);
    let mut log = VecDeque::new();
    append(&mut log, line);
    assert!(log[0].len() < 3200 && log[0].contains("display shortened"));
}

#[test]
fn console_keeps_the_newest_five_hundred_entries_first() {
    let mut log = VecDeque::new();
    for i in 0..600 {
        append(&mut log, format!("entry {i}"));
    }
    assert_eq!(log.len(), 500);
    assert_eq!(log[0], "entry 599");
    assert_eq!(log[499], "entry 100");
    assert_eq!(clean("a\u{7}b\nc"), "abc");
}

fn reply(error: Option<&str>, events: Option<Vec<&str>>, diagnostics: Option<&str>, text: &str) -> DecoderReply {
    DecoderReply {
        error: error.map(String::from),
        events: events.map(|v| v.into_iter().map(String::from).collect()),
        diagnostics: diagnostics.map(String::from),
        text: text.into(),
    }
}

#[test]
fn live_output_distinguishes_events_errors_and_empty_windows() {
    assert!(result_lines(&reply(None, Some(vec![]), None, "{\"events\":[]}"))[0].contains("No messages"));
    assert!(result_lines(&reply(Some("\"missing atest\""), None, None, "{\"error\":\"missing atest\"}"))[0]
        .contains("ERROR"));
    assert!(result_lines(&reply(
        None,
        Some(vec!["{\"mmsi\":\"123456789\"}"]),
        None,
        "{\"events\":[{\"mmsi\":\"123456789\"}]}"
    ))[0]
        .contains("123456789"));
}

#[test]
fn live_output_lines_in_detail() {
    assert_eq!(
        result_lines(&reply(None, Some(vec![]), None, "")),
        vec!["No messages recovered in this window"]
    );
    assert_eq!(
        result_lines(&reply(None, Some(vec![]), Some(" weak carrier "), "")),
        vec!["No messages · weak carrier"]
    );
    assert_eq!(
        result_lines(&reply(None, Some(vec!["a", "b"]), Some("snr 3"), "")),
        vec!["a", "b", "diagnostics: snr 3"]
    );
    assert_eq!(result_lines(&reply(Some("\"x\""), Some(vec!["a"]), None, "")), vec!["ERROR: \"x\""]);
    assert_eq!(result_lines(&reply(None, None, None, "{\"ok\":1}")), vec!["{\"ok\":1}"]);
}

#[test]
fn entries_carry_time_frequency_and_decoder() {
    assert_eq!(entry_prefix(3_723, 433_920_000, "rtl433"), "[01:02:03 UTC · 433.920000 MHz · rtl433]");
    assert_eq!(entry_prefix(86_400 + 59, 1, "ais"), "[00:00:59 UTC · 0.000001 MHz · ais]");
}

#[test]
fn live_formats_follow_the_device() {
    assert_eq!(live_format("rtl"), Some("cu8"));
    assert_eq!(live_format("audio"), Some("wav"));
    assert_eq!(live_format("hackrf"), Some("cs8"));
    assert_eq!(live_format("demo"), None);
    assert_eq!(tap_samples(8_000_000), 8_000_000);
    assert_eq!(tap_samples(2_400_000), 4_800_000);
    assert_eq!(tap_samples(48_000), 96_000);
    assert_eq!(
        no_decoder_notice("cu8"),
        "No enabled decoders accept cu8; enable a compatible decoder in Addons (4)"
    );
}

#[test]
fn audio_windows_become_little_endian_samples() {
    assert_eq!(wav_samples(&[0x01, 0x00, 0xff, 0xff, 0x00, 0x80, 0xff, 0x7f, 0x05]), vec![1, -1, -32768, 32767]);
    assert!(wav_samples(&[]).is_empty());
}

#[test]
fn the_console_prefix_repeats_every_day() {
    for t in [0u64, 3_723, 86_399, 1_700_000_000] {
        assert_eq!(entry_prefix(t + 86_400, 145_252_000, "rds"), entry_prefix(t, 145_252_000, "rds"));
    }
    assert_eq!(entry_prefix(1_700_000_000, 145_252_000, "rds"), "[22:13:20 UTC · 145.252000 MHz · rds]");
}
