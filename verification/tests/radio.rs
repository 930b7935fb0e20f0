use thugsrf::cli::{
    changes_settings, configured, inherit_session, scan_frequencies, Action, Cli, ConfigAction, ScanError,
};
use thugsrf::config::{Config, ConfigError};
use thugsrf::radio::{
    capture_complete, capture_plan, command, confirm_transmit, keep_tail, playback_seconds,
    recording_format_of, recording_sidecar, replay_plan, RadioError,
};
use thugsrf::json::Json;

#[test]
fn receive_commands_for_each_device() {
    let c = Config::default();
    let (program, args) = command(&c, "-", Some(10)).unwrap();
    assert_eq!(program, "hackrf_transfer");
    assert_eq!(args, vec!["-r", "-", "-f", "433920000", "-s", "8000000", "-l", "16", "-g", "20", "-n", "10"]);
    let mut c = Config::default();
    c.device = "rtl".into();
    c.sample_rate = 2_400_000;
    c.rtl_gain = 205;
    c.serial = "0001".into();
    let (program, args) = command(&c, "out.cu8", None).unwrap();
    assert_eq!(program, "rtl_sdr");
    assert_eq!(args, vec!["-f", "433920000", "-s", "2400000", "-g", "20.5", "-d", "0001", "out.cu8"]);
    let mut c = Config::default();
    c.device = "audio".into();
    c.sample_rate = 48_000;
    let (program, args) = command(&c, "-", Some(96_000)).unwrap();
    assert_eq!(program, "arecord");
    assert_eq!(
        args,
        vec!["-q", "-D", "default", "-t", "raw", "-f", "S16_LE", "-c", "1", "-r", "48000", "-d", "2", "-"]
    );
    let mut c = Config::default();
    c.device = "demo".into();
    assert_eq!(command(&c, "-", None), Err(RadioError::Demo));
    let mut c = Config::default();
    c.lna_gain = 3;
    assert_eq!(command(&c, "-", None), Err(RadioError::Invalid(ConfigError::LnaGain)));
}

#[test]
fn recordings_are_planned_and_checked() {
    let c = Config::default();
    assert_eq!(capture_plan(&c, 0).err(), Some(RadioError::Duration));
    let plan = capture_plan(&c, 5).unwrap();
    assert_eq!(plan.count, 40_000_000);
    assert_eq!(plan.program, "hackrf_transfer");
    let mut c = Config::default();
    c.device = "audio".into();
    c.sample_rate = 48_000;
    let plan = capture_plan(&c, 3).unwrap();
    assert_eq!(plan.program, "arecord");
    assert_eq!(plan.args.last().unwrap(), "-");
    assert!(plan.args.contains(&"wav".to_string()));
    assert!(capture_complete(80, 40));
    assert!(!capture_complete(79, 40));
    assert_eq!(recording_format_of("rtl"), "cu8");
    assert_eq!(recording_format_of("hackrf"), "cs8");
}

#[test]
fn replay_needs_a_hackrf_and_a_sane_file() {
    let c = Config::default();
    let plan = replay_plan(&c, 10, 16_000_000).unwrap();
    assert_eq!(plan.args, vec!["-f", "433920000", "-s", "8000000", "-x", "10", "-a", "0"]);
    assert_eq!(plan.seconds, 16);
    assert_eq!(replay_plan(&c, 48, 2).err(), Some(RadioError::Gain));
    assert_eq!(replay_plan(&c, 0, 3).err(), Some(RadioError::Length));
    assert_eq!(replay_plan(&c, 0, 0).err(), Some(RadioError::Length));
    assert_eq!(replay_plan(&c, 0, 16_000_000 * 3601).err(), Some(RadioError::TooLong));
    let mut rtl = Config::default();
    rtl.device = "rtl".into();
    rtl.sample_rate = 2_400_000;
    assert_eq!(replay_plan(&rtl, 0, 2).err(), Some(RadioError::NotHackrf));
    assert_eq!(playback_seconds(48_000 * 60, 48_000), Ok(75));
    assert_eq!(playback_seconds(48_000 * 3601, 48_000), Err(RadioError::Playback));
}

#[test]
fn diagnostics_keep_only_their_tail() {
    let mut tail = vec![1u8; 8000];
    keep_tail(&mut tail, &[2u8; 300]);
    assert_eq!(tail.len(), 8192);
    assert_eq!(tail[0], 1);
    assert_eq!(tail[8191], 2);
    assert_eq!(tail.iter().filter(|b| **b == 2).count(), 300);
    let mut short = vec![7u8];
    keep_tail(&mut short, &[8]);
    assert_eq!(short, vec![7, 8]);
}

#[test]
fn command_line_overrides_saved_settings() {
    let cli = Cli { device: Some("rtl".into()), frequency: Some(100_000_000), sample_rate: None, command: None };
    let c = configured(&cli, Config::default()).unwrap();
    assert_eq!(c.device, "rtl");
    assert_eq!(c.frequency, 100_000_000);
    assert_eq!(c.sample_rate, 2_400_000);
    let cli = Cli { device: None, frequency: Some(7_000_000_000), sample_rate: None, command: None };
    assert_eq!(configured(&cli, Config::default()).err(), Some(ConfigError::HackrfFrequency));
}

#[test]
fn scans_visit_each_step_up_to_the_end() {
    assert_eq!(scan_frequencies("hackrf", 100, 130, 10).unwrap(), vec![100, 110, 120, 130]);
    assert_eq!(scan_frequencies("rtl", 100, 125, 10).unwrap(), vec![100, 110, 120]);
    assert_eq!(scan_frequencies("audio", 1, 2, 1), Err(ScanError::NeedsRadio));
    assert_eq!(scan_frequencies("hackrf", 2, 1, 1), Err(ScanError::Range));
    assert_eq!(scan_frequencies("hackrf", 1, 2, 0), Err(ScanError::Range));
    assert_eq!(scan_frequencies("hackrf", 0, 1000, 1), Err(ScanError::TooMany));
    assert_eq!(scan_frequencies("hackrf", 0, 999, 1).unwrap().len(), 1000);
}

#[test]
fn workbench_commands_inherit_the_session_receiver() {
    let mut session = Config::default();
    session.device = "rtl".into();
    session.frequency = 100_000_000;
    session.sample_rate = 2_400_000;
    let mut cli = Cli { device: None, frequency: None, sample_rate: None, command: Some(Action::Doctor) };
    inherit_session(&mut cli, &session);
    assert_eq!(cli.device.as_deref(), Some("rtl"));
    assert_eq!(cli.frequency, Some(100_000_000));
    assert_eq!(cli.sample_rate, Some(2_400_000));
    assert!(!changes_settings(&cli));
    let mut chosen = Cli { device: Some("hackrf".into()), frequency: Some(5), sample_rate: None, command: None };
    inherit_session(&mut chosen, &session);
    assert_eq!(chosen.device.as_deref(), Some("hackrf"));
    assert_eq!(chosen.frequency, Some(5));
    assert_eq!(chosen.sample_rate, None);
    let update = Cli {
        device: None,
        frequency: None,
        sample_rate: None,
        command: Some(Action::Config { action: Some(ConfigAction::Update { key: "a".into(), value: "b".into() }) }),
    };
    assert!(changes_settings(&update));
}

#[test]
fn every_transmission_needs_its_confirmation() {
    assert_eq!(confirm_transmit(true), Ok(()));
    assert_eq!(confirm_transmit(false), Err(RadioError::Unconfirmed));
    assert_eq!(
        RadioError::Unconfirmed.message(),
        "RF transmission requires --confirm-tx; use a suitable test load or your authorized RF setup"
    );
}

#[test]
fn recordings_get_a_metadata_sidecar() {
    let mut c = Config::default();
    c.device = "rtl".into();
    c.sample_rate = 2_400_000;
    c.frequency = 100_000_000;
    let (extension, doc) = recording_sidecar(&c, 4096);
    assert_eq!(extension, "sigmf-meta");
    let global = Json::Object(vec![
        ("core:datatype".into(), Json::Text("cu8".into())),
        ("core:sample_rate".into(), Json::Number("2400000".into())),
        ("core:version".into(), Json::Text("1.2.5".into())),
        ("core:description".into(), Json::Text("THUGS(red) RF recording".into())),
        ("thugsrf:format".into(), Json::Text("cu8".into())),
    ]);
    let capture = Json::Object(vec![
        ("core:sample_start".into(), Json::Number("0".into())),
        ("core:frequency".into(), Json::Number("100000000".into())),
    ]);
    assert_eq!(
        doc,
        Json::Object(vec![
            ("global".into(), global),
            ("captures".into(), Json::List(vec![capture])),
            ("annotations".into(), Json::List(vec![])),
        ])
    );
    c.device = "hackrf".into();
    let (extension, doc) = recording_sidecar(&c, 1);
    assert_eq!(extension, "sigmf-meta");
    match doc {
        Json::Object(f) => match &f[0].1 {
            Json::Object(g) => assert_eq!(g[0].1, Json::Text("ci8".into())),
            _ => panic!("global is an object"),
        },
        _ => panic!("sidecar is an object"),
    }
    c.device = "audio".into();
    c.sample_rate = 48_000;
    let (extension, doc) = recording_sidecar(&c, 96_000);
    assert_eq!(extension, "wav.json");
    assert_eq!(
        doc,
        Json::Object(vec![
            ("format".into(), Json::Text("wav".into())),
            ("sample_rate".into(), Json::Number("48000".into())),
            ("channels".into(), Json::Number("1".into())),
            ("source".into(), Json::Text("audio".into())),
            ("bytes".into(), Json::Number("96000".into())),
        ])
    );
}
