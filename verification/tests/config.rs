use thugsrf::config::{parse_frequency, Config, ConfigError, FrequencyError, SetError};

#[test]
fn frequency_units_and_precision() {
    for (s, hz) in [
        ("443mhz", 443000000),
        ("145.252Mhz", 145252000),
        (" 500 kHz ", 500000),
        ("6GHz", 6000000000),
        ("433920000", 433920000),
        ("0.000001MHz", 1),
        ("1.00000000000000000000Hz", 1),
    ] {
        assert_eq!(parse_frequency(s).unwrap(), hz);
    }
    for s in [
        "",
        "-1MHz",
        "NaN",
        "1.1Hz",
        "1.2.3MHz",
        "18446744073709551615GHz",
        "1e6",
    ] {
        assert!(parse_frequency(s).is_err(), "{s}");
    }
}

#[test]
fn frequency_errors_name_their_cause() {
    assert_eq!(parse_frequency("1.1Hz"), Err(FrequencyError::NotWholeHz));
    assert_eq!(parse_frequency("1.2.3MHz"), Err(FrequencyError::Format));
    assert_eq!(parse_frequency("18446744073709551615GHz"), Err(FrequencyError::Overflow));
    assert_eq!(parse_frequency("99999999999999999999999"), Err(FrequencyError::WholeTooLarge));
    assert_eq!(parse_frequency("0.00000000000000000001hz"), Err(FrequencyError::Precision));
    assert_eq!(parse_frequency("."), Err(FrequencyError::Format));
    assert_eq!(parse_frequency("12."), Ok(12));
    assert_eq!(parse_frequency("\u{3000}7 GHZ\t"), Ok(7_000_000_000));
    assert_eq!(parse_frequency("18446744073709551615"), Ok(u64::MAX));
    assert_eq!(parse_frequency("18446744073709551616"), Err(FrequencyError::WholeTooLarge));
}

#[test]
fn settings_validate_atomically_and_default_old_configs() {
    let mut c = Config::default();
    c.frequency = 433920000;
    assert_eq!(c.fine_tune_hz, 500000);
    assert_eq!(c.coarse_tune_hz, 10000000);
    c.set("frequency", "145.252Mhz").unwrap();
    c.set("fine_tune_hz", "12.5kHz").unwrap();
    assert_eq!(c.frequency, 145252000);
    assert_eq!(c.fine_tune_hz, 12500);
    assert!(c.set("frequency", "7GHz").is_err());
    assert_eq!(c.frequency, 145252000);
    assert!(c.set("fine_tune_hz", "0Hz").is_err());
    assert_eq!(c.fine_tune_hz, 12500);
}

#[test]
fn default_configuration_is_valid() {
    let c = Config::default();
    assert_eq!(c.validate(), Ok(()));
    assert_eq!(c.device, "hackrf");
    assert_eq!(c.threshold_db_bits, 12.0f32.to_bits());
    assert_eq!(c.squelch_dbfs_bits, (-65.0f32).to_bits());
}

#[test]
fn validation_reports_the_first_broken_rule() {
    let mut c = Config::default();
    c.fine_tune_hz = 0;
    c.device = "nope".into();
    assert_eq!(c.validate(), Err(ConfigError::TuningSteps));
    let mut c = Config::default();
    c.device = "nope".into();
    assert_eq!(c.validate(), Err(ConfigError::Device));
    let mut c = Config::default();
    c.fft_size = 1000;
    assert_eq!(c.validate(), Err(ConfigError::FftSize));
    let mut c = Config::default();
    c.threshold_db_bits = 101.0f32.to_bits();
    assert_eq!(c.validate(), Err(ConfigError::Threshold));
    c.threshold_db_bits = f32::NAN.to_bits();
    assert_eq!(c.validate(), Err(ConfigError::Threshold));
    let mut c = Config::default();
    c.squelch_dbfs_bits = 1.0f32.to_bits();
    assert_eq!(c.validate(), Err(ConfigError::Squelch));
    let mut c = Config::default();
    c.device = "rtl".into();
    c.frequency = 20_000_000;
    c.sample_rate = 2_400_000;
    assert_eq!(c.validate(), Err(ConfigError::RtlFrequency));
    let mut c = Config::default();
    c.ai_provider = "other".into();
    assert_eq!(c.validate(), Err(ConfigError::AiProvider));
}

#[test]
fn settings_report_why_they_refuse() {
    let mut c = Config::default();
    assert_eq!(c.set("nonsense", "1"), Err(SetError::UnknownSetting));
    assert_eq!(c.set("lna_gain", "abc"), Err(SetError::InvalidInteger));
    assert_eq!(c.set("lna_gain", "-8"), Err(SetError::OutOfRange));
    assert_eq!(c.set("lna_gain", "12"), Err(SetError::Invalid(ConfigError::LnaGain)));
    assert_eq!(c.set("threshold_db", "20"), Err(SetError::NeedsFloat));
    assert_eq!(c.set("frequency", "1.2.3MHz"), Err(SetError::Frequency(FrequencyError::Format)));
    assert_eq!(c.set_float_bits("lna_gain", 0), Err(SetError::NotFloat));
    assert_eq!(c.lna_gain, Config::default().lna_gain);
    c.set("lna_gain", "16").unwrap();
    assert_eq!(c.lna_gain, 16);
    c.set_float_bits("threshold_db", 20.0f32.to_bits()).unwrap();
    assert_eq!(c.threshold_db_bits, 20.0f32.to_bits());
    c.set("device", "rtl").unwrap();
    assert_eq!(c.device, "rtl");
    assert_eq!(c.sample_rate, 2_400_000);
    c.set("listen_mode", "wfm").unwrap();
    assert_eq!(c.listen_mode, "wfm");
    assert_eq!(c.set("listen_mode", "ssb"), Err(SetError::Invalid(ConfigError::ListenMode)));
    assert_eq!(c.listen_mode, "wfm");
}

#[test]
fn error_messages_match_the_workbench() {
    assert_eq!(ConfigError::LnaGain.message(), "HackRF LNA gain must be 0..40 in steps of 8");
    assert_eq!(FrequencyError::Overflow.message(), "frequency overflow");
}

#[test]
fn frequency_case_does_not_matter() {
    for s in ["145.252MHZ", "500 KHZ", "6ghz", "1.5Hz", "12X"] {
        assert_eq!(parse_frequency(s), parse_frequency(&s.to_lowercase()), "{s}");
    }
}

#[test]
fn spaces_around_the_text_and_before_the_unit_are_optional() {
    for (spaced, plain) in [
        ("145.5 MHz", "145.5MHz"),
        ("  145.5mhz\t", "145.5mhz"),
        ("2.4 ghz", "2.4ghz"),
        ("500 khz", "500khz"),
        ("10 hz", "10hz"),
        (" 1.1 hz ", "1.1hz"),
    ] {
        assert_eq!(parse_frequency(spaced), parse_frequency(plain), "{spaced}");
    }
    assert_eq!(parse_frequency("145.5 MHz"), Ok(145_500_000));
    assert_eq!(parse_frequency("\t  145.5   MhZ \n "), parse_frequency("145.5mhz"));
    assert_eq!(parse_frequency("  2.4\t\tGHZ"), Ok(2_400_000_000));
    for (spaced, plain) in [("12x   kHz", "12xkHz"), ("1.5 \t Hz", "1.5Hz"), ("  hz", "hz"), ("3g khz", "3gkhz")] {
        assert_eq!(parse_frequency(spaced), parse_frequency(plain), "{spaced}");
    }
    assert_eq!(parse_frequency("1g hz"), Err(FrequencyError::Format));
    assert_eq!(parse_frequency("1ghz"), Ok(1_000_000_000));
    assert_eq!(parse_frequency(" 1.1 hz "), Err(FrequencyError::NotWholeHz));
}
