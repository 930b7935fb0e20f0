//! Audio listening: the rules for starting the audio worker, the channel
//! directory and its presets, and the RDS station data that FM broadcasts carry.
use vstd::prelude::*;
use crate::config::{checked, Config, ConfigError, ConfigView};
use crate::live::{clean, without_controls};
use crate::text::{chars_of, one_of, push_str, string_of, text_eq, trim, trim_chars};

verus! {

/// The IEEE 754 double with bit pattern `bits` is `0.0` (of either sign) or a
/// number in `60.0 ..= 260.0`, the CTCSS tone range. Positive doubles order as
/// their bit patterns; `0x404E_0000_0000_0000` is `60.0` and
/// `0x4070_4000_0000_0000` is `260.0`, and no NaN lies between them.
pub open spec fn tone_ok(bits: u64) -> bool {
    bits == 0 || bits == 0x8000_0000_0000_0000 || (0x404E_0000_0000_0000 <= bits
        <= 0x4070_4000_0000_0000)
}

/// Why the audio worker cannot start.
#[derive(Debug, Clone, Copy, PartialEq, Eq, Structural)]
pub enum ListenError {
    /// The configuration breaks a rule.
    Invalid(ConfigError),
    /// Live listening cannot transmit from the microphone.
    LiveTransmit,
    /// Audio lasts 1..=3600 seconds.
    Duration,
    /// Listening needs a HackRF or an RTL-SDR.
    Device,
    /// Microphone transmit needs a HackRF, AM or NFM/FM, at most 60 seconds.
    Transmit,
    /// A CTCSS tone is 0 or 60..=260 Hz.
    Tone,
}

impl ListenError {
    pub fn message(&self) -> (s: &'static str)
        ensures
            s@ == self.explanation(),
    {
        match self {
            ListenError::Invalid(e) => e.message(),
            ListenError::LiveTransmit => "live listening does not support microphone TX",
            ListenError::Duration => "audio duration must be 1..3600 seconds",
            ListenError::Device => "listening requires HackRF or RTL-SDR",
            ListenError::Transmit => "microphone TX requires HackRF AM/NFM, at most 60 seconds",
            ListenError::Tone => "CTCSS must be 0 or 60..260 Hz",
        }
    }

    /// The text that explains the refusal.
    pub open spec fn explanation(&self) -> Seq<char> {
        match *self {
            ListenError::Invalid(e) => e.explanation(),
            ListenError::LiveTransmit => "live listening does not support microphone TX"@,
            ListenError::Duration => "audio duration must be 1..3600 seconds"@,
            ListenError::Device => "listening requires HackRF or RTL-SDR"@,
            ListenError::Transmit => "microphone TX requires HackRF AM/NFM, at most 60 seconds"@,
            ListenError::Tone => "CTCSS must be 0 or 60..260 Hz"@,
        }
    }
}

/// Whether the audio worker may start for these settings, `seconds` of audio,
/// microphone transmit `tx`, CTCSS tone `tone_bits` (a double's bit pattern)
/// and a live sample feed `live`; the first rule broken decides.
pub open spec fn audio_verdict(c: ConfigView, seconds: u32, tx: bool, tone_bits: u64, live: bool) -> Result<
    (),
    ListenError,
> {
    if let Err(e) = checked(c) {
        Err(ListenError::Invalid(e))
    } else if live && tx {
        Err(ListenError::LiveTransmit)
    } else if !(1 <= seconds <= 3600) {
        Err(ListenError::Duration)
    } else if !(c.device == "hackrf"@ || c.device == "rtl"@) {
        Err(ListenError::Device)
    } else if tx && !(c.device == "hackrf"@ && seconds <= 60 && c.listen_mode != "wfm"@) {
        Err(ListenError::Transmit)
    } else if !tone_ok(tone_bits) {
        Err(ListenError::Tone)
    } else {
        Ok(())
    }
}

/// Receive-only listening works on both radios: for valid settings on a
/// HackRF or an RTL-SDR, 1..=3600 seconds, no transmit and no tone, the audio
/// check passes. It refuses the device exactly when that is neither radio
/// (and no earlier rule is broken).
pub proof fn both_radios_can_listen(c: ConfigView, seconds: u32, tx: bool, tone_bits: u64, live: bool)
    ensures
        checked(c) is Ok && (c.device == "hackrf"@ || c.device == "rtl"@) && 1 <= seconds <= 3600
            ==> audio_verdict(c, seconds, false, 0, live) == Ok::<(), ListenError>(()),
        audio_verdict(c, seconds, tx, tone_bits, live) == Err::<(), ListenError>(ListenError::Device)
            ==> !(c.device == "hackrf"@ || c.device == "rtl"@),
        checked(c) is Ok && !(live && tx) && 1 <= seconds <= 3600 && !(c.device == "hackrf"@
            || c.device == "rtl"@) ==> audio_verdict(c, seconds, tx, tone_bits, live) == Err::<
            (),
            ListenError,
        >(ListenError::Device),
{
}

fn tone_in_range(bits: u64) -> (b: bool)
    ensures
        b == tone_ok(bits),
{
    bits == 0 || bits == 0x8000_0000_0000_0000 || (0x404E_0000_0000_0000 <= bits && bits
        <= 0x4070_4000_0000_0000)
}

pub fn check_audio(c: &Config, seconds: u32, tx: bool, tone_bits: u64, live: bool) -> (r: Result<
    (),
    ListenError,
>)
    ensures
        r == audio_verdict(c@, seconds, tx, tone_bits, live),
{
    if let Err(e) = c.validate() {
        return Err(ListenError::Invalid(e));
    }
    if live && tx {
        return Err(ListenError::LiveTransmit);
    }
    if !(1 <= seconds && seconds <= 3600) {
        return Err(ListenError::Duration);
    }
    let hackrf = text_eq(c.device.as_str(), "hackrf");
    if !(hackrf || text_eq(c.device.as_str(), "rtl")) {
        return Err(ListenError::Device);
    }
    if tx && !(hackrf && seconds <= 60 && !text_eq(c.listen_mode.as_str(), "wfm")) {
        return Err(ListenError::Transmit);
    }
    if !tone_in_range(tone_bits) {
        return Err(ListenError::Tone);
    }
    Ok(())
}

/// Broadcast FM reception without transmit also reports the RDS station data.
pub fn shows_rds(listen_mode: &str, tx: bool) -> (r: bool)
    ensures
        r == (listen_mode@ == "wfm"@ && !tx),
{
    text_eq(listen_mode, "wfm") && !tx
}

/// One entry of the channel directory. Its CTCSS tone, a double, is held by
/// its bit pattern (`f64::to_bits`).
pub struct Channel {
    pub name: String,
    pub rx_hz: u64,
    pub tx_hz: Option<u64>,
    pub ctcss_bits: u64,
    pub mode: String,
    pub bandwidth: u32,
    pub source: String,
}

/// Why a channel directory is refused.
#[derive(Debug, Clone, Copy, PartialEq, Eq, Structural)]
pub enum ChannelError {
    /// More than 2000 channels.
    TooMany,
    /// A blank name, or a receive frequency outside 1 MHz..=6 GHz.
    NameOrReceive,
    /// A transmit frequency outside 1 MHz..=6 GHz.
    Transmit,
    /// A mode other than AM, FM, NFM and WFM, or a bandwidth outside
    /// 3..=200 kHz.
    ModeOrBandwidth,
    /// A CTCSS tone other than 0 or 60..=260 Hz.
    Tone,
}

impl ChannelError {
    pub fn message(&self) -> (s: &'static str)
        ensures
            s@ == self.explanation(),
    {
        match self {
            ChannelError::TooMany => "maximum 2000 channels",
            ChannelError::NameOrReceive => "invalid channel name/RX",
            ChannelError::Transmit => "invalid TX frequency",
            ChannelError::ModeOrBandwidth => "invalid mode/bandwidth",
            ChannelError::Tone => "invalid CTCSS",
        }
    }

    /// The text that explains the refusal.
    pub open spec fn explanation(&self) -> Seq<char> {
        match *self {
            ChannelError::TooMany => "maximum 2000 channels"@,
            ChannelError::NameOrReceive => "invalid channel name/RX"@,
            ChannelError::Transmit => "invalid TX frequency"@,
            ChannelError::ModeOrBandwidth => "invalid mode/bandwidth"@,
            ChannelError::Tone => "invalid CTCSS"@,
        }
    }
}

/// The most channels a directory holds.
pub const MAX_CHANNELS: usize = 2000;

pub open spec fn in_band(hz: u64) -> bool {
    1_000_000 <= hz <= 6_000_000_000
}

pub open spec fn is_channel_mode(m: Seq<char>) -> bool {
    m == "am"@ || m == "fm"@ || m == "nfm"@ || m == "wfm"@
}

/// The first rule that a channel breaks, if any.
pub open spec fn channel_problem(ch: Channel) -> Option<ChannelError> {
    if !(trim(ch.name@).len() > 0 && in_band(ch.rx_hz)) {
        Some(ChannelError::NameOrReceive)
    } else if ch.tx_hz matches Some(f) && !in_band(f) {
        Some(ChannelError::Transmit)
    } else if !(is_channel_mode(ch.mode@) && 3000 <= ch.bandwidth <= 200000) {
        Some(ChannelError::ModeOrBandwidth)
    } else if !tone_ok(ch.ctcss_bits) {
        Some(ChannelError::Tone)
    } else {
        None
    }
}

/// The problem of the first channel that has one.
pub open spec fn first_problem(rows: Seq<Channel>) -> Option<ChannelError>
    decreases rows.len(),
{
    if rows.len() == 0 {
        None
    } else {
        match first_problem(rows.drop_last()) {
            Some(e) => Some(e),
            None => channel_problem(rows.last()),
        }
    }
}

/// Whether a channel directory is accepted.
pub open spec fn channels_verdict(rows: Seq<Channel>) -> Result<(), ChannelError> {
    if rows.len() > MAX_CHANNELS {
        Err(ChannelError::TooMany)
    } else {
        match first_problem(rows) {
            Some(e) => Err(e),
            None => Ok(()),
        }
    }
}

fn check_channel(ch: &Channel) -> (r: Option<ChannelError>)
    ensures
        r == channel_problem(*ch),
{
    let name = trim_chars(&chars_of(ch.name.as_str()));
    if !(name.len() > 0 && 1_000_000 <= ch.rx_hz && ch.rx_hz <= 6_000_000_000) {
        return Some(ChannelError::NameOrReceive);
    }
    if let Some(f) = ch.tx_hz {
        if !(1_000_000 <= f && f <= 6_000_000_000) {
            return Some(ChannelError::Transmit);
        }
    }
    let modes: [&str; 4] = ["am", "fm", "nfm", "wfm"];
    let known = one_of(ch.mode.as_str(), &modes);
    proof {
        assert(modes@[0]@ == "am"@ && modes@[1]@ == "fm"@ && modes@[2]@ == "nfm"@ && modes@[3]@
            == "wfm"@);
        if is_channel_mode(ch.mode@) {
            if ch.mode@ == "am"@ {
                assert(ch.mode@ == modes@[0]@);
            } else if ch.mode@ == "fm"@ {
                assert(ch.mode@ == modes@[1]@);
            } else if ch.mode@ == "nfm"@ {
                assert(ch.mode@ == modes@[2]@);
            } else {
                assert(ch.mode@ == modes@[3]@);
            }
        }
    }
    if !(known && 3000 <= ch.bandwidth && ch.bandwidth <= 200000) {
        return Some(ChannelError::ModeOrBandwidth);
    }
    if !tone_in_range(ch.ctcss_bits) {
        return Some(ChannelError::Tone);
    }
    None
}

/// Checks a channel directory before it is used or saved.
pub fn validate_channels(rows: &Vec<Channel>) -> (r: Result<(), ChannelError>)
    ensures
        r == channels_verdict(rows@),
{
    if rows.len() > MAX_CHANNELS {
        return Err(ChannelError::TooMany);
    }
    let mut i: usize = 0;
    while i < rows.len()
        invariant
            i <= rows@.len() <= MAX_CHANNELS,
            first_problem(rows@.take(i as int)) is None,
        decreases rows@.len() - i,
    {
        let p = check_channel(&rows[i]);
        proof {
            assert(rows@.take(i + 1).drop_last() =~= rows@.take(i as int));
            assert(rows@.take(i + 1).last() == rows@[i as int]);
        }
        if let Some(e) = p {
            proof {
                lemma_first_problem_prefix(rows@, i + 1);
            }
            return Err(e);
        }
        i = i + 1;
    }
    assert(rows@.take(rows@.len() as int) =~= rows@);
    Ok(())
}

/// Once a prefix of the directory has a problem, the whole directory has the
/// same first problem.
proof fn lemma_first_problem_prefix(rows: Seq<Channel>, n: int)
    requires
        0 <= n <= rows.len(),
        first_problem(rows.take(n)) is Some,
    ensures
        first_problem(rows) == first_problem(rows.take(n)),
    decreases rows.len() - n,
{
    if n < rows.len() {
        assert(rows.take(n + 1).drop_last() =~= rows.take(n));
        lemma_first_problem_prefix(rows, n + 1);
    } else {
        assert(rows.take(n) =~= rows);
    }
}

/// A channel as values.
pub struct ChannelView {
    pub name: Seq<char>,
    pub rx_hz: u64,
    pub tx_hz: Option<u64>,
    pub ctcss_bits: u64,
    pub mode: Seq<char>,
    pub bandwidth: u32,
    pub source: Seq<char>,
}

impl View for Channel {
    type V = ChannelView;

    open spec fn view(&self) -> ChannelView {
        ChannelView {
            name: self.name@,
            rx_hz: self.rx_hz,
            tx_hz: self.tx_hz,
            ctcss_bits: self.ctcss_bits,
            mode: self.mode@,
            bandwidth: self.bandwidth,
            source: self.source@,
        }
    }
}

pub open spec fn views(rows: Seq<Channel>) -> Seq<ChannelView> {
    rows.map_values(|ch: Channel| ch@)
}

/// A receive-only broadcast preset.
pub open spec fn preset_view(name: Seq<char>, rx_hz: u64, mode: Seq<char>, bandwidth: u32) -> ChannelView {
    ChannelView {
        name,
        rx_hz,
        tx_hz: None,
        ctcss_bits: 0,
        mode,
        bandwidth,
        source: "Tuning preset; station availability varies"@,
    }
}

/// The broadcast tuning presets: FM broadcast, the upper medium wave and the
/// 49, 31, 25 and 19 m short-wave bands.
pub open spec fn preset_views() -> Seq<ChannelView> {
    seq![
        preset_view("FM broadcast"@, 100_000_000, "wfm"@, 200_000),
        preset_view("MW upper band"@, 1_008_000, "am"@, 10_000),
        preset_view("SW 49 m"@, 6_070_000, "am"@, 10_000),
        preset_view("SW 31 m"@, 9_650_000, "am"@, 10_000),
        preset_view("SW 25 m"@, 11_800_000, "am"@, 10_000),
        preset_view("SW 19 m"@, 15_200_000, "am"@, 10_000),
    ]
}

fn preset(name: &str, rx_hz: u64, mode: &str, bandwidth: u32) -> (r: Channel)
    ensures
        r@ == preset_view(name@, rx_hz, mode@, bandwidth),
{
    Channel {
        name: String::from_str(name),
        rx_hz,
        tx_hz: None,
        ctcss_bits: 0,
        mode: String::from_str(mode),
        bandwidth,
        source: String::from_str("Tuning preset; station availability varies"),
    }
}

pub fn presets() -> (r: Vec<Channel>)
    ensures
        views(r@) == preset_views(),
{
    let mut r: Vec<Channel> = Vec::new();
    r.push(preset("FM broadcast", 100_000_000, "wfm", 200_000));
    r.push(preset("MW upper band", 1_008_000, "am", 10_000));
    r.push(preset("SW 49 m", 6_070_000, "am", 10_000));
    r.push(preset("SW 31 m", 9_650_000, "am", 10_000));
    r.push(preset("SW 25 m", 11_800_000, "am", 10_000));
    r.push(preset("SW 19 m", 15_200_000, "am", 10_000));
    assert(views(r@) =~= preset_views());
    r
}

/// A user-editable simplex channel, written to a new directory.
pub open spec fn simplex_view(name: Seq<char>, hz: u64) -> ChannelView {
    ChannelView {
        name,
        rx_hz: hz,
        tx_hz: Some(hz),
        ctcss_bits: 0,
        mode: "fm"@,
        bandwidth: 12_500,
        source: "User-editable simplex preset"@,
    }
}

/// The directory written where none exists: VHF and UHF simplex channels.
pub open spec fn starter_views() -> Seq<ChannelView> {
    seq![
        simplex_view("VHF simplex (not a repeater)"@, 145_500_000),
        simplex_view("UHF simplex (not a repeater)"@, 433_500_000),
    ]
}

fn simplex(name: &str, hz: u64) -> (r: Channel)
    ensures
        r@ == simplex_view(name@, hz),
{
    Channel {
        name: String::from_str(name),
        rx_hz: hz,
        tx_hz: Some(hz),
        ctcss_bits: 0,
        mode: String::from_str("fm"),
        bandwidth: 12_500,
        source: String::from_str("User-editable simplex preset"),
    }
}

pub fn starter_channels() -> (r: Vec<Channel>)
    ensures
        views(r@) == starter_views(),
        channels_verdict(r@) == Ok::<(), ChannelError>(()),
{
    let mut r: Vec<Channel> = Vec::new();
    r.push(simplex("VHF simplex (not a repeater)", 145_500_000));
    r.push(simplex("UHF simplex (not a repeater)", 433_500_000));
    assert(views(r@) =~= starter_views());
    proof {
        reveal_strlit("VHF simplex (not a repeater)");
        reveal_strlit("UHF simplex (not a repeater)");
        reveal_strlit("fm");
        assert(r@[0].name@[0] == 'V' && r@[0].name@.last() == ')');
        assert(r@[1].name@[0] == 'U' && r@[1].name@.last() == ')');
        assert(trim(r@[0].name@) == r@[0].name@);
        assert(trim(r@[1].name@) == r@[1].name@);
        assert("fm"@ == "fm"@);
        assert(is_channel_mode(r@[0].mode@));
        assert(channel_problem(r@[0]) is None);
        assert(channel_problem(r@[1]) is None);
        assert(r@.take(1).drop_last() =~= r@.take(0));
        assert(r@.take(1).last() == r@[0]);
        assert(first_problem(r@.take(0)) is None);
        assert(first_problem(r@.take(1).drop_last()) is None);
        assert(first_problem(r@.take(1)) is None);
        assert(r@.drop_last() =~= r@.take(1));
        assert(first_problem(r@) is None);
    }
    r
}

/// Adds a channel to a directory, which must stay acceptable.
pub fn add_channel(rows: &mut Vec<Channel>, channel: Channel) -> (r: Result<(), ChannelError>)
    ensures
        final(rows)@ == old(rows)@.push(channel),
        r == channels_verdict(final(rows)@),
{
    rows.push(channel);
    validate_channels(rows)
}

/// One value of RDS station data as the audio worker reports it: a text, a
/// flag, or another JSON value by its serialized text.
pub enum RdsValue {
    Text(String),
    Flag(bool),
    Other(String),
}

pub enum RdsValueView {
    Text(Seq<char>),
    Flag(bool),
    Other(Seq<char>),
}

pub open spec fn value_view(v: RdsValue) -> RdsValueView {
    match v {
        RdsValue::Text(s) => RdsValueView::Text(s@),
        RdsValue::Flag(b) => RdsValueView::Flag(b),
        RdsValue::Other(s) => RdsValueView::Other(s@),
    }
}

pub open spec fn opt_view(v: Option<RdsValue>) -> Option<RdsValueView> {
    match v {
        Some(x) => Some(value_view(x)),
        None => None,
    }
}

/// The RDS fields that the workbench keeps: programme identification, service
/// name, radio text, programme type, traffic programme and announcement flags,
/// and the decoder's status. An event holds those of them that it reports.
pub struct Rds {
    pub pi: Option<RdsValue>,
    pub ps: Option<RdsValue>,
    pub radiotext: Option<RdsValue>,
    pub prog_type: Option<RdsValue>,
    pub tp: Option<RdsValue>,
    pub ta: Option<RdsValue>,
    pub rds_status: Option<RdsValue>,
}

pub struct RdsView {
    pub pi: Option<RdsValueView>,
    pub ps: Option<RdsValueView>,
    pub radiotext: Option<RdsValueView>,
    pub prog_type: Option<RdsValueView>,
    pub tp: Option<RdsValueView>,
    pub ta: Option<RdsValueView>,
    pub rds_status: Option<RdsValueView>,
}

impl View for Rds {
    type V = RdsView;

    open spec fn view(&self) -> RdsView {
        RdsView {
            pi: opt_view(self.pi),
            ps: opt_view(self.ps),
            radiotext: opt_view(self.radiotext),
            prog_type: opt_view(self.prog_type),
            tp: opt_view(self.tp),
            ta: opt_view(self.ta),
            rds_status: opt_view(self.rds_status),
        }
    }
}

pub open spec fn no_rds() -> RdsView {
    RdsView {
        pi: None,
        ps: None,
        radiotext: None,
        prog_type: None,
        tp: None,
        ta: None,
        rds_status: None,
    }
}

pub open spec fn newer(event: Option<RdsValueView>, kept: Option<RdsValueView>) -> Option<RdsValueView> {
    if event is Some {
        event
    } else {
        kept
    }
}

/// Every field that the event reports replaces the kept one.
pub open spec fn updated(kept: RdsView, event: RdsView) -> RdsView {
    RdsView {
        pi: newer(event.pi, kept.pi),
        ps: newer(event.ps, kept.ps),
        radiotext: newer(event.radiotext, kept.radiotext),
        prog_type: newer(event.prog_type, kept.prog_type),
        tp: newer(event.tp, kept.tp),
        ta: newer(event.ta, kept.ta),
        rds_status: newer(event.rds_status, kept.rds_status),
    }
}

/// The station data after an event: a new programme identification starts a
/// fresh station; every field that the event reports replaces the kept one.
pub open spec fn merged(state: RdsView, event: RdsView) -> RdsView {
    if event.pi is Some && state.pi != event.pi {
        updated(no_rds(), event)
    } else {
        updated(state, event)
    }
}

/// A different programme identification starts a new station: nothing of the
/// previous one survives but what the event itself reports. The same (or no)
/// identification keeps every field that the event does not replace.
pub proof fn station_changes_forget_old_data(state: RdsView, event: RdsView)
    ensures
        event.pi is Some && state.pi != event.pi ==> merged(state, event) == event,
        !(event.pi is Some && state.pi != event.pi) ==> merged(state, event) == updated(
            state,
            event,
        ),
{
}

/// Absorbing an event takes every field it reports exactly as reported. A
/// field it does not report is kept while the station stays the same, and
/// forgotten when the event names a different station.
pub proof fn absorbing_takes_what_the_event_reports(state: RdsView, event: RdsView, fresh: bool)
    requires
        fresh == (event.pi is Some && state.pi != event.pi),
    ensures
        event.pi is Some ==> merged(state, event).pi == event.pi,
        event.ps is Some ==> merged(state, event).ps == event.ps,
        event.radiotext is Some ==> merged(state, event).radiotext == event.radiotext,
        event.prog_type is Some ==> merged(state, event).prog_type == event.prog_type,
        event.tp is Some ==> merged(state, event).tp == event.tp,
        event.ta is Some ==> merged(state, event).ta == event.ta,
        event.rds_status is Some ==> merged(state, event).rds_status == event.rds_status,
        event.pi is None && !fresh ==> merged(state, event).pi == state.pi,
        event.ps is None && !fresh ==> merged(state, event).ps == state.ps,
        event.radiotext is None && !fresh ==> merged(state, event).radiotext == state.radiotext,
        event.prog_type is None && !fresh ==> merged(state, event).prog_type == state.prog_type,
        event.tp is None && !fresh ==> merged(state, event).tp == state.tp,
        event.ta is None && !fresh ==> merged(state, event).ta == state.ta,
        event.rds_status is None && !fresh ==> merged(state, event).rds_status == state.rds_status,
        event.pi is None && fresh ==> merged(state, event).pi is None,
        event.ps is None && fresh ==> merged(state, event).ps is None,
        event.radiotext is None && fresh ==> merged(state, event).radiotext is None,
        event.prog_type is None && fresh ==> merged(state, event).prog_type is None,
        event.tp is None && fresh ==> merged(state, event).tp is None,
        event.ta is None && fresh ==> merged(state, event).ta is None,
        event.rds_status is None && fresh ==> merged(state, event).rds_status is None,
{
}

fn copy_value(v: &RdsValue) -> (r: RdsValue)
    ensures
        value_view(r) == value_view(*v),
{
    match v {
        RdsValue::Text(s) => RdsValue::Text(s.clone()),
        RdsValue::Flag(b) => RdsValue::Flag(*b),
        RdsValue::Other(s) => RdsValue::Other(s.clone()),
    }
}

fn copy_opt(v: &Option<RdsValue>) -> (r: Option<RdsValue>)
    ensures
        opt_view(r) == opt_view(*v),
{
    match v {
        Some(x) => Some(copy_value(x)),
        None => None,
    }
}

fn same_value(a: &RdsValue, b: &RdsValue) -> (r: bool)
    ensures
        r == (value_view(*a) == value_view(*b)),
{
    match (a, b) {
        (RdsValue::Text(x), RdsValue::Text(y)) => text_eq(x.as_str(), y.as_str()),
        (RdsValue::Flag(x), RdsValue::Flag(y)) => *x == *y,
        (RdsValue::Other(x), RdsValue::Other(y)) => text_eq(x.as_str(), y.as_str()),
        _ => false,
    }
}

fn newer_value(event: &Option<RdsValue>, kept: Option<RdsValue>) -> (r: Option<RdsValue>)
    ensures
        opt_view(r) == newer(opt_view(*event), opt_view(kept)),
{
    if event.is_some() {
        copy_opt(event)
    } else {
        kept
    }
}

impl Rds {
    /// No station data yet.
    pub fn new() -> (r: Rds)
        ensures
            r@ == no_rds(),
    {
        Rds {
            pi: None,
            ps: None,
            radiotext: None,
            prog_type: None,
            tp: None,
            ta: None,
            rds_status: None,
        }
    }

    /// Takes in one event of the audio worker.
    pub fn absorb(&mut self, event: &Rds)
        ensures
            final(self)@ == merged(old(self)@, event@),
    {
        let fresh = match (&event.pi, &self.pi) {
            (Some(p), Some(q)) => !same_value(p, q),
            (Some(_), None) => true,
            _ => false,
        };
        let base = if fresh {
            Rds::new()
        } else {
            Rds {
                pi: copy_opt(&self.pi),
                ps: copy_opt(&self.ps),
                radiotext: copy_opt(&self.radiotext),
                prog_type: copy_opt(&self.prog_type),
                tp: copy_opt(&self.tp),
                ta: copy_opt(&self.ta),
                rds_status: copy_opt(&self.rds_status),
            }
        };
        *self = Rds {
            pi: newer_value(&event.pi, base.pi),
            ps: newer_value(&event.ps, base.ps),
            radiotext: newer_value(&event.radiotext, base.radiotext),
            prog_type: newer_value(&event.prog_type, base.prog_type),
            tp: newer_value(&event.tp, base.tp),
            ta: newer_value(&event.ta, base.ta),
            rds_status: newer_value(&event.rds_status, base.rds_status),
        };
    }

    /// One line on the station, as the listening view shows it.
    pub fn summary(&self) -> (r: String)
        ensures
            r@ == rds_summary(self@),
    {
        if let Some(RdsValue::Text(s)) = &self.rds_status {
            return clean(s.as_str());
        }
        if self.pi.is_none() && self.ps.is_none() && self.radiotext.is_none()
            && self.prog_type.is_none() && self.tp.is_none() && self.ta.is_none()
            && self.rds_status.is_none() {
            return String::from_str("RDS: waiting for station data…");
        }
        let mut parts: Vec<String> = Vec::new();
        push_field(&mut parts, &self.ps);
        push_field(&mut parts, &self.pi);
        push_field(&mut parts, &self.prog_type);
        push_field(&mut parts, &self.radiotext);
        let ghost fields = text_field(self@.ps) + text_field(self@.pi) + text_field(
            self@.prog_type,
        ) + text_field(self@.radiotext);
        assert(texts_of(parts@) =~= fields);
        let mut v: Vec<char> = Vec::new();
        push_str(&mut v, "RDS: ");
        let mut i: usize = 0;
        while i < parts.len()
            invariant
                i <= parts@.len(),
                v@ == "RDS: "@ + dot_joined(texts_of(parts@.take(i as int))),
            decreases parts@.len() - i,
        {
            if i > 0 {
                push_str(&mut v, " · ");
            }
            push_str(&mut v, parts[i].as_str());
            proof {
                let t = parts@.take(i + 1);
                assert(texts_of(t).drop_last() =~= texts_of(parts@.take(i as int)));
                if i == 0 {
                    assert(texts_of(t) =~= seq![parts@[0]@]);
                }
            }
            i = i + 1;
        }
        assert(parts@.take(parts@.len() as int) =~= parts@);
        if let Some(RdsValue::Flag(true)) = &self.ta {
            push_str(&mut v, " · TRAFFIC");
        }
        string_of(&v)
    }
}

/// A field's text, stripped of control characters, when the field is a text.
pub open spec fn text_field(v: Option<RdsValueView>) -> Seq<Seq<char>> {
    match v {
        Some(RdsValueView::Text(t)) => seq![without_controls(t)],
        _ => Seq::empty(),
    }
}

pub open spec fn texts_of(parts: Seq<String>) -> Seq<Seq<char>> {
    parts.map_values(|p: String| p@)
}

/// Texts joined by ` · `.
pub open spec fn dot_joined(parts: Seq<Seq<char>>) -> Seq<char>
    decreases parts.len(),
{
    if parts.len() == 0 {
        Seq::empty()
    } else if parts.len() == 1 {
        parts[0]
    } else {
        dot_joined(parts.drop_last()) + " · "@ + parts.last()
    }
}

/// The station line: the decoder's status text where it reports one; a
/// waiting note before any data; else the service name, identification,
/// programme type and radio text that are texts, and a traffic mark during a
/// traffic announcement.
pub open spec fn rds_summary(s: RdsView) -> Seq<char> {
    if let Some(RdsValueView::Text(t)) = s.rds_status {
        without_controls(t)
    } else if s == no_rds() {
        "RDS: waiting for station data…"@
    } else {
        let line = "RDS: "@ + dot_joined(
            text_field(s.ps) + text_field(s.pi) + text_field(s.prog_type) + text_field(
                s.radiotext,
            ),
        );
        if s.ta == Some(RdsValueView::Flag(true)) {
            line + " · TRAFFIC"@
        } else {
            line
        }
    }
}

fn push_field(parts: &mut Vec<String>, v: &Option<RdsValue>)
    ensures
        texts_of(final(parts)@) == texts_of(old(parts)@) + text_field(opt_view(*v)),
{
    if let Some(RdsValue::Text(t)) = v {
        parts.push(clean(t.as_str()));
    }
    assert(texts_of(parts@) =~= texts_of(old(parts)@) + text_field(opt_view(*v)));
}

} // verus!
