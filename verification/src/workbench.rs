//! The terminal workbench's decisions: which key does what in which panel,
//! when text input starts and ends, when quitting is allowed, and when the
//! receiver, the survey sweep and listening start or stop. The loop that
//! reads keys and carries out the resulting effects lives with the terminal.
use vstd::prelude::*;
use crate::text::chars_of;
use crate::text::string_of;
use crate::view::{digit_panel, next_panel, previous_panel, PANELS};

verus! {

/// What the key handling reads and changes. The floating-point view state
/// (waterfall threshold, view centre, selected frequency) stays with the
/// terminal, which also keeps `busy`, `zoom`, `receiving`, `surveying` and
/// `listening` in step with the jobs and devices it runs.
pub struct WorkbenchState {
    /// The panel shown, `0..PANELS`.
    pub tab: usize,
    /// The selected row of a list panel.
    pub selected: usize,
    pub scroll: u16,
    /// A command-bar job is running.
    pub busy: bool,
    /// The text being typed, while the command bar or an editor is open.
    pub input: Option<String>,
    /// The setting being edited.
    pub editing: Option<String>,
    /// The typed text is a frequency to tune to.
    pub tuning: bool,
    /// The typed text is a receive bandwidth.
    pub editing_bandwidth: bool,
    /// The spectrum display is frozen.
    pub paused: bool,
    /// Live addon decoding is on.
    pub decoders_enabled: bool,
    pub zoom: usize,
    /// The spectrum receiver is running.
    pub receiving: bool,
    /// A survey sweep is running.
    pub surveying: bool,
    /// Audio listening is running.
    pub listening: bool,
}

pub struct WorkbenchView {
    pub tab: usize,
    pub selected: usize,
    pub scroll: u16,
    pub busy: bool,
    pub input: Option<Seq<char>>,
    pub editing: Option<Seq<char>>,
    pub tuning: bool,
    pub editing_bandwidth: bool,
    pub paused: bool,
    pub decoders_enabled: bool,
    pub zoom: usize,
    pub receiving: bool,
    pub surveying: bool,
    pub listening: bool,
}

pub open spec fn text_view(t: Option<String>) -> Option<Seq<char>> {
    match t {
        Some(s) => Some(s@),
        None => None,
    }
}

impl View for WorkbenchState {
    type V = WorkbenchView;

    open spec fn view(&self) -> WorkbenchView {
        WorkbenchView {
            tab: self.tab,
            selected: self.selected,
            scroll: self.scroll,
            busy: self.busy,
            input: text_view(self.input),
            editing: text_view(self.editing),
            tuning: self.tuning,
            editing_bandwidth: self.editing_bandwidth,
            paused: self.paused,
            decoders_enabled: self.decoders_enabled,
            zoom: self.zoom,
            receiving: self.receiving,
            surveying: self.surveying,
            listening: self.listening,
        }
    }
}

/// A key press; `Interrupt` is Ctrl-C.
#[derive(Clone, Copy, Debug, PartialEq, Eq, Structural)]
pub enum KeyInput {
    Char(char),
    Tab,
    BackTab,
    Enter,
    Esc,
    Backspace,
    Left,
    Right,
    Up,
    Down,
    PageUp,
    PageDown,
    Interrupt,
}

/// Why a key was refused; shown in the status line.
#[derive(Clone, Copy, Debug, PartialEq, Eq, Structural)]
pub enum Notice {
    QuitBusy,
    SpaceBusy,
    JobRunning,
    FftBusy,
    ModeBusy,
    ListenBusy,
    TuneBusy,
}

impl Notice {
    pub open spec fn explanation(&self) -> Seq<char> {
        match self {
            Notice::QuitBusy => "Wait for the active job to finish before quitting"@,
            Notice::SpaceBusy => "Wait for active job before starting receiver"@,
            Notice::JobRunning => "A job is already running"@,
            Notice::FftBusy => "Stop the active job, listening or survey before changing FFT resolution"@,
            Notice::ModeBusy => "Stop the active job or survey before changing receive mode"@,
            Notice::ListenBusy => "Stop the active job or survey before listening"@,
            Notice::TuneBusy => "Stop the active job, listening or survey before tuning Spectrum"@,
        }
    }

    pub fn message(&self) -> (s: &'static str)
        ensures
            s@ == self.explanation(),
    {
        match self {
            Notice::QuitBusy => "Wait for the active job to finish before quitting",
            Notice::SpaceBusy => "Wait for active job before starting receiver",
            Notice::JobRunning => "A job is already running",
            Notice::FftBusy => "Stop the active job, listening or survey before changing FFT resolution",
            Notice::ModeBusy => "Stop the active job or survey before changing receive mode",
            Notice::ListenBusy => "Stop the active job or survey before listening",
            Notice::TuneBusy => "Stop the active job, listening or survey before tuning Spectrum",
        }
    }
}

/// What the terminal carries out after a key. `Text` is `String` for the
/// effects that are carried out and `Seq<char>` in contracts.
#[derive(Clone, Debug, PartialEq)]
pub enum Effect<Text> {
    Nothing,
    /// Leave the workbench.
    Quit,
    /// Cancel the active operation (Ctrl-C).
    Cancel,
    /// Show why the key was refused.
    Notice(Notice),
    StartStream,
    StopStream,
    /// Stop the receiver and listening, then start a sweep.
    StartSurvey,
    StopSurvey,
    /// Stop the receiver and the sweep, then start listening (Space).
    StartAudio,
    StopAudio,
    /// Stop the receiver, then listen with the spectrum held (`a`).
    StartListening,
    StopListening,
    /// Run the command typed in the command bar.
    RunCommand(Text),
    /// Look up the selected (or tuned) frequency.
    Lookup,
    /// Apply the typed receive bandwidth.
    ApplyBandwidth(Text),
    /// Tune to the typed frequency.
    Tune(Text),
    /// Save the typed value of the named setting.
    SaveSetting(Text, Text),
    ExportSpectrum,
    SaveFindings,
    ToggleDecoderLog,
    ClearConsole,
    /// Live decoding was switched; announce it in the console.
    DecodersToggled,
    CycleFftSize,
    /// Zoom in (`true`) or out.
    Zoom(bool),
    FullSpan,
    TuneSelected,
    /// Tune by the coarse (`true`) or fine step, up (`true`) or down.
    TuneStep(bool, bool),
    CycleMode,
    CyclePalette,
    /// Raise (`true`) or lower the waterfall threshold.
    Threshold(bool),
    PrepareRecording,
    TuneChannel,
    PrepareTalk,
    EditChannel,
    EditSetting,
    ToggleAddon,
    ShowHelp,
}

impl View for Effect<String> {
    type V = Effect<Seq<char>>;

    open spec fn view(&self) -> Effect<Seq<char>> {
        match self {
            Effect::Nothing => Effect::Nothing,
            Effect::Quit => Effect::Quit,
            Effect::Cancel => Effect::Cancel,
            Effect::Notice(n) => Effect::Notice(*n),
            Effect::StartStream => Effect::StartStream,
            Effect::StopStream => Effect::StopStream,
            Effect::StartSurvey => Effect::StartSurvey,
            Effect::StopSurvey => Effect::StopSurvey,
            Effect::StartAudio => Effect::StartAudio,
            Effect::StopAudio => Effect::StopAudio,
            Effect::StartListening => Effect::StartListening,
            Effect::StopListening => Effect::StopListening,
            Effect::RunCommand(t) => Effect::RunCommand(t@),
            Effect::Lookup => Effect::Lookup,
            Effect::ApplyBandwidth(t) => Effect::ApplyBandwidth(t@),
            Effect::Tune(t) => Effect::Tune(t@),
            Effect::SaveSetting(k, t) => Effect::SaveSetting(k@, t@),
            Effect::ExportSpectrum => Effect::ExportSpectrum,
            Effect::SaveFindings => Effect::SaveFindings,
            Effect::ToggleDecoderLog => Effect::ToggleDecoderLog,
            Effect::ClearConsole => Effect::ClearConsole,
            Effect::DecodersToggled => Effect::DecodersToggled,
            Effect::CycleFftSize => Effect::CycleFftSize,
            Effect::Zoom(b) => Effect::Zoom(*b),
            Effect::FullSpan => Effect::FullSpan,
            Effect::TuneSelected => Effect::TuneSelected,
            Effect::TuneStep(c, i) => Effect::TuneStep(*c, *i),
            Effect::CycleMode => Effect::CycleMode,
            Effect::CyclePalette => Effect::CyclePalette,
            Effect::Threshold(b) => Effect::Threshold(*b),
            Effect::PrepareRecording => Effect::PrepareRecording,
            Effect::TuneChannel => Effect::TuneChannel,
            Effect::PrepareTalk => Effect::PrepareTalk,
            Effect::EditChannel => Effect::EditChannel,
            Effect::EditSetting => Effect::EditSetting,
            Effect::ToggleAddon => Effect::ToggleAddon,
            Effect::ShowHelp => Effect::ShowHelp,
        }
    }
}

/// The command that `w` puts into the command bar in the packet panels.
pub open spec fn pcap_template() -> Seq<char> {
    "export-pcap 'recording.cs8' 'packets.pcap' --protocol ble"@
}

/// The command that `a` puts into the command bar in the repeater panel.
pub open spec fn new_channel_template() -> Seq<char> {
    "channels add 'New repeater' --rx 145600000 --tx 145000000 --ctcss 0 --source 'User supplied'"@
}

/// The command that `i` puts into the command bar in the addon panel.
pub open spec fn identify_template() -> Seq<char> {
    "identify 'recording.cs8'"@
}

pub open spec fn saturating_up(x: usize, by: nat) -> usize {
    if x + by <= usize::MAX {
        (x + by) as usize
    } else {
        usize::MAX
    }
}

pub open spec fn saturating_down(x: usize, by: nat) -> usize {
    if x >= by {
        (x - by) as usize
    } else {
        0usize
    }
}

pub open spec fn scrolled_up(x: u16, by: nat) -> u16 {
    if x + by <= u16::MAX {
        (x + by) as u16
    } else {
        u16::MAX
    }
}

pub open spec fn scrolled_down(x: u16, by: nat) -> u16 {
    if x >= by {
        (x - by) as u16
    } else {
        0u16
    }
}

/// The workbench on another panel, at its first row.
pub open spec fn switched(s: WorkbenchView, tab: usize) -> WorkbenchView {
    WorkbenchView { tab, selected: 0, scroll: 0, ..s }
}

/// A key while the command bar or an editor is open: characters and
/// Backspace edit the text, Esc discards it, Enter hands it on.
pub open spec fn input_step(s: WorkbenchView, k: KeyInput) -> (WorkbenchView, Effect<Seq<char>>) {
    let text = s.input.unwrap();
    match k {
        KeyInput::Esc => (
            WorkbenchView { input: None, editing: None, tuning: false, editing_bandwidth: false, ..s },
            Effect::Nothing,
        ),
        KeyInput::Backspace => (
            WorkbenchView {
                input: Some(
                    if text.len() > 0 {
                        text.drop_last()
                    } else {
                        text
                    },
                ),
                ..s
            },
            Effect::Nothing,
        ),
        KeyInput::Char(c) => (WorkbenchView { input: Some(text.push(c)), ..s }, Effect::Nothing),
        KeyInput::Enter => {
            let closed = WorkbenchView { input: None, ..s };
            if s.editing_bandwidth {
                (WorkbenchView { editing_bandwidth: false, ..closed }, Effect::ApplyBandwidth(text))
            } else if s.tuning {
                (WorkbenchView { tuning: false, ..closed }, Effect::Tune(text))
            } else if s.editing is Some {
                (
                    WorkbenchView { editing: None, ..closed },
                    Effect::SaveSetting(s.editing.unwrap(), text),
                )
            } else if s.busy {
                (closed, Effect::Notice(Notice::JobRunning))
            } else {
                (closed, Effect::RunCommand(text))
            }
        },
        _ => (s, Effect::Nothing),
    }
}

/// Space: refused while a job runs; otherwise it toggles the sweep in the
/// survey panel, listening in the listening panels and the receiver
/// elsewhere, stopping whatever else runs on the radio.
pub open spec fn space_step(s: WorkbenchView) -> (WorkbenchView, Effect<Seq<char>>) {
    if s.busy {
        (s, Effect::Notice(Notice::SpaceBusy))
    } else if s.tab == 6 {
        let t = WorkbenchView { receiving: false, listening: false, ..s };
        if s.surveying {
            (WorkbenchView { surveying: false, ..t }, Effect::StopSurvey)
        } else {
            (t, Effect::StartSurvey)
        }
    } else if s.tab == 7 || s.tab == 8 {
        let t = WorkbenchView { receiving: false, surveying: false, ..s };
        if s.listening {
            (WorkbenchView { listening: false, ..t }, Effect::StopAudio)
        } else {
            (t, Effect::StartAudio)
        }
    } else if s.receiving {
        (WorkbenchView { receiving: false, ..s }, Effect::StopStream)
    } else {
        (WorkbenchView { surveying: false, listening: false, ..s }, Effect::StartStream)
    }
}

/// A character key outside text input, by panel.
pub open spec fn char_step(s: WorkbenchView, c: char) -> (WorkbenchView, Effect<Seq<char>>) {
    let spectrum = s.tab == 0;
    if c == 'd' {
        (WorkbenchView { tab: 9, scroll: 0, ..s }, Effect::Nothing)
    } else if c == 'D' {
        (WorkbenchView { decoders_enabled: !s.decoders_enabled, ..s }, Effect::DecodersToggled)
    } else if c == 's' && s.tab == 9 {
        (s, Effect::ToggleDecoderLog)
    } else if c == 's' && spectrum {
        (s, Effect::ExportSpectrum)
    } else if c == 'x' && s.tab == 9 {
        (WorkbenchView { scroll: 0, ..s }, Effect::ClearConsole)
    } else if c == 'q' {
        if s.busy {
            (s, Effect::Notice(Notice::QuitBusy))
        } else {
            (s, Effect::Quit)
        }
    } else if '1' <= c <= '9' {
        (switched(s, (c as u32 - '1' as u32) as usize), Effect::Nothing)
    } else if c == 'l' {
        if s.busy {
            (s, Effect::Notice(Notice::JobRunning))
        } else {
            (s, Effect::Lookup)
        }
    } else if c == ':' {
        (WorkbenchView { input: Some(Seq::empty()), ..s }, Effect::Nothing)
    } else if c == ' ' {
        space_step(s)
    } else if c == 'w' && (s.tab == 2 || s.tab == 3) {
        (WorkbenchView { input: Some(pcap_template()), ..s }, Effect::Nothing)
    } else if c == 'f' && spectrum {
        if s.busy || s.listening || s.surveying {
            (s, Effect::Notice(Notice::FftBusy))
        } else {
            (s, Effect::CycleFftSize)
        }
    } else if c == ']' && spectrum {
        (s, Effect::Zoom(true))
    } else if c == '[' && spectrum {
        (s, Effect::Zoom(false))
    } else if c == '0' && spectrum {
        (WorkbenchView { zoom: 1, ..s }, Effect::FullSpan)
    } else if c == 't' && spectrum {
        (s, Effect::TuneSelected)
    } else if c == 'm' && (spectrum || s.tab == 7) {
        if s.busy || s.surveying {
            (s, Effect::Notice(Notice::ModeBusy))
        } else {
            (s, Effect::CycleMode)
        }
    } else if c == 'b' && (spectrum || s.tab == 7) {
        (WorkbenchView { editing_bandwidth: true, input: Some(Seq::empty()), ..s }, Effect::Nothing)
    } else if c == 'a' && spectrum {
        if s.busy || s.surveying {
            (s, Effect::Notice(Notice::ListenBusy))
        } else if s.listening {
            (WorkbenchView { listening: false, ..s }, Effect::StopListening)
        } else {
            (WorkbenchView { receiving: false, ..s }, Effect::StartListening)
        }
    } else if c == 'c' && spectrum {
        (s, Effect::CyclePalette)
    } else if (c == '+' || c == '=' || c == '-') && spectrum {
        (s, Effect::Threshold(c != '-'))
    } else if c == 'p' {
        (WorkbenchView { paused: !s.paused, ..s }, Effect::Nothing)
    } else if c == 's' {
        (s, Effect::SaveFindings)
    } else if c == 'r' {
        (s, Effect::PrepareRecording)
    } else if c == 't' && s.tab == 8 {
        (s, Effect::PrepareTalk)
    } else if c == 'e' && s.tab == 8 {
        (s, Effect::EditChannel)
    } else if c == 'a' && s.tab == 8 {
        (WorkbenchView { input: Some(new_channel_template()), ..s }, Effect::Nothing)
    } else if c == 'i' && s.tab == 3 {
        (WorkbenchView { input: Some(identify_template()), ..s }, Effect::Nothing)
    } else if c == '?' {
        (WorkbenchView { tab: 5, scroll: 0, ..s }, Effect::ShowHelp)
    } else {
        (s, Effect::Nothing)
    }
}

/// A key outside text input.
pub open spec fn key_step(s: WorkbenchView, k: KeyInput) -> (WorkbenchView, Effect<Seq<char>>) {
    let spectrum = s.tab == 0;
    match k {
        KeyInput::Char(c) => char_step(s, c),
        KeyInput::Tab => (switched(s, ((s.tab + 1) % (PANELS as int)) as usize), Effect::Nothing),
        KeyInput::BackTab => (
            switched(s, ((s.tab + PANELS - 1) % (PANELS as int)) as usize),
            Effect::Nothing,
        ),
        KeyInput::Left => if spectrum {
            (s, Effect::TuneStep(false, false))
        } else {
            (s, Effect::Nothing)
        },
        KeyInput::Right => if spectrum {
            (s, Effect::TuneStep(false, true))
        } else {
            (s, Effect::Nothing)
        },
        KeyInput::Up => if spectrum {
            (s, Effect::TuneStep(true, true))
        } else {
            (
                WorkbenchView {
                    selected: saturating_down(s.selected, 1),
                    scroll: scrolled_down(s.scroll, 1),
                    ..s
                },
                Effect::Nothing,
            )
        },
        KeyInput::Down => if spectrum {
            (s, Effect::TuneStep(true, false))
        } else {
            (
                WorkbenchView {
                    selected: saturating_up(s.selected, 1),
                    scroll: scrolled_up(s.scroll, 1),
                    ..s
                },
                Effect::Nothing,
            )
        },
        KeyInput::PageUp => if spectrum {
            (s, Effect::TuneStep(true, true))
        } else {
            (WorkbenchView { scroll: scrolled_down(s.scroll, 10), ..s }, Effect::Nothing)
        },
        KeyInput::PageDown => if spectrum {
            (s, Effect::TuneStep(true, false))
        } else {
            (WorkbenchView { scroll: scrolled_up(s.scroll, 10), ..s }, Effect::Nothing)
        },
        KeyInput::Enter => if spectrum {
            (WorkbenchView { tuning: true, input: Some(Seq::empty()), ..s }, Effect::Nothing)
        } else if s.tab == 7 || s.tab == 8 {
            (s, Effect::TuneChannel)
        } else if s.tab == 4 {
            (s, Effect::EditSetting)
        } else if s.tab == 3 {
            (s, Effect::ToggleAddon)
        } else {
            (s, Effect::Nothing)
        },
        _ => (s, Effect::Nothing),
    }
}

/// The workbench after a key, and what the terminal then carries out:
/// Ctrl-C always cancels; while text is being typed the keys edit it;
/// otherwise the panel's key bindings apply.
pub open spec fn workbench_step(s: WorkbenchView, k: KeyInput) -> (WorkbenchView, Effect<Seq<char>>) {
    if k == KeyInput::Interrupt {
        (s, Effect::Cancel)
    } else if s.input is Some {
        input_step(s, k)
    } else {
        key_step(s, k)
    }
}

/// What the terminal reports back from the jobs and devices it runs.
#[derive(Clone, Copy, Debug, PartialEq, Eq, Structural)]
pub enum WorkerEvent {
    /// A command-bar job was started.
    JobStarted,
    /// The command-bar job finished; its result is shown in the Workbench panel.
    JobFinished,
    /// The receiver failed; its diagnostics are shown in the Workbench panel.
    ReceiverFailed,
    /// The receiver's sample stream ended.
    ReceiverEnded,
    /// The survey sweep ended.
    SweepEnded,
    /// Listening ended.
    AudioEnded,
    /// Listening failed; its error is shown in the Workbench panel.
    AudioFailed,
}

/// The workbench after a worker event: a started job stops everything on the
/// radio; a finished job, a failed receiver or failed listening open the
/// Workbench panel (at its top, for the first two).
pub open spec fn settled(s: WorkbenchView, e: WorkerEvent) -> WorkbenchView {
    match e {
        WorkerEvent::JobStarted => WorkbenchView {
            busy: true,
            receiving: false,
            surveying: false,
            listening: false,
            ..s
        },
        WorkerEvent::JobFinished => WorkbenchView { busy: false, tab: 5, scroll: 0, ..s },
        WorkerEvent::ReceiverFailed => WorkbenchView { receiving: false, tab: 5, scroll: 0, ..s },
        WorkerEvent::ReceiverEnded => WorkbenchView { receiving: false, ..s },
        WorkerEvent::SweepEnded => WorkbenchView { surveying: false, ..s },
        WorkerEvent::AudioEnded => WorkbenchView { listening: false, ..s },
        WorkerEvent::AudioFailed => WorkbenchView { listening: false, tab: 5, ..s },
    }
}

/// The workbench after a worker event.
pub fn settle(s: &WorkbenchState, e: WorkerEvent) -> (r: WorkbenchState)
    requires
        s.tab < PANELS,
    ensures
        r@ == settled(s@, e),
        r.tab < PANELS,
{
    let mut n = s.copy();
    match e {
        WorkerEvent::JobStarted => {
            n.busy = true;
            n.receiving = false;
            n.surveying = false;
            n.listening = false;
        },
        WorkerEvent::JobFinished => {
            n.busy = false;
            n.tab = 5;
            n.scroll = 0;
        },
        WorkerEvent::ReceiverFailed => {
            n.receiving = false;
            n.tab = 5;
            n.scroll = 0;
        },
        WorkerEvent::ReceiverEnded => {
            n.receiving = false;
        },
        WorkerEvent::SweepEnded => {
            n.surveying = false;
        },
        WorkerEvent::AudioEnded => {
            n.listening = false;
        },
        WorkerEvent::AudioFailed => {
            n.listening = false;
            n.tab = 5;
        },
    }
    n
}

/// While a job runs `q` is refused; once it has finished, `q` quits.
pub proof fn quit_waits_for_the_job(s: WorkbenchView)
    requires
        s.input is None,
    ensures
        workbench_step(settled(s, WorkerEvent::JobStarted), KeyInput::Char('q')).1
            == Effect::<Seq<char>>::Notice(Notice::QuitBusy),
        workbench_step(
            settled(settled(s, WorkerEvent::JobStarted), WorkerEvent::JobFinished),
            KeyInput::Char('q'),
        ).1 == Effect::<Seq<char>>::Quit,
{
}

/// The workbench quits only on `q`, outside text input, and never while a
/// command-bar job runs.
pub proof fn quits_only_when_idle(s: WorkbenchView, k: KeyInput)
    ensures
        workbench_step(s, k).1 == Effect::<Seq<char>>::Quit <==> (k == KeyInput::Char('q')
            && s.input is None && !s.busy),
{
}

/// No key starts a transmission by itself: the only command the workbench
/// runs besides the frequency lookup is the text the operator typed in the
/// command bar, sent with Enter while no job runs (where a transmission still
/// needs its own confirmation flag); keys that prepare a transmission only
/// put its text into the command bar.
pub proof fn no_transmission_without_typed_confirmation(s: WorkbenchView, k: KeyInput)
    ensures
        workbench_step(s, k).1 matches Effect::RunCommand(t) ==> k == KeyInput::Enter && s.input
            == Some(t) && s.editing is None && !s.tuning && !s.editing_bandwidth && !s.busy,
        workbench_step(s, k).1 is Lookup ==> k == KeyInput::Char('l') && s.input is None
            && !s.busy,
{
}

/// In the spectrum panel the arrows tune: Left and Right by the fine step,
/// Up/Down and PageUp/PageDown by the coarse step, each pair in opposite
/// directions, with Right, Up and PageUp raising the frequency and Left, Down
/// and PageDown lowering it. They change nothing else.
pub proof fn arrows_tune_in_opposite_directions(s: WorkbenchView)
    requires
        s.input is None,
        s.tab == 0,
    ensures
        workbench_step(s, KeyInput::Left).1 matches Effect::TuneStep(coarse, up) && !coarse && !up,
        workbench_step(s, KeyInput::Right).1 matches Effect::TuneStep(coarse, up) && !coarse && up,
        workbench_step(s, KeyInput::Up).1 matches Effect::TuneStep(coarse, up) && coarse && up,
        workbench_step(s, KeyInput::Down).1 matches Effect::TuneStep(coarse, up) && coarse && !up,
        workbench_step(s, KeyInput::PageUp).1 matches Effect::TuneStep(coarse, up) && coarse && up,
        workbench_step(s, KeyInput::PageDown).1 matches Effect::TuneStep(coarse, up) && coarse
            && !up,
        workbench_step(s, KeyInput::Left).0 == s,
        workbench_step(s, KeyInput::Right).0 == s,
        workbench_step(s, KeyInput::Up).0 == s,
        workbench_step(s, KeyInput::Down).0 == s,
        workbench_step(s, KeyInput::PageUp).0 == s,
        workbench_step(s, KeyInput::PageDown).0 == s,
{
}

/// Tab and then BackTab return to the panel where they started (at its
/// first row).
pub proof fn back_tab_undoes_tab(s: WorkbenchView)
    requires
        s.input is None,
        s.tab < PANELS,
    ensures
        workbench_step(workbench_step(s, KeyInput::Tab).0, KeyInput::BackTab).0 == switched(
            s,
            s.tab,
        ),
{
}

/// Typing a character and then Backspace leaves the workbench as it was.
pub proof fn backspace_undoes_typing(s: WorkbenchView, c: char)
    requires
        s.input is Some,
    ensures
        workbench_step(workbench_step(s, KeyInput::Char(c)).0, KeyInput::Backspace) == (
            s,
            Effect::<Seq<char>>::Nothing,
        ),
{
    assert(s.input.unwrap().push(c).drop_last() =~= s.input.unwrap());
}

impl WorkbenchState {
    /// The workbench at launch: first panel, nothing typed, and nothing
    /// running on the radio; reception starts only with Space.
    pub fn new() -> (r: Self)
        ensures
            r@.tab == 0,
            r@.input is None,
            r@.editing is None,
            !r@.busy,
            !r@.receiving,
            !r@.surveying,
            !r@.listening,
            !r@.tuning,
            !r@.editing_bandwidth,
            !r@.paused,
            r@.decoders_enabled,
            r@.zoom == 1,
            r@.selected == 0,
            r@.scroll == 0,
    {
        WorkbenchState {
            tab: 0,
            selected: 0,
            scroll: 0,
            busy: false,
            input: None,
            editing: None,
            tuning: false,
            editing_bandwidth: false,
            paused: false,
            decoders_enabled: true,
            zoom: 1,
            receiving: false,
            surveying: false,
            listening: false,
        }
    }

    fn copy(&self) -> (r: Self)
        ensures
            r@ == self@,
    {
        WorkbenchState {
            tab: self.tab,
            selected: self.selected,
            scroll: self.scroll,
            busy: self.busy,
            input: copy_text(&self.input),
            editing: copy_text(&self.editing),
            tuning: self.tuning,
            editing_bandwidth: self.editing_bandwidth,
            paused: self.paused,
            decoders_enabled: self.decoders_enabled,
            zoom: self.zoom,
            receiving: self.receiving,
            surveying: self.surveying,
            listening: self.listening,
        }
    }
}

fn copy_text(t: &Option<String>) -> (r: Option<String>)
    ensures
        text_view(r) == text_view(*t),
{
    match t {
        Some(s) => Some(s.clone()),
        None => None,
    }
}

/// The refusal for tuning the spectrum: not while a job, listening or a
/// sweep runs.
pub fn tuning_refusal(s: &WorkbenchState) -> (r: Option<Notice>)
    ensures
        r == if s.busy || s.listening || s.surveying {
            Some(Notice::TuneBusy)
        } else {
            None
        },
{
    if s.busy || s.listening || s.surveying {
        Some(Notice::TuneBusy)
    } else {
        None
    }
}

/// The refusal for changing the receive mode or bandwidth: not while a job
/// or a sweep runs.
pub fn receive_change_refusal(s: &WorkbenchState) -> (r: Option<Notice>)
    ensures
        r == if s.busy || s.surveying {
            Some(Notice::ModeBusy)
        } else {
            None
        },
{
    if s.busy || s.surveying {
        Some(Notice::ModeBusy)
    } else {
        None
    }
}

fn input_key(s: &WorkbenchState, k: KeyInput) -> (r: (WorkbenchState, Effect<String>))
    requires
        s.input is Some,
        k != KeyInput::Interrupt,
    ensures
        (r.0@, r.1@) == input_step(s@, k),
{
    let mut n = s.copy();
    let text = match &s.input {
        Some(t) => t.clone(),
        None => String::new(),
    };
    match k {
        KeyInput::Esc => {
            n.input = None;
            n.editing = None;
            n.tuning = false;
            n.editing_bandwidth = false;
            (n, Effect::Nothing)
        },
        KeyInput::Backspace => {
            let mut v = chars_of(text.as_str());
            if v.len() > 0 {
                v.pop();
            }
            n.input = Some(string_of(&v));
            (n, Effect::Nothing)
        },
        KeyInput::Char(c) => {
            let mut v = chars_of(text.as_str());
            v.push(c);
            n.input = Some(string_of(&v));
            (n, Effect::Nothing)
        },
        KeyInput::Enter => {
            n.input = None;
            if s.editing_bandwidth {
                n.editing_bandwidth = false;
                (n, Effect::ApplyBandwidth(text))
            } else if s.tuning {
                n.tuning = false;
                (n, Effect::Tune(text))
            } else if let Some(key) = &s.editing {
                n.editing = None;
                (n, Effect::SaveSetting(key.clone(), text))
            } else if s.busy {
                (n, Effect::Notice(Notice::JobRunning))
            } else {
                (n, Effect::RunCommand(text))
            }
        },
        _ => (n, Effect::Nothing),
    }
}

fn space_key(s: &WorkbenchState) -> (r: (WorkbenchState, Effect<String>))
    ensures
        (r.0@, r.1@) == space_step(s@),
{
    let mut n = s.copy();
    if s.busy {
        (n, Effect::Notice(Notice::SpaceBusy))
    } else if s.tab == 6 {
        n.receiving = false;
        n.listening = false;
        if s.surveying {
            n.surveying = false;
            (n, Effect::StopSurvey)
        } else {
            (n, Effect::StartSurvey)
        }
    } else if s.tab == 7 || s.tab == 8 {
        n.receiving = false;
        n.surveying = false;
        if s.listening {
            n.listening = false;
            (n, Effect::StopAudio)
        } else {
            (n, Effect::StartAudio)
        }
    } else if s.receiving {
        n.receiving = false;
        (n, Effect::StopStream)
    } else {
        n.surveying = false;
        n.listening = false;
        (n, Effect::StartStream)
    }
}

fn char_key(s: &WorkbenchState, c: char) -> (r: (WorkbenchState, Effect<String>))
    ensures
        (r.0@, r.1@) == char_step(s@, c),
{
    let mut n = s.copy();
    let spectrum = s.tab == 0;
    if c == 'd' {
        n.tab = 9;
        n.scroll = 0;
        (n, Effect::Nothing)
    } else if c == 'D' {
        n.decoders_enabled = !s.decoders_enabled;
        (n, Effect::DecodersToggled)
    } else if c == 's' && s.tab == 9 {
        (n, Effect::ToggleDecoderLog)
    } else if c == 's' && spectrum {
        (n, Effect::ExportSpectrum)
    } else if c == 'x' && s.tab == 9 {
        n.scroll = 0;
        (n, Effect::ClearConsole)
    } else if c == 'q' {
        if s.busy {
            (n, Effect::Notice(Notice::QuitBusy))
        } else {
            (n, Effect::Quit)
        }
    } else if let Some(tab) = digit_panel(c) {
        n.tab = tab;
        n.selected = 0;
        n.scroll = 0;
        (n, Effect::Nothing)
    } else if c == 'l' {
        if s.busy {
            (n, Effect::Notice(Notice::JobRunning))
        } else {
            (n, Effect::Lookup)
        }
    } else if c == ':' {
        n.input = Some(String::new());
        (n, Effect::Nothing)
    } else if c == ' ' {
        space_key(s)
    } else if c == 'w' && (s.tab == 2 || s.tab == 3) {
        n.input = Some("export-pcap 'recording.cs8' 'packets.pcap' --protocol ble".to_owned());
        (n, Effect::Nothing)
    } else if c == 'f' && spectrum {
        if s.busy || s.listening || s.surveying {
            (n, Effect::Notice(Notice::FftBusy))
        } else {
            (n, Effect::CycleFftSize)
        }
    } else if c == ']' && spectrum {
        (n, Effect::Zoom(true))
    } else if c == '[' && spectrum {
        (n, Effect::Zoom(false))
    } else if c == '0' && spectrum {
        n.zoom = 1;
        (n, Effect::FullSpan)
    } else if c == 't' && spectrum {
        (n, Effect::TuneSelected)
    } else if c == 'm' && (spectrum || s.tab == 7) {
        if s.busy || s.surveying {
            (n, Effect::Notice(Notice::ModeBusy))
        } else {
            (n, Effect::CycleMode)
        }
    } else if c == 'b' && (spectrum || s.tab == 7) {
        n.editing_bandwidth = true;
        n.input = Some(String::new());
        (n, Effect::Nothing)
    } else if c == 'a' && spectrum {
        if s.busy || s.surveying {
            (n, Effect::Notice(Notice::ListenBusy))
        } else if s.listening {
            n.listening = false;
            (n, Effect::StopListening)
        } else {
            n.receiving = false;
            (n, Effect::StartListening)
        }
    } else if c == 'c' && spectrum {
        (n, Effect::CyclePalette)
    } else if (c == '+' || c == '=' || c == '-') && spectrum {
        (n, Effect::Threshold(c != '-'))
    } else if c == 'p' {
        n.paused = !s.paused;
        (n, Effect::Nothing)
    } else if c == 's' {
        (n, Effect::SaveFindings)
    } else if c == 'r' {
        (n, Effect::PrepareRecording)
    } else if c == 't' && s.tab == 8 {
        (n, Effect::PrepareTalk)
    } else if c == 'e' && s.tab == 8 {
        (n, Effect::EditChannel)
    } else if c == 'a' && s.tab == 8 {
        n.input = Some(
            "channels add 'New repeater' --rx 145600000 --tx 145000000 --ctcss 0 --source 'User supplied'".to_owned(),
        );
        (n, Effect::Nothing)
    } else if c == 'i' && s.tab == 3 {
        n.input = Some("identify 'recording.cs8'".to_owned());
        (n, Effect::Nothing)
    } else if c == '?' {
        n.tab = 5;
        n.scroll = 0;
        (n, Effect::ShowHelp)
    } else {
        (n, Effect::Nothing)
    }
}

fn other_key(s: &WorkbenchState, k: KeyInput) -> (r: (WorkbenchState, Effect<String>))
    requires
        s.tab < PANELS,
    ensures
        (r.0@, r.1@) == key_step(s@, k),
{
    let mut n = s.copy();
    let spectrum = s.tab == 0;
    match k {
        KeyInput::Char(c) => char_key(s, c),
        KeyInput::Tab => {
            n.tab = next_panel(s.tab);
            n.selected = 0;
            n.scroll = 0;
            (n, Effect::Nothing)
        },
        KeyInput::BackTab => {
            n.tab = previous_panel(s.tab);
            n.selected = 0;
            n.scroll = 0;
            (n, Effect::Nothing)
        },
        KeyInput::Left => if spectrum {
            (n, Effect::TuneStep(false, false))
        } else {
            (n, Effect::Nothing)
        },
        KeyInput::Right => if spectrum {
            (n, Effect::TuneStep(false, true))
        } else {
            (n, Effect::Nothing)
        },
        KeyInput::Up => if spectrum {
            (n, Effect::TuneStep(true, true))
        } else {
            n.selected = s.selected.saturating_sub(1);
            n.scroll = s.scroll.saturating_sub(1);
            (n, Effect::Nothing)
        },
        KeyInput::Down => if spectrum {
            (n, Effect::TuneStep(true, false))
        } else {
            n.selected = s.selected.saturating_add(1);
            n.scroll = s.scroll.saturating_add(1);
            (n, Effect::Nothing)
        },
        KeyInput::PageUp => if spectrum {
            (n, Effect::TuneStep(true, true))
        } else {
            n.scroll = s.scroll.saturating_sub(10);
            (n, Effect::Nothing)
        },
        KeyInput::PageDown => if spectrum {
            (n, Effect::TuneStep(true, false))
        } else {
            n.scroll = s.scroll.saturating_add(10);
            (n, Effect::Nothing)
        },
        KeyInput::Enter => if spectrum {
            n.tuning = true;
            n.input = Some(String::new());
            (n, Effect::Nothing)
        } else if s.tab == 7 || s.tab == 8 {
            (n, Effect::TuneChannel)
        } else if s.tab == 4 {
            (n, Effect::EditSetting)
        } else if s.tab == 3 {
            (n, Effect::ToggleAddon)
        } else {
            (n, Effect::Nothing)
        },
        _ => (n, Effect::Nothing),
    }
}

/// The workbench after key `k`, and the effect the terminal carries out.
pub fn step(s: &WorkbenchState, k: KeyInput) -> (r: (WorkbenchState, Effect<String>))
    requires
        s.tab < PANELS,
    ensures
        (r.0@, r.1@) == workbench_step(s@, k),
        r.0.tab < PANELS,
{
    if k == KeyInput::Interrupt {
        (s.copy(), Effect::Cancel)
    } else if s.input.is_some() {
        input_key(s, k)
    } else {
        other_key(s, k)
    }
}

} // verus!
