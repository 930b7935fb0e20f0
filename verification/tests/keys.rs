use thugsrf::workbench::{
    receive_change_refusal, settle, step, tuning_refusal, Effect, KeyInput, Notice, WorkbenchState, WorkerEvent,
};

fn press(keys: &[KeyInput]) -> (WorkbenchState, Vec<Effect<String>>) {
    let mut state = WorkbenchState::new();
    let mut effects = Vec::new();
    for k in keys {
        let (next, effect) = step(&state, *k);
        state = next;
        effects.push(effect);
    }
    (state, effects)
}

fn typed(text: &str) -> Vec<KeyInput> {
    text.chars().map(KeyInput::Char).collect()
}

#[test]
fn the_workbench_starts_idle() {
    let s = WorkbenchState::new();
    assert_eq!(s.tab, 0);
    assert!(!s.busy && !s.receiving && !s.surveying && !s.listening);
    assert!(s.input.is_none() && s.editing.is_none());
    assert!(s.decoders_enabled);
    assert_eq!(s.zoom, 1);
}

#[test]
fn q_quits_only_when_no_job_runs() {
    let mut s = WorkbenchState::new();
    assert_eq!(step(&s, KeyInput::Char('q')).1, Effect::Quit);
    s.busy = true;
    assert_eq!(step(&s, KeyInput::Char('q')).1, Effect::Notice(Notice::QuitBusy));
    assert_eq!(Notice::QuitBusy.message(), "Wait for the active job to finish before quitting");
    s.busy = false;
    s.input = Some(String::new());
    let (next, effect) = step(&s, KeyInput::Char('q'));
    assert_eq!(effect, Effect::Nothing);
    assert_eq!(next.input.as_deref(), Some("q"));
}

#[test]
fn a_typed_command_runs_on_enter() {
    let mut keys = vec![KeyInput::Char(':')];
    keys.extend(typed("replay /tmp/a.cs8 --confirm-tx"));
    keys.push(KeyInput::Enter);
    let (after, effects) = press(&keys);
    assert_eq!(effects.last(), Some(&Effect::RunCommand("replay /tmp/a.cs8 --confirm-tx".to_string())));
    assert!(effects[..effects.len() - 1].iter().all(|e| *e == Effect::Nothing));
    assert!(after.input.is_none());
    let mut busy = WorkbenchState::new();
    busy.busy = true;
    busy.input = Some("doctor".into());
    let (after, effect) = step(&busy, KeyInput::Enter);
    assert_eq!(effect, Effect::Notice(Notice::JobRunning));
    assert!(after.input.is_none());
}

#[test]
fn editing_keys_change_the_typed_text() {
    let mut s = WorkbenchState::new();
    s.input = Some("ab".into());
    let (typed_c, _) = step(&s, KeyInput::Char('c'));
    assert_eq!(typed_c.input.as_deref(), Some("abc"));
    let (undone, _) = step(&typed_c, KeyInput::Backspace);
    assert_eq!(undone.input.as_deref(), Some("ab"));
    s.input = Some(String::new());
    assert_eq!(step(&s, KeyInput::Backspace).0.input.as_deref(), Some(""));
    s.input = Some("x".into());
    s.editing = Some("frequency".into());
    let (closed, effect) = step(&s, KeyInput::Esc);
    assert_eq!(effect, Effect::Nothing);
    assert!(closed.input.is_none() && closed.editing.is_none());
}

#[test]
fn enter_hands_the_text_to_the_open_editor() {
    let mut s = WorkbenchState::new();
    s.input = Some("12.5khz".into());
    s.editing_bandwidth = true;
    let (after, effect) = step(&s, KeyInput::Enter);
    assert_eq!(effect, Effect::ApplyBandwidth("12.5khz".into()));
    assert!(!after.editing_bandwidth);
    s.editing_bandwidth = false;
    s.tuning = true;
    s.input = Some("145.5MHz".into());
    assert_eq!(step(&s, KeyInput::Enter).1, Effect::Tune("145.5MHz".into()));
    s.tuning = false;
    s.editing = Some("gain".into());
    s.input = Some("30".into());
    let (after, effect) = step(&s, KeyInput::Enter);
    assert_eq!(effect, Effect::SaveSetting("gain".into(), "30".into()));
    assert!(after.editing.is_none());
}

#[test]
fn space_toggles_what_the_panel_runs() {
    let mut s = WorkbenchState::new();
    assert_eq!(step(&s, KeyInput::Char(' ')).1, Effect::StartStream);
    s.receiving = true;
    let (after, effect) = step(&s, KeyInput::Char(' '));
    assert_eq!(effect, Effect::StopStream);
    assert!(!after.receiving);
    s.tab = 6;
    let (after, effect) = step(&s, KeyInput::Char(' '));
    assert_eq!(effect, Effect::StartSurvey);
    assert!(!after.receiving);
    s.surveying = true;
    assert_eq!(step(&s, KeyInput::Char(' ')).1, Effect::StopSurvey);
    s.tab = 7;
    s.surveying = false;
    assert_eq!(step(&s, KeyInput::Char(' ')).1, Effect::StartAudio);
    s.listening = true;
    assert_eq!(step(&s, KeyInput::Char(' ')).1, Effect::StopAudio);
    s.busy = true;
    assert_eq!(step(&s, KeyInput::Char(' ')).1, Effect::Notice(Notice::SpaceBusy));
}

#[test]
fn panels_and_rows_move_with_the_navigation_keys() {
    let mut s = WorkbenchState::new();
    s.tab = 9;
    s.selected = 4;
    let (after, _) = step(&s, KeyInput::Tab);
    assert_eq!((after.tab, after.selected, after.scroll), (0, 0, 0));
    assert_eq!(step(&after, KeyInput::BackTab).0.tab, 9);
    assert_eq!(step(&s, KeyInput::Char('3')).0.tab, 2);
    assert_eq!(step(&s, KeyInput::Char('d')).0.tab, 9);
    assert_eq!(step(&s, KeyInput::Char('?')).1, Effect::ShowHelp);
    s.tab = 4;
    let (down, _) = step(&s, KeyInput::Down);
    assert_eq!((down.selected, down.scroll), (5, 1));
    s.scroll = 3;
    assert_eq!(step(&s, KeyInput::PageUp).0.scroll, 0);
    s.scroll = u16::MAX - 2;
    assert_eq!(step(&s, KeyInput::PageDown).0.scroll, u16::MAX);
    s.tab = 0;
    assert_eq!(step(&s, KeyInput::Down).1, Effect::TuneStep(true, false));
    assert_eq!(step(&s, KeyInput::Right).1, Effect::TuneStep(false, true));
    assert_eq!(step(&s, KeyInput::Enter).0.input.as_deref(), Some(""));
}

#[test]
fn spectrum_keys_respect_running_jobs() {
    let mut s = WorkbenchState::new();
    assert_eq!(step(&s, KeyInput::Char('f')).1, Effect::CycleFftSize);
    assert_eq!(step(&s, KeyInput::Char('a')).1, Effect::StartListening);
    assert_eq!(step(&s, KeyInput::Char('-')).1, Effect::Threshold(false));
    assert_eq!(step(&s, KeyInput::Char('=')).1, Effect::Threshold(true));
    assert_eq!(step(&s, KeyInput::Char('l')).1, Effect::Lookup);
    s.zoom = 8;
    let (full, effect) = step(&s, KeyInput::Char('0'));
    assert_eq!((full.zoom, effect), (1, Effect::FullSpan));
    s.listening = true;
    assert_eq!(step(&s, KeyInput::Char('f')).1, Effect::Notice(Notice::FftBusy));
    assert_eq!(step(&s, KeyInput::Char('a')).1, Effect::StopListening);
    assert_eq!(tuning_refusal(&s), Some(Notice::TuneBusy));
    assert_eq!(receive_change_refusal(&s), None);
    s.surveying = true;
    assert_eq!(step(&s, KeyInput::Char('m')).1, Effect::Notice(Notice::ModeBusy));
    assert_eq!(receive_change_refusal(&s), Some(Notice::ModeBusy));
    assert_eq!(Notice::ModeBusy.message(), "Stop the active job or survey before changing receive mode");
}

#[test]
fn prepared_commands_only_fill_the_command_bar() {
    let mut s = WorkbenchState::new();
    s.tab = 8;
    let (after, effect) = step(&s, KeyInput::Char('a'));
    assert_eq!(effect, Effect::Nothing);
    assert_eq!(
        after.input.as_deref(),
        Some("channels add 'New repeater' --rx 145600000 --tx 145000000 --ctcss 0 --source 'User supplied'")
    );
    assert_eq!(step(&s, KeyInput::Char('t')).1, Effect::PrepareTalk);
    s.tab = 3;
    assert_eq!(step(&s, KeyInput::Char('i')).0.input.as_deref(), Some("identify 'recording.cs8'"));
    assert_eq!(
        step(&s, KeyInput::Char('w')).0.input.as_deref(),
        Some("export-pcap 'recording.cs8' 'packets.pcap' --protocol ble")
    );
    assert_eq!(step(&s, KeyInput::Enter).1, Effect::ToggleAddon);
}

#[test]
fn interrupt_cancels_even_while_typing() {
    let mut s = WorkbenchState::new();
    s.input = Some("rec".into());
    let (after, effect) = step(&s, KeyInput::Interrupt);
    assert_eq!(effect, Effect::Cancel);
    assert_eq!(after.input.as_deref(), Some("rec"));
}

#[test]
fn worker_events_update_the_workbench() {
    let mut s = WorkbenchState::new();
    s.receiving = true;
    s.tab = 2;
    s.scroll = 7;
    let started = settle(&s, WorkerEvent::JobStarted);
    assert!(started.busy && !started.receiving && !started.surveying && !started.listening);
    assert_eq!(step(&started, KeyInput::Char('q')).1, Effect::Notice(Notice::QuitBusy));
    let finished = settle(&started, WorkerEvent::JobFinished);
    assert!(!finished.busy);
    assert_eq!((finished.tab, finished.scroll), (5, 0));
    assert_eq!(step(&finished, KeyInput::Char('q')).1, Effect::Quit);
    let failed = settle(&s, WorkerEvent::ReceiverFailed);
    assert_eq!((failed.receiving, failed.tab, failed.scroll), (false, 5, 0));
    let ended = settle(&s, WorkerEvent::ReceiverEnded);
    assert_eq!((ended.receiving, ended.tab, ended.scroll), (false, 2, 7));
    s.listening = true;
    let audio = settle(&s, WorkerEvent::AudioFailed);
    assert_eq!((audio.listening, audio.tab, audio.scroll), (false, 5, 7));
    assert!(!settle(&s, WorkerEvent::AudioEnded).listening);
    s.surveying = true;
    assert!(!settle(&s, WorkerEvent::SweepEnded).surveying);
}
