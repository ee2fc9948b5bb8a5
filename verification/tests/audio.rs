use shadow_player::audio::{
    output_status, resume_after_load, AudioAction, AudioEvent, AudioWorker, Settle,
};
use shadow_player::playback::PlaybackStatus;

#[test]
fn the_worker_loads_only_the_wanted_session_and_refuses_other_controls() {
    let w = AudioWorker::new();
    assert_eq!(w.on_command(AudioEvent::Load(2), 3), (w, AudioAction::Nothing));
    let (w, action) = w.on_command(AudioEvent::Load(1), 1);
    assert_eq!(action, AudioAction::Load);
    assert_eq!(w, AudioWorker { loaded: 1, failed: false });
    assert!(resume_after_load(1, 1));
    assert!(!resume_after_load(1, 2));
    assert_eq!(w.on_command(AudioEvent::Control(1), 1), (w, AudioAction::ApplyControl));
    assert_eq!(w.on_command(AudioEvent::Control(2), 1), (w, AudioAction::RefuseControl));
    assert_eq!(w.on_command(AudioEvent::Control(1), 2), (w, AudioAction::RefuseControl));
    assert_eq!(w.settle(1, Ok(())), (w, Settle::Report));
    assert_eq!(w.settle(2, Ok(())), (w, Settle::SessionChanged));
    let (stopped, action) = w.on_command(AudioEvent::Stop, 0);
    assert_eq!(action, AudioAction::Stop);
    assert_eq!(stopped.loaded, 0);
    assert_eq!(stopped.settle(0, Ok(())), (stopped, Settle::Idle));
    assert_eq!(w.on_command(AudioEvent::Idle, 1), (w, AudioAction::Nothing));
}

#[test]
fn a_failed_session_stays_failed_until_it_is_loaded_again() {
    let w = AudioWorker { loaded: 4, failed: false };
    let (failed, step) = w.settle(4, Err("Audio output unavailable".to_string()));
    assert_eq!(step, Settle::Failed("Audio output unavailable".to_string()));
    assert!(failed.failed);
    assert_eq!(failed.settle(4, Ok(())), (failed, Settle::Quiet));
    assert_eq!(failed.on_command(AudioEvent::Control(4), 4).1, AudioAction::RefuseControl);
    let (reloaded, _) = failed.on_command(AudioEvent::Load(4), 4);
    assert!(!reloaded.failed);
}

#[test]
fn the_output_reports_ended_before_paused() {
    assert_eq!(output_status(true, true), PlaybackStatus::Ended);
    assert_eq!(output_status(false, true), PlaybackStatus::Paused);
    assert_eq!(output_status(false, false), PlaybackStatus::Playing);
}
