use aud::error::AudError;
use aud::logger::{level_for, LogLevel, Logger};
use aud::ui::keys::{
    adjust_downsample, monitor_keypress, scope_keypress, Key, KeyAction, POPUP_ALERT, POPUP_API,
    POPUP_DOCS, POPUP_SCRIPT, POPUP_USAGE, link_keypress, LinkAction,
};
use aud::ui::popups::{PopupKind, Popups};

fn popups() -> Popups {
    Popups::new(&[
        (POPUP_USAGE, PopupKind::Text),
        (POPUP_API, PopupKind::Code),
        (POPUP_DOCS, PopupKind::Code),
        (POPUP_SCRIPT, PopupKind::Code),
        (POPUP_ALERT, PopupKind::Text),
    ])
}

#[test]
fn quitting_hides_a_popup_before_leaving() {
    let mut p = popups();
    assert_eq!(scope_keypress(&mut p, Key::Char('?')), KeyAction::Continue);
    assert!(p.is_visible(POPUP_USAGE));
    assert_eq!(scope_keypress(&mut p, Key::Char('a')), KeyAction::Continue);
    assert!(p.is_visible(POPUP_API));
    assert!(!p.is_visible(POPUP_USAGE));
    assert_eq!(scope_keypress(&mut p, Key::Esc), KeyAction::Continue);
    assert!(!p.any_visible());
    assert_eq!(scope_keypress(&mut p, Key::Char('q')), KeyAction::Exit);
}

#[test]
fn toggling_the_same_popup_twice_hides_it() {
    let mut p = popups();
    monitor_keypress(&mut p, Key::Char('s'));
    assert!(p.is_visible(POPUP_SCRIPT));
    monitor_keypress(&mut p, Key::Char('s'));
    assert!(!p.any_visible());
    monitor_keypress(&mut p, Key::Char('d'));
    assert!(p.is_visible(POPUP_DOCS));
}

#[test]
fn scope_keys_adjust_the_view_and_move_selectors() {
    let mut p = popups();
    assert_eq!(scope_keypress(&mut p, Key::Char('K')), KeyAction::GainUp);
    assert_eq!(scope_keypress(&mut p, Key::Char('J')), KeyAction::GainDown);
    assert_eq!(scope_keypress(&mut p, Key::Char('H')), KeyAction::ZoomOut);
    assert_eq!(scope_keypress(&mut p, Key::Char('L')), KeyAction::ZoomIn);
    assert_eq!(scope_keypress(&mut p, Key::Up), KeyAction::PreviousItem);
    assert_eq!(scope_keypress(&mut p, Key::Char('j')), KeyAction::NextItem);
    assert_eq!(scope_keypress(&mut p, Key::Left), KeyAction::PreviousSelector);
    assert_eq!(scope_keypress(&mut p, Key::Char('l')), KeyAction::NextSelector);
    assert_eq!(scope_keypress(&mut p, Key::Enter), KeyAction::Confirm);
    assert_eq!(scope_keypress(&mut p, Key::Char('c')), KeyAction::Continue);
    assert_eq!(scope_keypress(&mut p, Key::Other), KeyAction::Continue);
    assert!(!p.any_visible());
}

#[test]
fn monitor_keys_pause_and_clear() {
    let mut p = popups();
    assert_eq!(monitor_keypress(&mut p, Key::Char(' ')), KeyAction::ToggleRunningState);
    assert_eq!(monitor_keypress(&mut p, Key::Char('c')), KeyAction::ClearMessages);
    assert_eq!(monitor_keypress(&mut p, Key::Char('K')), KeyAction::Continue);
    assert_eq!(monitor_keypress(&mut p, Key::Down), KeyAction::NextItem);
    assert_eq!(monitor_keypress(&mut p, Key::Char('h')), KeyAction::PreviousSelector);
    assert_eq!(monitor_keypress(&mut p, Key::Esc), KeyAction::Exit);
}

#[test]
fn zoom_stays_between_8_and_4096_samples() {
    assert_eq!(adjust_downsample(16, 8), 24);
    assert_eq!(adjust_downsample(16, -8), 8);
    assert_eq!(adjust_downsample(8, -8), 8);
    assert_eq!(adjust_downsample(4096, 8), 4096);
    assert_eq!(adjust_downsample(4090, 8), 4096);
}

#[test]
fn the_logger_is_set_up_once() {
    assert_eq!(level_for(true), LogLevel::Trace);
    assert_eq!(level_for(false), LogLevel::Debug);
    let mut logger = Logger::new();
    assert!(!logger.is_active());
    assert_eq!(logger.start(false).unwrap(), LogLevel::Debug);
    // A setup that failed leaves the logger to be set up again.
    assert_eq!(
        logger.finish_start(Err(AudError::new("no log file"))).unwrap_err().message,
        "no log file"
    );
    assert!(!logger.is_active());
    assert_eq!(logger.start(true).unwrap(), LogLevel::Trace);
    assert!(logger.finish_start(Ok(())).is_ok());
    assert!(logger.is_active());
    assert_eq!(
        logger.start(true).unwrap_err().message,
        "attempted to setup logger more than once"
    );
    assert!(logger.is_active());
}

#[test]
fn link_keys_change_the_session_or_leave() {
    assert_eq!(link_keypress(false, Key::Char('?')), LinkAction::ToggleUsage);
    assert_eq!(link_keypress(true, Key::Char('q')), LinkAction::HideUsage);
    assert_eq!(link_keypress(false, Key::Esc), LinkAction::Exit);
    assert_eq!(link_keypress(false, Key::Char('k')), LinkAction::TempoUp);
    assert_eq!(link_keypress(false, Key::Char('j')), LinkAction::TempoDown);
    assert_eq!(link_keypress(false, Key::Char('l')), LinkAction::QuantumUp);
    assert_eq!(link_keypress(false, Key::Char('h')), LinkAction::QuantumDown);
    assert_eq!(link_keypress(false, Key::Char('a')), LinkAction::ToggleEnabled);
    assert_eq!(link_keypress(false, Key::Char('s')), LinkAction::ToggleStartStopSync);
    assert_eq!(link_keypress(false, Key::Char(' ')), LinkAction::TogglePlaying);
    assert_eq!(link_keypress(false, Key::Up), LinkAction::Continue);
}
