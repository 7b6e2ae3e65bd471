//! What the keys do in the terminal interfaces of the oscilloscope and of
//! the MIDI monitor: popups are toggled here, and the rest is an action for
//! the interface to carry out.

use vstd::prelude::*;

use crate::ui::popups::Popups;

verus! {

/// A key pressed, as the terminal reports it.
#[derive(Clone, Copy, Debug, PartialEq, Eq, Structural)]
pub enum Key {
    Char(char),
    Up,
    Down,
    Left,
    Right,
    Enter,
    Esc,
    Other,
}

/// The popup listing the keys.
pub const POPUP_USAGE: usize = 0;

/// The popup showing the script API.
pub const POPUP_API: usize = 1;

/// The popup showing the script documentation.
pub const POPUP_DOCS: usize = 2;

/// The popup showing the script loaded.
pub const POPUP_SCRIPT: usize = 3;

/// The popup showing the script's last alert.
pub const POPUP_ALERT: usize = 4;

/// What a key asks of the interface once its popups are dealt with.
#[derive(Clone, Copy, Debug, PartialEq, Eq, Structural)]
pub enum KeyAction {
    /// Nothing more to do.
    Continue,
    /// Leave the application.
    Exit,
    PreviousItem,
    NextItem,
    PreviousSelector,
    NextSelector,
    /// Confirm the item highlighted in the current selector.
    Confirm,
    GainUp,
    GainDown,
    ZoomOut,
    ZoomIn,
    ToggleRunningState,
    ClearMessages,
}

/// `visible` after toggling `popup`: hidden if it was the one visible,
/// shown otherwise.
pub open spec fn toggled(visible: Option<usize>, popup: usize) -> Option<usize> {
    if visible == Some(popup) {
        None
    } else {
        Some(popup)
    }
}

/// The popup that a character toggles in both interfaces.
pub open spec fn popup_key(c: char) -> Option<usize> {
    if c == '?' {
        Some(POPUP_USAGE)
    } else if c == 'a' {
        Some(POPUP_API)
    } else if c == 's' {
        Some(POPUP_SCRIPT)
    } else if c == 'd' {
        Some(POPUP_DOCS)
    } else {
        None
    }
}

/// The selector movements shared by both interfaces: arrows or vim keys.
pub open spec fn navigation(key: Key) -> Option<KeyAction> {
    match key {
        Key::Up => Some(KeyAction::PreviousItem),
        Key::Down => Some(KeyAction::NextItem),
        Key::Left => Some(KeyAction::PreviousSelector),
        Key::Right => Some(KeyAction::NextSelector),
        Key::Char(c) => if c == 'k' {
            Some(KeyAction::PreviousItem)
        } else if c == 'j' {
            Some(KeyAction::NextItem)
        } else if c == 'h' {
            Some(KeyAction::PreviousSelector)
        } else if c == 'l' {
            Some(KeyAction::NextSelector)
        } else {
            None
        },
        _ => None,
    }
}

/// The keys that leave the application, or hide the popup shown.
pub open spec fn quits(key: Key) -> bool {
    key == Key::Esc || key == Key::Char('q')
}

/// What a key does in the oscilloscope, from the popup visible before: the
/// action, and the popup visible after.
pub open spec fn scope_key(visible: Option<usize>, key: Key) -> (KeyAction, Option<usize>) {
    if key matches Key::Char(c) && popup_key(c) is Some {
        (KeyAction::Continue, toggled(visible, popup_key(key->0)->0))
    } else if quits(key) {
        if visible is None {
            (KeyAction::Exit, visible)
        } else {
            (KeyAction::Continue, None)
        }
    } else if key == Key::Char('K') {
        (KeyAction::GainUp, visible)
    } else if key == Key::Char('J') {
        (KeyAction::GainDown, visible)
    } else if key == Key::Char('H') {
        (KeyAction::ZoomOut, visible)
    } else if key == Key::Char('L') {
        (KeyAction::ZoomIn, visible)
    } else if navigation(key) is Some {
        (navigation(key)->0, visible)
    } else if key == Key::Enter {
        (KeyAction::Confirm, visible)
    } else {
        (KeyAction::Continue, visible)
    }
}

/// What a key does in the MIDI monitor, from the popup visible before: the
/// action, and the popup visible after.
pub open spec fn monitor_key(visible: Option<usize>, key: Key) -> (KeyAction, Option<usize>) {
    if key matches Key::Char(c) && popup_key(c) is Some {
        (KeyAction::Continue, toggled(visible, popup_key(key->0)->0))
    } else if quits(key) {
        if visible is None {
            (KeyAction::Exit, visible)
        } else {
            (KeyAction::Continue, None)
        }
    } else if key == Key::Char('c') {
        (KeyAction::ClearMessages, visible)
    } else if key == Key::Char(' ') {
        (KeyAction::ToggleRunningState, visible)
    } else if navigation(key) is Some {
        (navigation(key)->0, visible)
    } else if key == Key::Enter {
        (KeyAction::Confirm, visible)
    } else {
        (KeyAction::Continue, visible)
    }
}

/// In both interfaces, whatever popup is shown, each arrow does what its vim
/// key does and leaves the popup as it is: right and `l` move to the next
/// selector, left and `h` to the previous one, down and `j` to the next item
/// of the selector, up and `k` to the previous one.
pub proof fn lemma_arrows_move_like_vim_keys(visible: Option<usize>)
    ensures
        scope_key(visible, Key::Right) == (KeyAction::NextSelector, visible),
        scope_key(visible, Key::Char('l')) == (KeyAction::NextSelector, visible),
        scope_key(visible, Key::Left) == (KeyAction::PreviousSelector, visible),
        scope_key(visible, Key::Char('h')) == (KeyAction::PreviousSelector, visible),
        scope_key(visible, Key::Down) == (KeyAction::NextItem, visible),
        scope_key(visible, Key::Char('j')) == (KeyAction::NextItem, visible),
        scope_key(visible, Key::Up) == (KeyAction::PreviousItem, visible),
        scope_key(visible, Key::Char('k')) == (KeyAction::PreviousItem, visible),
        monitor_key(visible, Key::Right) == (KeyAction::NextSelector, visible),
        monitor_key(visible, Key::Char('l')) == (KeyAction::NextSelector, visible),
        monitor_key(visible, Key::Left) == (KeyAction::PreviousSelector, visible),
        monitor_key(visible, Key::Char('h')) == (KeyAction::PreviousSelector, visible),
        monitor_key(visible, Key::Down) == (KeyAction::NextItem, visible),
        monitor_key(visible, Key::Char('j')) == (KeyAction::NextItem, visible),
        monitor_key(visible, Key::Up) == (KeyAction::PreviousItem, visible),
        monitor_key(visible, Key::Char('k')) == (KeyAction::PreviousItem, visible),
{
}

/// The other keys of the oscilloscope, whatever popup is shown: `?`, `a`,
/// `s` and `d` toggle the usage, API, script and docs popups; `q` and escape
/// hide the popup shown, or leave when none is; `K`/`J` raise and lower the
/// gain and `H`/`L` zoom out and in; enter confirms; a key without a use
/// does nothing.
pub proof fn lemma_scope_keys(visible: Option<usize>)
    ensures
        scope_key(visible, Key::Char('?')) == (KeyAction::Continue, toggled(visible, POPUP_USAGE)),
        scope_key(visible, Key::Char('a')) == (KeyAction::Continue, toggled(visible, POPUP_API)),
        scope_key(visible, Key::Char('s')) == (KeyAction::Continue, toggled(visible, POPUP_SCRIPT)),
        scope_key(visible, Key::Char('d')) == (KeyAction::Continue, toggled(visible, POPUP_DOCS)),
        visible is None ==> scope_key(visible, Key::Esc) == (KeyAction::Exit, visible),
        visible is None ==> scope_key(visible, Key::Char('q')) == (KeyAction::Exit, visible),
        visible is Some ==> scope_key(visible, Key::Esc) == (KeyAction::Continue, None::<usize>),
        visible is Some ==> scope_key(visible, Key::Char('q')) == (KeyAction::Continue, None::<usize>),
        scope_key(visible, Key::Char('K')) == (KeyAction::GainUp, visible),
        scope_key(visible, Key::Char('J')) == (KeyAction::GainDown, visible),
        scope_key(visible, Key::Char('H')) == (KeyAction::ZoomOut, visible),
        scope_key(visible, Key::Char('L')) == (KeyAction::ZoomIn, visible),
        scope_key(visible, Key::Enter) == (KeyAction::Confirm, visible),
        scope_key(visible, Key::Other) == (KeyAction::Continue, visible),
        scope_key(visible, Key::Char('c')) == (KeyAction::Continue, visible),
        scope_key(visible, Key::Char(' ')) == (KeyAction::Continue, visible),
{
}

/// The other keys of the MIDI monitor, whatever popup is shown: `?`, `a`,
/// `s` and `d` toggle the usage, API, script and docs popups; `q` and escape
/// hide the popup shown, or leave when none is; `c` clears the messages and
/// space pauses or resumes; enter confirms; a key without a use does
/// nothing.
pub proof fn lemma_monitor_keys(visible: Option<usize>)
    ensures
        monitor_key(visible, Key::Char('?')) == (KeyAction::Continue, toggled(visible, POPUP_USAGE)),
        monitor_key(visible, Key::Char('a')) == (KeyAction::Continue, toggled(visible, POPUP_API)),
        monitor_key(visible, Key::Char('s')) == (KeyAction::Continue, toggled(visible, POPUP_SCRIPT)),
        monitor_key(visible, Key::Char('d')) == (KeyAction::Continue, toggled(visible, POPUP_DOCS)),
        visible is None ==> monitor_key(visible, Key::Esc) == (KeyAction::Exit, visible),
        visible is None ==> monitor_key(visible, Key::Char('q')) == (KeyAction::Exit, visible),
        visible is Some ==> monitor_key(visible, Key::Esc) == (KeyAction::Continue, None::<usize>),
        visible is Some ==> monitor_key(visible, Key::Char('q')) == (KeyAction::Continue, None::<usize>),
        monitor_key(visible, Key::Char('c')) == (KeyAction::ClearMessages, visible),
        monitor_key(visible, Key::Char(' ')) == (KeyAction::ToggleRunningState, visible),
        monitor_key(visible, Key::Enter) == (KeyAction::Confirm, visible),
        monitor_key(visible, Key::Other) == (KeyAction::Continue, visible),
        monitor_key(visible, Key::Char('K')) == (KeyAction::Continue, visible),
        monitor_key(visible, Key::Char('L')) == (KeyAction::Continue, visible),
{
}

/// Toggles the popup of `c`, if it has one; returns whether it had one.
fn toggle_popup_of(popups: &mut Popups, c: char) -> (r: bool)
    ensures
        r == popup_key(c) is Some,
        r ==> final(popups)@.visible == toggled(old(popups)@.visible, popup_key(c)->0),
        !r ==> final(popups)@.visible == old(popups)@.visible,
        final(popups)@.kinds == old(popups)@.kinds,
{
    if c == '?' {
        popups.toggle_visible(POPUP_USAGE);
        true
    } else if c == 'a' {
        popups.toggle_visible(POPUP_API);
        true
    } else if c == 's' {
        popups.toggle_visible(POPUP_SCRIPT);
        true
    } else if c == 'd' {
        popups.toggle_visible(POPUP_DOCS);
        true
    } else {
        false
    }
}

/// Hides the popup shown, if any; returns `Exit` when none was.
fn quit_or_hide(popups: &mut Popups) -> (r: KeyAction)
    ensures
        old(popups)@.visible is None ==> r == KeyAction::Exit && final(popups)@.visible == old(popups)@.visible,
        old(popups)@.visible is Some ==> r == KeyAction::Continue && final(popups)@.visible is None,
        final(popups)@.kinds == old(popups)@.kinds,
{
    if !popups.any_visible() {
        return KeyAction::Exit;
    }
    popups.hide_visible();
    KeyAction::Continue
}

/// The selector movement of `key`, if it is one.
fn navigation_of(key: Key) -> (r: Option<KeyAction>)
    ensures
        r == navigation(key),
{
    match key {
        Key::Up => Some(KeyAction::PreviousItem),
        Key::Down => Some(KeyAction::NextItem),
        Key::Left => Some(KeyAction::PreviousSelector),
        Key::Right => Some(KeyAction::NextSelector),
        Key::Char(c) => {
            if c == 'k' {
                Some(KeyAction::PreviousItem)
            } else if c == 'j' {
                Some(KeyAction::NextItem)
            } else if c == 'h' {
                Some(KeyAction::PreviousSelector)
            } else if c == 'l' {
                Some(KeyAction::NextSelector)
            } else {
                None
            }
        },
        _ => None,
    }
}

/// Handles a key of the oscilloscope: `?`, `a`, `s` and `d` toggle the
/// usage, API, script and docs popups; `q` or escape hides the popup shown,
/// or leaves when none is; `K`/`J` raise and lower the gain, `H`/`L` zoom out
/// and in; arrows and `hjkl` move between and within the selectors; enter
/// confirms.
pub fn scope_keypress(popups: &mut Popups, key: Key) -> (r: KeyAction)
    ensures
        (r, final(popups)@.visible) == scope_key(old(popups)@.visible, key),
        final(popups)@.kinds == old(popups)@.kinds,
{
    if let Key::Char(c) = key {
        if toggle_popup_of(popups, c) {
            return KeyAction::Continue;
        }
    }
    if key == Key::Esc || key == Key::Char('q') {
        return quit_or_hide(popups);
    }
    if key == Key::Char('K') {
        return KeyAction::GainUp;
    }
    if key == Key::Char('J') {
        return KeyAction::GainDown;
    }
    if key == Key::Char('H') {
        return KeyAction::ZoomOut;
    }
    if key == Key::Char('L') {
        return KeyAction::ZoomIn;
    }
    if let Some(action) = navigation_of(key) {
        return action;
    }
    if key == Key::Enter {
        return KeyAction::Confirm;
    }
    KeyAction::Continue
}

/// Handles a key of the MIDI monitor: `?`, `a`, `s` and `d` toggle the
/// usage, API, script and docs popups; `q` or escape hides the popup shown,
/// or leaves when none is; `c` clears the messages and space pauses or
/// resumes; arrows and `hjkl` move between and within the selectors; enter
/// confirms.
pub fn monitor_keypress(popups: &mut Popups, key: Key) -> (r: KeyAction)
    ensures
        (r, final(popups)@.visible) == monitor_key(old(popups)@.visible, key),
        final(popups)@.kinds == old(popups)@.kinds,
{
    if let Key::Char(c) = key {
        if toggle_popup_of(popups, c) {
            return KeyAction::Continue;
        }
    }
    if key == Key::Esc || key == Key::Char('q') {
        return quit_or_hide(popups);
    }
    if key == Key::Char('c') {
        return KeyAction::ClearMessages;
    }
    if key == Key::Char(' ') {
        return KeyAction::ToggleRunningState;
    }
    if let Some(action) = navigation_of(key) {
        return action;
    }
    if key == Key::Enter {
        return KeyAction::Confirm;
    }
    KeyAction::Continue
}

/// The oscilloscope's zoom after `amount` more samples per column: the
/// number of samples drawn per column stays between 8 and 4096.
pub fn adjust_downsample(downsample: usize, amount: isize) -> (r: usize)
    requires
        downsample <= isize::MAX,
    ensures
        r == (if downsample + amount < 8 {
            8
        } else if downsample + amount > 4096 {
            4096
        } else {
            downsample + amount
        }),
{
    let d = downsample as isize;
    if amount < 8 - d {
        8
    } else if amount > 4096 - d {
        4096
    } else {
        (d + amount) as usize
    }
}

/// What a key asks of the tempo-sync interface.
#[derive(Clone, Copy, Debug, PartialEq, Eq, Structural)]
pub enum LinkAction {
    /// Nothing to do.
    Continue,
    /// Show the usage if hidden, hide it if shown.
    ToggleUsage,
    /// Hide the usage shown.
    HideUsage,
    /// Stop the session and leave the application.
    Exit,
    /// Join the session if out of it, leave it if in.
    ToggleEnabled,
    /// One beat per minute faster, committed to the session.
    TempoUp,
    /// One beat per minute slower, committed to the session.
    TempoDown,
    /// One beat more in the quantum.
    QuantumUp,
    /// One beat less in the quantum.
    QuantumDown,
    /// Turn the start and stop sync on if off, off if on.
    ToggleStartStopSync,
    /// Start playing if stopped, stop if playing, committed to the session.
    TogglePlaying,
}

/// The action of a key of the tempo-sync interface while the usage is
/// shown or not.
pub open spec fn link_key(show_usage: bool, key: Key) -> LinkAction {
    if key == Key::Char('?') {
        LinkAction::ToggleUsage
    } else if key == Key::Char('q') || key == Key::Esc {
        if show_usage {
            LinkAction::HideUsage
        } else {
            LinkAction::Exit
        }
    } else if key == Key::Char('a') {
        LinkAction::ToggleEnabled
    } else if key == Key::Char('k') {
        LinkAction::TempoUp
    } else if key == Key::Char('j') {
        LinkAction::TempoDown
    } else if key == Key::Char('l') {
        LinkAction::QuantumUp
    } else if key == Key::Char('h') {
        LinkAction::QuantumDown
    } else if key == Key::Char('s') {
        LinkAction::ToggleStartStopSync
    } else if key == Key::Char(' ') {
        LinkAction::TogglePlaying
    } else {
        LinkAction::Continue
    }
}

/// Handles a key of the tempo-sync interface: `?` toggles the usage; `q`
/// or escape hides the usage shown, or leaves when it is hidden; `a` joins
/// or leaves the session; `k` and `j` change the tempo, `l` and `h` the
/// quantum; `s` toggles the start and stop sync and space the playing.
pub fn link_keypress(show_usage: bool, key: Key) -> (r: LinkAction)
    ensures
        r == link_key(show_usage, key),
{
    if key == Key::Char('?') {
        LinkAction::ToggleUsage
    } else if key == Key::Char('q') || key == Key::Esc {
        if show_usage {
            LinkAction::HideUsage
        } else {
            LinkAction::Exit
        }
    } else if key == Key::Char('a') {
        LinkAction::ToggleEnabled
    } else if key == Key::Char('k') {
        LinkAction::TempoUp
    } else if key == Key::Char('j') {
        LinkAction::TempoDown
    } else if key == Key::Char('l') {
        LinkAction::QuantumUp
    } else if key == Key::Char('h') {
        LinkAction::QuantumDown
    } else if key == Key::Char('s') {
        LinkAction::ToggleStartStopSync
    } else if key == Key::Char(' ') {
        LinkAction::TogglePlaying
    } else {
        LinkAction::Continue
    }
}

} // verus!
