use aud::ui::popups::{PopupKind, Popups};
use aud::ui::selector::Selector;

#[test]
fn can_wrap_around_while_cycling_forward() {
    const LEN: usize = 3;
    let mut selector = Selector::with_len(LEN);
    assert_eq!(selector.selected(), None);
    selector.confirm_selection();

    for i in 0..LEN {
        assert_eq!(selector.selected().unwrap(), i);
        selector.next();
        selector.confirm_selection();
    }

    assert_eq!(selector.selected().unwrap(), 0);
}

#[test]
fn can_wrap_around_while_cycling_backwards() {
    const LEN: usize = 3;
    let mut selector = Selector::with_len(LEN);
    assert_eq!(selector.selected(), None);
    selector.confirm_selection();

    for i in (0..LEN).rev() {
        selector.previous();
        selector.confirm_selection();
        assert_eq!(selector.selected().unwrap(), i);
    }

    assert_eq!(selector.selected().unwrap(), 0);
}

#[test]
fn can_cycle_through_indices_while_retaining_the_selection() {
    let mut selector = Selector::with_len(3);
    assert_eq!(selector.selected(), None);

    selector.next();
    assert_eq!(selector.selected(), None);

    selector.next();
    assert_eq!(selector.selected(), None);

    selector.confirm_selection();
    assert_eq!(selector.selected().unwrap(), 2);

    selector.previous();
    assert_eq!(selector.selected().unwrap(), 2);

    selector.previous();
    assert_eq!(selector.selected().unwrap(), 2);

    selector.confirm_selection();
    assert_eq!(selector.selected().unwrap(), 0);
}

#[test]
fn an_empty_selector_highlights_nothing() {
    let mut selector = Selector::with_len(0);
    assert_eq!(selector.highlighted(), None);
    selector.next();
    selector.previous();
    selector.select(0);
    assert_eq!(selector.highlighted(), None);
    selector.resize(4, Some(3));
    assert_eq!(selector.selected(), Some(3));
    selector.next();
    assert_eq!(selector.highlighted(), Some(0));
    selector.previous();
    assert_eq!(selector.highlighted(), Some(3));
    selector.select(9);
    assert_eq!(selector.highlighted(), Some(3));
    selector.select(1);
    assert_eq!(selector.highlighted(), Some(1));
}

#[test]
fn only_one_popup_is_visible_at_a_time() {
    const A: usize = 0;
    const B: usize = 1;
    const C: usize = 2;
    let all = [A, B, C];
    let mut popups = Popups::new(&[(A, PopupKind::Code), (B, PopupKind::Text), (C, PopupKind::Text)]);

    for popup in all {
        assert!(!popups.is_visible(popup));
    }

    for popup in all {
        popups.show(popup);
        assert!(popups.is_visible(popup));
    }

    popups.hide_visible();

    for popup in all {
        assert!(!popups.is_visible(popup));
    }
}

#[test]
fn toggling_a_popup_shows_then_hides_it() {
    let mut popups = Popups::new(&[(0, PopupKind::Code), (1, PopupKind::Text), (1, PopupKind::Code)]);
    assert!(!popups.any_visible());
    popups.toggle_visible(1);
    assert!(popups.is_visible(1));
    assert_eq!(popups.visible_kind(1), Some(PopupKind::Code));
    assert_eq!(popups.visible_kind(0), None);
    popups.toggle_visible(0);
    assert!(popups.is_visible(0) && !popups.is_visible(1));
    popups.toggle_visible(0);
    assert!(!popups.any_visible());
    popups.show(7);
    assert_eq!(popups.visible_kind(7), None);
}
