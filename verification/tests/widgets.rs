//! Widget state behaviour: the store, text-input editing, validity, the
//! blink timer, sliders and selection sets.

use trivia_menu::document::{TextInputType, WhichMenu};
use trivia_menu::store::{
    slider_clamp, slider_input, MultiDropdownSelected, SliderValue, WidgetKey, WidgetState,
    WidgetStore,
};
use trivia_menu::text_input::{TextInputCursorTimer, TextInputState};

fn key(slot: u64) -> WidgetKey {
    WidgetKey {
        screen: WhichMenu::Main,
        slot,
    }
}

#[test]
fn store_first_init_keeps_default_then_last_write() {
    let mut store = WidgetStore::new();
    let k = key(0);
    assert!(!store.contains(k));

    store.get_or_init(k, WidgetState::Slider(SliderValue(7)));
    assert_eq!(store.get(k), Some(&WidgetState::Slider(SliderValue(7))));

    // A later initialization attempt never overwrites.
    store.get_or_init(k, WidgetState::Slider(SliderValue(99)));
    assert_eq!(store.get(k), Some(&WidgetState::Slider(SliderValue(7))));

    // A write through the handle is what later reads see.
    store.set(k, WidgetState::Slider(SliderValue(33)));
    assert_eq!(store.get(k), Some(&WidgetState::Slider(SliderValue(33))));
    store.get_or_init(k, WidgetState::Slider(SliderValue(7)));
    assert_eq!(store.get(k), Some(&WidgetState::Slider(SliderValue(33))));
}

#[test]
fn store_teardown_removes_only_that_screen() {
    let mut store = WidgetStore::new();
    let main = WidgetKey {
        screen: WhichMenu::Main,
        slot: 0,
    };
    let settings = WidgetKey {
        screen: WhichMenu::Settings,
        slot: 0,
    };
    store.get_or_init(main, WidgetState::Slider(SliderValue(1)));
    store.get_or_init(settings, WidgetState::Slider(SliderValue(2)));

    store.teardown_screen(WhichMenu::Main);
    assert!(!store.contains(main));
    assert_eq!(store.get(settings), Some(&WidgetState::Slider(SliderValue(2))));
}

#[test]
fn typing_respects_max_length() {
    let mut field = TextInputState::new("", Some(5), TextInputType::Text);
    for c in "abcdef".chars() {
        field.insert_char(c, Some(5));
    }
    assert_eq!(field.value.0, "abcde");
    assert_eq!(field.cursor.0, 5);
}

#[test]
fn cursor_navigation() {
    let mut field = TextInputState::new("hello", None, TextInputType::Text);
    assert_eq!(field.cursor.0, 5);
    field.move_left();
    field.move_left();
    field.move_left();
    assert_eq!(field.cursor.0, 2);
    field.home();
    assert_eq!(field.cursor.0, 0);
    field.end();
    assert_eq!(field.cursor.0, 5);
    // The left edge clamps.
    field.home();
    field.move_left();
    assert_eq!(field.cursor.0, 0);
}

#[test]
fn backspace_and_delete() {
    let mut field = TextInputState::new("hello", None, TextInputType::Text);
    field.backspace();
    assert_eq!(field.value.0, "hell");
    assert_eq!(field.cursor.0, 4);
    field.home();
    field.delete_forward();
    assert_eq!(field.value.0, "ell");
    assert_eq!(field.cursor.0, 0);
    // Backspace at the start changes nothing.
    field.backspace();
    assert_eq!(field.value.0, "ell");
}

#[test]
fn integer_validity_flag() {
    let mut field = TextInputState::new("", None, TextInputType::Integer);
    for c in "12a".chars() {
        field.insert_char(c, None);
    }
    assert!(!field.valid);

    let mut field = TextInputState::new("", None, TextInputType::Integer);
    for c in "123".chars() {
        field.insert_char(c, None);
    }
    assert!(field.valid);
}

#[test]
fn integer_validity_edges() {
    let t = TextInputType::Integer;
    assert!(t.is_valid("0"));
    assert!(t.is_valid("+12"));
    assert!(t.is_valid("-12"));
    assert!(t.is_valid("2147483647"));
    assert!(!t.is_valid("2147483648"));
    assert!(t.is_valid("-2147483648"));
    assert!(!t.is_valid("-2147483649"));
    assert!(t.is_valid("000123"));
    assert!(!t.is_valid(""));
    assert!(!t.is_valid("-"));
    assert!(!t.is_valid("1.5"));
}

#[test]
fn float_validity_edges() {
    let t = TextInputType::Float;
    assert!(t.is_valid("1"));
    assert!(t.is_valid("1.5"));
    assert!(t.is_valid("-0.25"));
    assert!(t.is_valid(".5"));
    assert!(t.is_valid("2."));
    assert!(t.is_valid("1e5"));
    assert!(t.is_valid("1.5E-3"));
    assert!(!t.is_valid(""));
    assert!(!t.is_valid("."));
    assert!(!t.is_valid("-"));
    assert!(!t.is_valid("1e"));
    assert!(!t.is_valid("1.5.2"));
    assert!(!t.is_valid("abc"));
}

#[test]
fn text_kind_always_valid() {
    assert!(TextInputType::Text.is_valid(""));
    assert!(TextInputType::Text.is_valid("anything at all"));
}

#[test]
fn blink_timer() {
    let mut timer = TextInputCursorTimer::new(500);
    assert!(timer.visible);
    timer.tick(499);
    assert!(timer.visible);
    assert_eq!(timer.elapsed_ms, 499);
    timer.tick(1);
    assert!(!timer.visible);
    assert_eq!(timer.elapsed_ms, 0);
    // Two whole periods flip twice.
    timer.tick(1000);
    assert!(!timer.visible);
    // A key press shows the cursor again and restarts the period.
    timer.reset();
    assert!(timer.visible);
    assert_eq!(timer.elapsed_ms, 0);
}

#[test]
fn slider_clamps_to_range() {
    assert_eq!(slider_clamp(0, 1, 50), 1);
    assert_eq!(slider_clamp(10, 1, 50), 10);
    assert_eq!(slider_clamp(99, 1, 50), 50);
}

#[test]
fn slider_writes_through_clamped() {
    let mut store = WidgetStore::new();
    let k = key(4);
    slider_input(&mut store, k, 75, 1, 50);
    assert_eq!(store.get(k), Some(&WidgetState::Slider(SliderValue(50))));
    slider_input(&mut store, k, 7, 1, 50);
    assert_eq!(store.get(k), Some(&WidgetState::Slider(SliderValue(7))));
}

#[test]
fn selection_insert_remove() {
    let mut sel = MultiDropdownSelected::all(3);
    assert_eq!(sel.0, vec![0, 1, 2]);
    sel.remove(1);
    assert_eq!(sel.0, vec![0, 2]);
    // Removing again is harmless.
    sel.remove(1);
    assert_eq!(sel.0, vec![0, 2]);
    sel.insert(1);
    assert_eq!(sel.0, vec![0, 1, 2]);
    // Inserting a member changes nothing.
    sel.insert(1);
    assert_eq!(sel.0, vec![0, 1, 2]);
    assert!(sel.contains(2));
    assert!(!sel.contains(3));
}
