//! Navigation, focus routing, the fetch state machine, rendering and the
//! hosting form, exercised end to end on concrete screens.

use trivia_menu::document::{
    Menu, MenuAction, MenuItem, MultiDropdown, Slider, TextInput, TextInputType, WhichMenu,
};
use trivia_menu::focus::{
    clear_focus, pointer_click, soft_keyboard_visible, tab_navigate, text_input_char,
    text_input_key, FocusState, KeyCode, TextKeyOutcome,
};
use trivia_menu::form::{any_field_invalid, fetch_form_values};
use trivia_menu::navigation::{
    activate_submenu, handle_action, menu_transition, screen_transition, MenuStack, NavCommand,
};
use trivia_menu::render::{render, seed_selection, WidgetNode};
use trivia_menu::store::{MultiDropdownSelected, WidgetState, WidgetStore};
use trivia_menu::text_input::TextInputState;
use trivia_menu::trivia_source::{
    multi_dropdown_toggle, Categories, CategoriesResponse, Category, OpenTdbResponse,
    OpenTdbSource, TriviaSource,
};

#[test]
fn navigation_push_back_and_empty_back() {
    let mut stack = MenuStack::new();

    // Activating SubMenu -> Settings from Main pushes Main.
    let cmd = activate_submenu(WhichMenu::Settings, WhichMenu::Main, &mut stack);
    assert_eq!(cmd, NavCommand::SwitchTo(WhichMenu::Settings));
    assert_eq!(stack.0, vec![WhichMenu::Main]);

    // Back returns to Main and empties the stack.
    let cmd = handle_action(MenuAction::Back, &mut stack, false);
    assert_eq!(cmd, NavCommand::SwitchTo(WhichMenu::Main));
    assert!(stack.0.is_empty());

    // Back on the empty stack still lands on Main, without failing.
    let cmd = handle_action(MenuAction::Back, &mut stack, false);
    assert_eq!(cmd, NavCommand::SwitchTo(WhichMenu::Main));
    assert!(stack.0.is_empty());
}

#[test]
fn quit_reload_and_gated_hosting() {
    let mut stack = MenuStack::new();
    assert_eq!(handle_action(MenuAction::Quit, &mut stack, false), NavCommand::Exit);
    assert_eq!(
        handle_action(MenuAction::PlatformReload, &mut stack, false),
        NavCommand::Reload
    );
    // Hosting is blocked while any field is invalid, and a no-op then.
    assert_eq!(handle_action(MenuAction::HostLobby, &mut stack, true), NavCommand::Stay);
    assert_eq!(
        handle_action(MenuAction::HostLobby, &mut stack, false),
        NavCommand::BeginHosting
    );
}

#[test]
fn fetch_issues_once_and_sorts_response() {
    let mut source = Categories::Todo;

    // The first update issues the one request.
    assert!(source.update());
    assert_eq!(source, Categories::InProgress);

    // A second update without a response issues nothing.
    assert!(!source.update());
    assert_eq!(source, Categories::InProgress);

    let response = CategoriesResponse {
        trivia_categories: vec![
            Category { id: 1, name: "Science".to_string() },
            Category { id: 2, name: "Art".to_string() },
        ],
    };
    source.finalize(response);
    match &source {
        Categories::Done { names, ids, selected } => {
            assert_eq!(names, &vec!["Art".to_string(), "Science".to_string()]);
            assert_eq!(ids, &vec![2, 1]);
            assert_eq!(selected, &vec![0, 1]);
        }
        other => panic!("expected Done, got {:?}", other),
    }

    // A late update against a finished source is still a no-op.
    assert!(!source.update());
}

#[test]
fn source_level_fetch_lifecycle() {
    let mut source = TriviaSource::OpenTdb(OpenTdbSource::Categories(Categories::Todo));
    assert!(source.iter().is_empty());
    assert!(source.get_selected().is_none());

    assert!(source.update());
    assert!(!source.update());

    source.finalize(OpenTdbResponse::Categories(CategoriesResponse {
        trivia_categories: vec![
            Category { id: 5, name: "Math".to_string() },
            Category { id: 4, name: "Geography".to_string() },
        ],
    }));
    assert_eq!(source.iter(), vec!["Geography".to_string(), "Math".to_string()]);
    assert_eq!(source.get_selected(), Some(vec![0, 1]));
    assert_eq!(source.get(0), Some(&"Geography".to_string()));
    assert_eq!(source.get(2), None);

    // A fixed list ignores fetching entirely.
    let mut fixed = TriviaSource::String(trivia_menu::trivia_source::StringSource(vec![
        "a".to_string(),
    ]));
    assert!(!fixed.update());
    assert_eq!(fixed.iter(), vec!["a".to_string()]);
}

#[test]
fn bidirectional_lookup() {
    let table = Categories::Done {
        names: vec!["Art".to_string(), "Science".to_string()],
        ids: vec![2, 1],
        selected: vec![0, 1],
    };
    assert_eq!(table.name_to_id("Science"), Some(1));
    assert_eq!(table.name_to_id("Art"), Some(2));
    assert_eq!(table.name_to_id("Poetry"), None);
    assert_eq!(table.id_to_name(2), Some(&"Art".to_string()));
    assert_eq!(table.id_to_name(7), None);
    assert_eq!(Categories::Todo.name_to_id("Art"), None);
}

#[test]
fn late_response_is_dropped() {
    let mut source = Categories::Todo;
    let response = CategoriesResponse {
        trivia_categories: vec![Category { id: 9, name: "Noise".to_string() }],
    };
    source.finalize(response);
    assert_eq!(source, Categories::Todo);
}

#[test]
fn multi_dropdown_deselect_updates_source() {
    let mut source = TriviaSource::OpenTdb(OpenTdbSource::Categories(Categories::Done {
        names: vec!["a".to_string(), "b".to_string(), "c".to_string()],
        ids: vec![1, 2, 3],
        selected: vec![0, 1, 2],
    }));
    let mut selected = MultiDropdownSelected(vec![0, 1, 2]);

    multi_dropdown_toggle(&mut selected, &mut source, 1, false);
    assert_eq!(selected.0, vec![0, 2]);
    match &source {
        TriviaSource::OpenTdb(OpenTdbSource::Categories(Categories::Done {
            selected, ..
        })) => assert_eq!(selected, &vec![0, 2]),
        other => panic!("source lost its table: {:?}", other),
    }

    // Re-selecting writes through as well.
    multi_dropdown_toggle(&mut selected, &mut source, 1, true);
    assert_eq!(selected.0, vec![0, 1, 2]);
}

#[test]
fn focus_tab_order_clamps() {
    let order = vec![10u64, 20, 30];
    let mut focus = FocusState::Unfocused;

    tab_navigate(&mut focus, &order, true);
    assert_eq!(focus, FocusState::FocusVisible(10));
    tab_navigate(&mut focus, &order, true);
    assert_eq!(focus, FocusState::FocusVisible(20));
    tab_navigate(&mut focus, &order, true);
    assert_eq!(focus, FocusState::FocusVisible(30));
    // No wrap: focus stays at the last entry.
    tab_navigate(&mut focus, &order, true);
    assert_eq!(focus, FocusState::FocusVisible(30));
    tab_navigate(&mut focus, &order, false);
    assert_eq!(focus, FocusState::FocusVisible(20));
}

#[test]
fn pointer_click_focuses_without_ring() {
    let mut focus = FocusState::Unfocused;
    // A click always grants focus, ring hidden; a disabled widget just
    // does not consume it, so it propagates further.
    assert!(!pointer_click(&mut focus, 7, true));
    assert_eq!(focus, FocusState::Focused(7));
    assert!(pointer_click(&mut focus, 8, false));
    assert_eq!(focus, FocusState::Focused(8));
    clear_focus(&mut focus);
    assert_eq!(focus, FocusState::Unfocused);
}

#[test]
fn soft_keyboard_follows_text_focus() {
    let text_inputs = vec![5u64, 9];
    assert!(!soft_keyboard_visible(&FocusState::Unfocused, &text_inputs));
    assert!(soft_keyboard_visible(&FocusState::Focused(5), &text_inputs));
    assert!(soft_keyboard_visible(&FocusState::FocusVisible(9), &text_inputs));
    assert!(!soft_keyboard_visible(&FocusState::Focused(6), &text_inputs));
}

#[test]
fn text_key_routing() {
    let mut field = TextInputState::new("hi", None, TextInputType::Text);
    assert_eq!(
        text_input_key(&mut field, KeyCode::Enter, false, None, false),
        TextKeyOutcome::Submit
    );
    assert_eq!(
        text_input_key(&mut field, KeyCode::Tab, true, None, false),
        TextKeyOutcome::Navigate { forward: false }
    );
    assert_eq!(
        text_input_key(&mut field, KeyCode::ArrowDown, false, None, false),
        TextKeyOutcome::Navigate { forward: true }
    );
    assert_eq!(
        text_input_key(&mut field, KeyCode::Backspace, false, None, false),
        TextKeyOutcome::Consumed
    );
    assert_eq!(field.value.0, "h");
    text_input_char(&mut field, '\n', None, false);
    assert_eq!(field.value.0, "h");
    text_input_char(&mut field, '!', None, false);
    assert_eq!(field.value.0, "h!");
}

#[test]
fn every_key_press_restarts_the_blink_period() {
    let mut field = TextInputState::new("hi", None, TextInputType::Text);
    // Let the cursor blink out of sight first.
    field.timer.tick(500);
    assert!(!field.timer.visible);
    // A navigation key is a key press too: the cursor comes back.
    text_input_key(&mut field, KeyCode::Tab, false, None, false);
    assert!(field.timer.visible);
    assert_eq!(field.timer.elapsed_ms, 0);

    field.timer.tick(500);
    assert!(!field.timer.visible);
    text_input_key(&mut field, KeyCode::Enter, false, None, false);
    assert!(field.timer.visible);

    // A rejected character still counts as a key press.
    let mut full = TextInputState::new("abc", Some(3), TextInputType::Text);
    full.timer.tick(500);
    assert!(!full.timer.visible);
    text_input_char(&mut full, 'x', Some(3), false);
    assert_eq!(full.value.0, "abc");
    assert!(full.timer.visible);
}

#[test]
fn disabled_field_ignores_keys() {
    let mut field = TextInputState::new("hi", None, TextInputType::Text);
    let before = field.clone();
    assert_eq!(
        text_input_key(&mut field, KeyCode::Backspace, false, None, true),
        TextKeyOutcome::Ignored
    );
    assert_eq!(field, before);
    text_input_char(&mut field, 'x', None, true);
    assert_eq!(field, before);
}

fn lobby_menu() -> Menu {
    Menu {
        title: "Host".to_string(),
        main_menu: false,
        children: vec![
            MenuItem::TextInput(TextInput {
                label: "Game name".to_string(),
                default_value: "lobby".to_string(),
                max_length: Some(16),
                name: "game_name".to_string(),
                type_: TextInputType::Text,
            }),
            MenuItem::Slider(Slider {
                label: "Questions".to_string(),
                value: 10,
                min: 1,
                max: 50,
                name: "num_questions".to_string(),
            }),
            MenuItem::MultiDropdown(MultiDropdown {
                label: "Types".to_string(),
                options: TriviaSource::String(trivia_menu::trivia_source::StringSource(vec![
                    "boolean".to_string(),
                    "multiple".to_string(),
                ])),
                selected: vec![0, 1],
                name: "question_types".to_string(),
            }),
            MenuItem::MultiDropdown(MultiDropdown {
                label: "Difficulty".to_string(),
                options: TriviaSource::OpenTdb(OpenTdbSource::Categories(Categories::Done {
                    names: vec!["easy".to_string(), "hard".to_string()],
                    ids: vec![1, 2],
                    selected: vec![1],
                })),
                selected: vec![],
                name: "difficulty".to_string(),
            }),
        ],
    }
}

#[test]
fn render_seeds_and_preserves_state() {
    let menu = lobby_menu();
    let mut store = WidgetStore::new();
    let nodes = render(&menu, WhichMenu::HostGame, &mut store);

    // Every item renders, plus the trailing implicit button.
    assert_eq!(nodes.len(), menu.children.len() + 1);
    match nodes.last().unwrap() {
        WidgetNode::Button { label, action } => {
            assert_eq!(label, "Back");
            assert_eq!(*action, MenuAction::Back);
        }
        other => panic!("expected the trailing button, got {:?}", other),
    }

    // The text input is seeded from its declared default.
    let (key, value) = match &nodes[0] {
        WidgetNode::TextInput { key, value, cursor, valid, .. } => {
            assert_eq!(value, "lobby");
            assert_eq!(*cursor, 5);
            assert!(*valid);
            (*key, value.clone())
        }
        other => panic!("expected a text input, got {:?}", other),
    };
    assert_eq!(value, "lobby");

    // A later edit survives the next render untouched by the default.
    let mut edited = match store.get(key) {
        Some(WidgetState::TextInput(st)) => st.clone(),
        other => panic!("expected seeded text state, got {:?}", other),
    };
    edited.insert_char('!', Some(16));
    store.set(key, WidgetState::TextInput(edited));

    let nodes = render(&menu, WhichMenu::HostGame, &mut store);
    match &nodes[0] {
        WidgetNode::TextInput { value, cursor, .. } => {
            assert_eq!(value, "lobby!");
            assert_eq!(*cursor, 6);
        }
        other => panic!("expected a text input, got {:?}", other),
    }
}

#[test]
fn duplicate_selection_is_seeded_as_a_set() {
    // A hand-written document may list an index twice and out of order;
    // the seeded widget state is its set, so later toggles stay sound.
    let menu = Menu {
        title: "t".to_string(),
        main_menu: false,
        children: vec![MenuItem::MultiDropdown(MultiDropdown {
            label: "Types".to_string(),
            options: TriviaSource::String(trivia_menu::trivia_source::StringSource(vec![
                "a".to_string(),
                "b".to_string(),
            ])),
            selected: vec![1, 0, 1],
            name: "question_types".to_string(),
        })],
    };
    let mut store = WidgetStore::new();
    let nodes = render(&menu, WhichMenu::HostGame, &mut store);
    match &nodes[0] {
        WidgetNode::MultiDropdown { key, selected, .. } => {
            assert_eq!(selected, &vec![0, 1]);
            match store.get(*key) {
                Some(WidgetState::MultiSelection(sel)) => assert_eq!(sel.0, vec![0, 1]),
                other => panic!("expected a seeded selection, got {:?}", other),
            }
        }
        other => panic!("expected a dropdown, got {:?}", other),
    }
}

#[test]
fn form_lookup_takes_first_match_and_none_when_absent() {
    let menu = Menu {
        title: "t".to_string(),
        main_menu: false,
        children: vec![
            MenuItem::TextInput(TextInput {
                label: "first".to_string(),
                default_value: "one".to_string(),
                max_length: None,
                name: "game_name".to_string(),
                type_: TextInputType::Text,
            }),
            MenuItem::TextInput(TextInput {
                label: "second".to_string(),
                default_value: "two".to_string(),
                max_length: None,
                name: "game_name".to_string(),
                type_: TextInputType::Text,
            }),
        ],
    };
    let mut store = WidgetStore::new();
    let nodes = render(&menu, WhichMenu::HostGame, &mut store);
    assert_eq!(
        trivia_menu::form::find_text_value(&nodes, "game_name"),
        Some("one".to_string())
    );
    assert_eq!(trivia_menu::form::find_text_value(&nodes, "missing"), None);
    assert_eq!(trivia_menu::form::find_slider_value(&nodes, "num_questions"), None);
    // The collection fails as a whole while any named widget is missing.
    assert!(fetch_form_values(&nodes).is_none());
}

#[test]
fn form_collection_and_gate() {
    let menu = lobby_menu();
    let mut store = WidgetStore::new();
    let nodes = render(&menu, WhichMenu::HostGame, &mut store);

    assert!(!any_field_invalid(&nodes));
    let values = fetch_form_values(&nodes).expect("all named widgets are present");
    assert_eq!(values.game_name.0, "lobby");
    assert_eq!(values.num_questions.0, 10);
    assert_eq!(
        values.question_types.0,
        vec!["boolean".to_string(), "multiple".to_string()]
    );
    // The remote dropdown renders the source's own selection.
    assert_eq!(values.question_difficulty.0, vec!["hard".to_string()]);
}

#[test]
fn transition_is_idempotent_and_tears_down() {
    let menu = lobby_menu();
    let mut store = WidgetStore::new();
    let nodes = render(&menu, WhichMenu::HostGame, &mut store);
    let key = match &nodes[0] {
        WidgetNode::TextInput { key, .. } => *key,
        other => panic!("expected a text input, got {:?}", other),
    };
    assert!(store.contains(key));

    // Reporting the same state is a no-op.
    assert!(!menu_transition(WhichMenu::HostGame, WhichMenu::HostGame, &mut store));
    assert!(store.contains(key));

    // An actual change tears the exited screen's state down.
    assert!(menu_transition(WhichMenu::HostGame, WhichMenu::Main, &mut store));
    assert!(!store.contains(key));
}

#[test]
fn screen_transition_clears_focus_on_change() {
    let mut store = WidgetStore::new();
    let mut focus = FocusState::Focused(42);

    // A repeated report leaves focus as it is.
    assert!(!screen_transition(
        WhichMenu::Main,
        WhichMenu::Main,
        &mut store,
        &mut focus
    ));
    assert_eq!(focus, FocusState::Focused(42));

    // An actual switch clears it: nothing of the old screen stays focused.
    assert!(screen_transition(
        WhichMenu::Main,
        WhichMenu::Settings,
        &mut store,
        &mut focus
    ));
    assert_eq!(focus, FocusState::Unfocused);
}

#[test]
fn seed_selection_is_idempotent_in_effect() {
    let source = TriviaSource::OpenTdb(OpenTdbSource::Categories(Categories::Done {
        names: vec!["a".to_string(), "b".to_string()],
        ids: vec![1, 2],
        selected: vec![0],
    }));
    let mut store = WidgetStore::new();
    let key = trivia_menu::store::WidgetKey {
        screen: WhichMenu::HostGame,
        slot: 3,
    };
    seed_selection(&source, key, &mut store);
    let first = format!("{:?}", store.get(key));
    seed_selection(&source, key, &mut store);
    let second = format!("{:?}", store.get(key));
    assert_eq!(first, second);
    match store.get(key) {
        Some(WidgetState::MultiSelection(sel)) => assert_eq!(sel.0, vec![0]),
        other => panic!("expected a seeded selection, got {:?}", other),
    }
}
