//! Round-trip and parse-failure behaviour of the menu document codec.

use trivia_menu::codec::parse::deserialize;
use trivia_menu::codec::ser::serialize;
use trivia_menu::document::{
    Button, Dropdown, Label, Link, Menu, MenuAction, MenuButtonVariant, MenuItem, MultiDropdown,
    Row, Slider, SubMenu, TextInput, TextInputType, WhichMenu,
};
use trivia_menu::trivia_source::{
    Categories, OpenTdbSource, StringSource, TriviaApiSource, TriviaSource,
};

fn full_menu() -> Menu {
    Menu {
        title: "Host Game".to_string(),
        main_menu: true,
        children: vec![
            MenuItem::Label(Label {
                label: "Welcome".to_string(),
                height: Some(70),
                font_size: Some(48),
                color: Some("primary".to_string()),
            }),
            MenuItem::Label(Label {
                label: "plain".to_string(),
                height: None,
                font_size: None,
                color: None,
            }),
            MenuItem::Spacer,
            MenuItem::SubMenu(SubMenu {
                label: "Settings".to_string(),
                menu: WhichMenu::Settings,
                variant: MenuButtonVariant::Primary,
            }),
            MenuItem::SubMenu(SubMenu {
                label: "Credits".to_string(),
                menu: WhichMenu::Credits,
                variant: MenuButtonVariant::Default,
            }),
            MenuItem::Button(Button {
                label: "Quit".to_string(),
                action: MenuAction::Quit,
            }),
            MenuItem::Link(Link {
                label: "Source".to_string(),
                url: "https://example.org/game".to_string(),
                icon: Some("github".to_string()),
            }),
            MenuItem::TextInput(TextInput {
                label: "Game name".to_string(),
                default_value: "My \"quoted\" \\ game".to_string(),
                max_length: Some(24),
                name: "game_name".to_string(),
                type_: TextInputType::Text,
            }),
            MenuItem::TextInput(TextInput {
                label: "Count".to_string(),
                default_value: String::new(),
                max_length: None,
                name: "count".to_string(),
                type_: TextInputType::Integer,
            }),
            MenuItem::Slider(Slider {
                label: "Questions".to_string(),
                value: 10,
                min: 1,
                max: 50,
                name: "num_questions".to_string(),
            }),
            MenuItem::Row(Row(vec![
                MenuItem::Spacer,
                MenuItem::Row(Row(vec![MenuItem::Button(Button {
                    label: "Back".to_string(),
                    action: MenuAction::Back,
                })])),
            ])),
            MenuItem::Dropdown(Dropdown {
                label: "Category".to_string(),
                source: TriviaSource::String(StringSource(vec![
                    "History".to_string(),
                    "Science".to_string(),
                ])),
                selected: Some(1),
            }),
            MenuItem::MultiDropdown(MultiDropdown {
                label: "Difficulty".to_string(),
                options: TriviaSource::OpenTdb(OpenTdbSource::Categories(Categories::Done {
                    names: vec!["easy".to_string(), "hard".to_string()],
                    ids: vec![3, 4],
                    selected: vec![0, 1],
                })),
                selected: vec![0],
                name: "difficulty".to_string(),
            }),
            MenuItem::MultiDropdown(MultiDropdown {
                label: "Types".to_string(),
                options: TriviaSource::TriviaApi(TriviaApiSource),
                selected: vec![],
                name: "question_types".to_string(),
            }),
        ],
    }
}

#[test]
fn round_trip_all_variants() {
    let menu = full_menu();
    let text = serialize(&menu);
    let back = deserialize(&text).expect("serialized document must parse");
    assert_eq!(back, menu);
}

#[test]
fn round_trip_minimal_menu() {
    let menu = Menu {
        title: String::new(),
        main_menu: false,
        children: vec![],
    };
    let text = serialize(&menu);
    assert_eq!(text, "Menu(title:\"\",children:[],)");
    let back = deserialize(&text).expect("minimal document must parse");
    assert_eq!(back, menu);
}

#[test]
fn round_trip_fetch_states() {
    for source in [
        TriviaSource::OpenTdb(OpenTdbSource::Categories(Categories::Todo)),
        TriviaSource::OpenTdb(OpenTdbSource::Categories(Categories::InProgress)),
    ] {
        let menu = Menu {
            title: "t".to_string(),
            main_menu: false,
            children: vec![MenuItem::Dropdown(Dropdown {
                label: "src".to_string(),
                source,
                selected: None,
            })],
        };
        let text = serialize(&menu);
        let back = deserialize(&text).expect("document must parse");
        assert_eq!(back, menu);
    }
}

#[test]
fn serialized_form_is_readable() {
    let menu = Menu {
        title: "Main".to_string(),
        main_menu: true,
        children: vec![MenuItem::Spacer],
    };
    assert_eq!(
        serialize(&menu),
        "Menu(title:\"Main\",main_menu:true,children:[Spacer,],)"
    );
}

#[test]
fn deserialize_rejects_garbage() {
    assert!(deserialize("not a menu").is_err());
    assert!(deserialize("").is_err());
    assert!(deserialize("Menu(title:\"x\"children:[],)").is_err());
}

#[test]
fn deserialize_rejects_unknown_field() {
    assert!(deserialize("Menu(title:\"x\",shiny:true,children:[],)").is_err());
}

#[test]
fn deserialize_rejects_trailing_text() {
    let menu = Menu {
        title: "m".to_string(),
        main_menu: false,
        children: vec![],
    };
    let mut text = serialize(&menu);
    text.push(' ');
    assert!(deserialize(&text).is_err());
}

#[test]
fn deserialize_accepts_defaulted_optionals() {
    let parsed = deserialize(
        "Menu(title:\"m\",children:[TextInput(label:\"l\",name:\"f\",),],)",
    )
    .expect("optional fields may be omitted");
    assert_eq!(parsed.children.len(), 1);
    match &parsed.children[0] {
        MenuItem::TextInput(t) => {
            assert_eq!(t.default_value, "");
            assert_eq!(t.max_length, None);
            assert_eq!(t.type_, TextInputType::Text);
        }
        other => panic!("expected a text input, got {:?}", other),
    }
}

#[test]
fn deserialize_rejects_oversized_number() {
    // A value beyond what the platform's word can hold is refused rather
    // than wrapped.
    let text = "Menu(title:\"m\",children:[Slider(label:\"l\",value:99999999999999999999999999,min:0,max:1,name:\"s\",),],)";
    assert!(deserialize(text).is_err());
}
