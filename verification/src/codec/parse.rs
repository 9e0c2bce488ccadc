//! Parsing of the menu document wire format: a specification parser for
//! every production, and an executable parser proved to agree with it on
//! every input.
//!
//! Each parser takes the character sequence and a start position and yields
//! the parsed value with the position after it, or nothing when the text at
//! that position does not belong to the production.

use vstd::prelude::*;

use crate::codec::{kw_at, lift_deep, match_lit, p_bool, p_nat, p_str, e_bool, e_nat, e_str};
use crate::document::{
    Button, Dropdown, Label, LabelView, Link, Menu, MenuAction, MenuButtonVariant, MenuItem,
    MenuItemView, MenuView, MultiDropdown, Row, Slider, SubMenu, TextInput, TextInputType,
    WhichMenu,
};
use crate::trivia_source::{
    Categories, CategoriesView, OpenTdbSource, StringSource, TriviaApiSource, TriviaSource,
    TriviaSourceView,
};

verus! {

// ------------------------------------------------------------------
// Specification parsers
// ------------------------------------------------------------------

/// Consumes the keyword `t`.
pub open spec fn p_kw(s: Seq<char>, i: int, t: Seq<char>) -> Option<int> {
    if kw_at(s, i, t) {
        Option::Some(i + t.len())
    } else {
        Option::None
    }
}

pub open spec fn p_which_menu(s: Seq<char>, i: int) -> Option<(WhichMenu, int)> {
    if kw_at(s, i, "Main"@) {
        Option::Some((WhichMenu::Main, i + "Main"@.len()))
    } else if kw_at(s, i, "JoinGame"@) {
        Option::Some((WhichMenu::JoinGame, i + "JoinGame"@.len()))
    } else if kw_at(s, i, "HostGame"@) {
        Option::Some((WhichMenu::HostGame, i + "HostGame"@.len()))
    } else if kw_at(s, i, "Settings"@) {
        Option::Some((WhichMenu::Settings, i + "Settings"@.len()))
    } else if kw_at(s, i, "Credits"@) {
        Option::Some((WhichMenu::Credits, i + "Credits"@.len()))
    } else {
        Option::None
    }
}

pub open spec fn p_action(s: Seq<char>, i: int) -> Option<(MenuAction, int)> {
    if kw_at(s, i, "Quit"@) {
        Option::Some((MenuAction::Quit, i + "Quit"@.len()))
    } else if kw_at(s, i, "Back"@) {
        Option::Some((MenuAction::Back, i + "Back"@.len()))
    } else if kw_at(s, i, "PlatformReload"@) {
        Option::Some((MenuAction::PlatformReload, i + "PlatformReload"@.len()))
    } else if kw_at(s, i, "HostLobby"@) {
        Option::Some((MenuAction::HostLobby, i + "HostLobby"@.len()))
    } else {
        Option::None
    }
}

pub open spec fn p_variant(s: Seq<char>, i: int) -> Option<(MenuButtonVariant, int)> {
    if kw_at(s, i, "Default"@) {
        Option::Some((MenuButtonVariant::Default, i + "Default"@.len()))
    } else if kw_at(s, i, "Primary"@) {
        Option::Some((MenuButtonVariant::Primary, i + "Primary"@.len()))
    } else {
        Option::None
    }
}

pub open spec fn p_input_type(s: Seq<char>, i: int) -> Option<(TextInputType, int)> {
    if kw_at(s, i, "Text"@) {
        Option::Some((TextInputType::Text, i + "Text"@.len()))
    } else if kw_at(s, i, "Integer"@) {
        Option::Some((TextInputType::Integer, i + "Integer"@.len()))
    } else if kw_at(s, i, "Float"@) {
        Option::Some((TextInputType::Float, i + "Float"@.len()))
    } else {
        Option::None
    }
}

/// An optional `name:<number>,` field: absent when the name does not stand
/// at `i`.
pub open spec fn p_opt_nat_field(s: Seq<char>, i: int, name: Seq<char>) -> Option<
    (Option<usize>, int),
> {
    if kw_at(s, i, name) {
        match p_nat(s, i + name.len()) {
            Option::Some((v, j)) => match p_kw(s, j, seq![',']) {
                Option::Some(j2) => Option::Some((Option::Some(v), j2)),
                Option::None => Option::None,
            },
            Option::None => Option::None,
        }
    } else {
        Option::Some((Option::None, i))
    }
}

/// An optional `name:"string",` field: absent when the name does not stand
/// at `i`.
pub open spec fn p_opt_str_field(s: Seq<char>, i: int, name: Seq<char>) -> Option<
    (Option<Seq<char>>, int),
> {
    if kw_at(s, i, name) {
        match p_str(s, i + name.len()) {
            Option::Some((v, j)) => match p_kw(s, j, seq![',']) {
                Option::Some(j2) => Option::Some((Option::Some(v), j2)),
                Option::None => Option::None,
            },
            Option::None => Option::None,
        }
    } else {
        Option::Some((Option::None, i))
    }
}

/// List elements up to and including the closing bracket, each followed by
/// a comma.
pub open spec fn p_str_elems(s: Seq<char>, i: int, acc: Seq<Seq<char>>) -> Option<
    (Seq<Seq<char>>, int),
>
    decreases s.len() - i,
{
    if i < 0 || i >= s.len() {
        Option::None
    } else if s[i] == ']' {
        Option::Some((acc, i + 1))
    } else {
        match p_str(s, i) {
            Option::Some((v, j)) => if i < j && j < s.len() && s[j] == ',' {
                p_str_elems(s, j + 1, acc.push(v))
            } else {
                Option::None
            },
            Option::None => Option::None,
        }
    }
}

pub open spec fn p_nat_elems(s: Seq<char>, i: int, acc: Seq<usize>) -> Option<(Seq<usize>, int)>
    decreases s.len() - i,
{
    if i < 0 || i >= s.len() {
        Option::None
    } else if s[i] == ']' {
        Option::Some((acc, i + 1))
    } else {
        match p_nat(s, i) {
            Option::Some((v, j)) => if i < j && j < s.len() && s[j] == ',' {
                p_nat_elems(s, j + 1, acc.push(v))
            } else {
                Option::None
            },
            Option::None => Option::None,
        }
    }
}

pub open spec fn p_categories(s: Seq<char>, i: int) -> Option<(CategoriesView, int)> {
    if kw_at(s, i, "Todo"@) {
        Option::Some((CategoriesView::Todo, i + "Todo"@.len()))
    } else if kw_at(s, i, "InProgress"@) {
        Option::Some((CategoriesView::InProgress, i + "InProgress"@.len()))
    } else if kw_at(s, i, "Done(names:["@) {
        match p_str_elems(s, i + "Done(names:["@.len(), Seq::empty()) {
            Option::Some((names, j)) => match p_kw(s, j, ",ids:["@) {
                Option::Some(j2) => match p_nat_elems(s, j2, Seq::empty()) {
                    Option::Some((ids, j3)) => match p_kw(s, j3, ",selected:["@) {
                        Option::Some(j4) => match p_nat_elems(s, j4, Seq::empty()) {
                            Option::Some((selected, j5)) => match p_kw(s, j5, ",)"@) {
                                Option::Some(j6) => Option::Some(
                                    (CategoriesView::Done { names, ids, selected }, j6),
                                ),
                                Option::None => Option::None,
                            },
                            Option::None => Option::None,
                        },
                        Option::None => Option::None,
                    },
                    Option::None => Option::None,
                },
                Option::None => Option::None,
            },
            Option::None => Option::None,
        }
    } else {
        Option::None
    }
}

pub open spec fn p_source(s: Seq<char>, i: int) -> Option<(TriviaSourceView, int)> {
    if kw_at(s, i, "String(["@) {
        match p_str_elems(s, i + "String(["@.len(), Seq::empty()) {
            Option::Some((l, j)) => match p_kw(s, j, seq![')']) {
                Option::Some(j2) => Option::Some((TriviaSourceView::String(l), j2)),
                Option::None => Option::None,
            },
            Option::None => Option::None,
        }
    } else if kw_at(s, i, "OpenTdb("@) {
        match p_categories(s, i + "OpenTdb("@.len()) {
            Option::Some((c, j)) => match p_kw(s, j, seq![')']) {
                Option::Some(j2) => Option::Some((TriviaSourceView::OpenTdb(c), j2)),
                Option::None => Option::None,
            },
            Option::None => Option::None,
        }
    } else if kw_at(s, i, "TriviaApi"@) {
        Option::Some((TriviaSourceView::TriviaApi, i + "TriviaApi"@.len()))
    } else {
        Option::None
    }
}

pub open spec fn p_label_tail(s: Seq<char>, i: int) -> Option<(LabelView, int)> {
    match p_str(s, i) {
        Option::Some((label, j)) => match p_kw(s, j, seq![',']) {
            Option::Some(j2) => match p_opt_nat_field(s, j2, "height:"@) {
                Option::Some((height, j3)) => match p_opt_nat_field(s, j3, "font_size:"@) {
                    Option::Some((font_size, j4)) => match p_opt_str_field(s, j4, "color:"@) {
                        Option::Some((color, j5)) => match p_kw(s, j5, seq![')']) {
                            Option::Some(j6) => Option::Some(
                                (LabelView { label, height, font_size, color }, j6),
                            ),
                            Option::None => Option::None,
                        },
                        Option::None => Option::None,
                    },
                    Option::None => Option::None,
                },
                Option::None => Option::None,
            },
            Option::None => Option::None,
        },
        Option::None => Option::None,
    }
}

pub open spec fn p_submenu_tail(s: Seq<char>, i: int) -> Option<(MenuItemView, int)> {
    match p_str(s, i) {
        Option::Some((label, j)) => match p_kw(s, j, ",menu:"@) {
            Option::Some(j2) => match p_which_menu(s, j2) {
                Option::Some((menu, j3)) => match p_kw(s, j3, seq![',']) {
                    Option::Some(j4) => if kw_at(s, j4, "variant:"@) {
                        match p_variant(s, j4 + "variant:"@.len()) {
                            Option::Some((variant, j5)) => match p_kw(s, j5, ",)"@) {
                                Option::Some(j6) => Option::Some(
                                    (
                                        MenuItemView::SubMenu(
                                            crate::document::SubMenuView { label, menu, variant },
                                        ),
                                        j6,
                                    ),
                                ),
                                Option::None => Option::None,
                            },
                            Option::None => Option::None,
                        }
                    } else {
                        match p_kw(s, j4, seq![')']) {
                            Option::Some(j5) => Option::Some(
                                (
                                    MenuItemView::SubMenu(
                                        crate::document::SubMenuView {
                                            label,
                                            menu,
                                            variant: MenuButtonVariant::Default,
                                        },
                                    ),
                                    j5,
                                ),
                            ),
                            Option::None => Option::None,
                        }
                    },
                    Option::None => Option::None,
                },
                Option::None => Option::None,
            },
            Option::None => Option::None,
        },
        Option::None => Option::None,
    }
}

pub open spec fn p_button_tail(s: Seq<char>, i: int) -> Option<(MenuItemView, int)> {
    match p_str(s, i) {
        Option::Some((label, j)) => match p_kw(s, j, ",action:"@) {
            Option::Some(j2) => match p_action(s, j2) {
                Option::Some((action, j3)) => match p_kw(s, j3, ",)"@) {
                    Option::Some(j4) => Option::Some(
                        (MenuItemView::Button(crate::document::ButtonView { label, action }), j4),
                    ),
                    Option::None => Option::None,
                },
                Option::None => Option::None,
            },
            Option::None => Option::None,
        },
        Option::None => Option::None,
    }
}

pub open spec fn p_link_tail(s: Seq<char>, i: int) -> Option<(MenuItemView, int)> {
    match p_str(s, i) {
        Option::Some((label, j)) => match p_kw(s, j, ",url:"@) {
            Option::Some(j2) => match p_str(s, j2) {
                Option::Some((url, j3)) => match p_kw(s, j3, seq![',']) {
                    Option::Some(j4) => match p_opt_str_field(s, j4, "icon:"@) {
                        Option::Some((icon, j5)) => match p_kw(s, j5, seq![')']) {
                            Option::Some(j6) => Option::Some(
                                (
                                    MenuItemView::Link(
                                        crate::document::LinkView { label, url, icon },
                                    ),
                                    j6,
                                ),
                            ),
                            Option::None => Option::None,
                        },
                        Option::None => Option::None,
                    },
                    Option::None => Option::None,
                },
                Option::None => Option::None,
            },
            Option::None => Option::None,
        },
        Option::None => Option::None,
    }
}

pub open spec fn p_text_input_opt_type(s: Seq<char>, i: int) -> Option<(TextInputType, int)> {
    if kw_at(s, i, "type:"@) {
        match p_input_type(s, i + "type:"@.len()) {
            Option::Some((t, j)) => match p_kw(s, j, ",)"@) {
                Option::Some(j2) => Option::Some((t, j2)),
                Option::None => Option::None,
            },
            Option::None => Option::None,
        }
    } else {
        match p_kw(s, i, seq![')']) {
            Option::Some(j) => Option::Some((TextInputType::Text, j)),
            Option::None => Option::None,
        }
    }
}

pub open spec fn p_text_input_tail(s: Seq<char>, i: int) -> Option<(MenuItemView, int)> {
    match p_str(s, i) {
        Option::Some((label, j)) => match p_kw(s, j, seq![',']) {
            Option::Some(j2) => {
                let dv = if kw_at(s, j2, "default_value:"@) {
                    match p_str(s, j2 + "default_value:"@.len()) {
                        Option::Some((v, j3)) => match p_kw(s, j3, seq![',']) {
                            Option::Some(j4) => Option::Some((v, j4)),
                            Option::None => Option::None,
                        },
                        Option::None => Option::None,
                    }
                } else {
                    Option::Some((Seq::<char>::empty(), j2))
                };
                match dv {
                    Option::Some((default_value, j5)) => match p_opt_nat_field(
                        s,
                        j5,
                        "max_length:"@,
                    ) {
                        Option::Some((max_length, j6)) => match p_kw(s, j6, "name:"@) {
                            Option::Some(j7) => match p_str(s, j7) {
                                Option::Some((name, j8)) => match p_kw(s, j8, seq![',']) {
                                    Option::Some(j9) => match p_text_input_opt_type(s, j9) {
                                        Option::Some((type_, j10)) => Option::Some(
                                            (
                                                MenuItemView::TextInput(
                                                    crate::document::TextInputView {
                                                        label,
                                                        default_value,
                                                        max_length,
                                                        name,
                                                        type_,
                                                    },
                                                ),
                                                j10,
                                            ),
                                        ),
                                        Option::None => Option::None,
                                    },
                                    Option::None => Option::None,
                                },
                                Option::None => Option::None,
                            },
                            Option::None => Option::None,
                        },
                        Option::None => Option::None,
                    },
                    Option::None => Option::None,
                }
            },
            Option::None => Option::None,
        },
        Option::None => Option::None,
    }
}

pub open spec fn p_slider_tail(s: Seq<char>, i: int) -> Option<(MenuItemView, int)> {
    match p_str(s, i) {
        Option::Some((label, j)) => match p_kw(s, j, ",value:"@) {
            Option::Some(j2) => match p_nat(s, j2) {
                Option::Some((value, j3)) => match p_kw(s, j3, ",min:"@) {
                    Option::Some(j4) => match p_nat(s, j4) {
                        Option::Some((min, j5)) => match p_kw(s, j5, ",max:"@) {
                            Option::Some(j6) => match p_nat(s, j6) {
                                Option::Some((max, j7)) => match p_kw(s, j7, ",name:"@) {
                                    Option::Some(j8) => match p_str(s, j8) {
                                        Option::Some((name, j9)) => match p_kw(s, j9, ",)"@) {
                                            Option::Some(j10) => Option::Some(
                                                (
                                                    MenuItemView::Slider(
                                                        crate::document::SliderView {
                                                            label,
                                                            value,
                                                            min,
                                                            max,
                                                            name,
                                                        },
                                                    ),
                                                    j10,
                                                ),
                                            ),
                                            Option::None => Option::None,
                                        },
                                        Option::None => Option::None,
                                    },
                                    Option::None => Option::None,
                                },
                                Option::None => Option::None,
                            },
                            Option::None => Option::None,
                        },
                        Option::None => Option::None,
                    },
                    Option::None => Option::None,
                },
                Option::None => Option::None,
            },
            Option::None => Option::None,
        },
        Option::None => Option::None,
    }
}

pub open spec fn p_dropdown_tail(s: Seq<char>, i: int) -> Option<(MenuItemView, int)> {
    match p_str(s, i) {
        Option::Some((label, j)) => match p_kw(s, j, ",source:"@) {
            Option::Some(j2) => match p_source(s, j2) {
                Option::Some((source, j3)) => match p_kw(s, j3, seq![',']) {
                    Option::Some(j4) => match p_opt_nat_field(s, j4, "selected:"@) {
                        Option::Some((selected, j5)) => match p_kw(s, j5, seq![')']) {
                            Option::Some(j6) => Option::Some(
                                (
                                    MenuItemView::Dropdown(
                                        crate::document::DropdownView { label, source, selected },
                                    ),
                                    j6,
                                ),
                            ),
                            Option::None => Option::None,
                        },
                        Option::None => Option::None,
                    },
                    Option::None => Option::None,
                },
                Option::None => Option::None,
            },
            Option::None => Option::None,
        },
        Option::None => Option::None,
    }
}

pub open spec fn p_multi_dropdown_tail(s: Seq<char>, i: int) -> Option<(MenuItemView, int)> {
    match p_str(s, i) {
        Option::Some((label, j)) => match p_kw(s, j, ",options:"@) {
            Option::Some(j2) => match p_source(s, j2) {
                Option::Some((options, j3)) => match p_kw(s, j3, ",selected:["@) {
                    Option::Some(j4) => match p_nat_elems(s, j4, Seq::empty()) {
                        Option::Some((selected, j5)) => match p_kw(s, j5, ",name:"@) {
                            Option::Some(j6) => match p_str(s, j6) {
                                Option::Some((name, j7)) => match p_kw(s, j7, ",)"@) {
                                    Option::Some(j8) => Option::Some(
                                        (
                                            MenuItemView::MultiDropdown(
                                                crate::document::MultiDropdownView {
                                                    label,
                                                    options,
                                                    selected,
                                                    name,
                                                },
                                            ),
                                            j8,
                                        ),
                                    ),
                                    Option::None => Option::None,
                                },
                                Option::None => Option::None,
                            },
                            Option::None => Option::None,
                        },
                        Option::None => Option::None,
                    },
                    Option::None => Option::None,
                },
                Option::None => Option::None,
            },
            Option::None => Option::None,
        },
        Option::None => Option::None,
    }
}

/// One item, dispatched on its opening tag.
pub open spec fn p_item(s: Seq<char>, i: int) -> Option<(MenuItemView, int)>
    decreases s.len() - i, 0nat,
        via p_item_decreases
{
    if kw_at(s, i, "Label(label:"@) {
        match p_label_tail(s, i + "Label(label:"@.len()) {
            Option::Some((l, j)) => Option::Some((MenuItemView::Label(l), j)),
            Option::None => Option::None,
        }
    } else if kw_at(s, i, "Spacer"@) {
        Option::Some((MenuItemView::Spacer, i + "Spacer"@.len()))
    } else if kw_at(s, i, "SubMenu(label:"@) {
        p_submenu_tail(s, i + "SubMenu(label:"@.len())
    } else if kw_at(s, i, "Button(label:"@) {
        p_button_tail(s, i + "Button(label:"@.len())
    } else if kw_at(s, i, "Link(label:"@) {
        p_link_tail(s, i + "Link(label:"@.len())
    } else if kw_at(s, i, "TextInput(label:"@) {
        p_text_input_tail(s, i + "TextInput(label:"@.len())
    } else if kw_at(s, i, "Slider(label:"@) {
        p_slider_tail(s, i + "Slider(label:"@.len())
    } else if kw_at(s, i, "Row(["@) {
        match p_items_elems(s, i + "Row(["@.len(), Seq::empty()) {
            Option::Some((items, j)) => match p_kw(s, j, seq![')']) {
                Option::Some(j2) => Option::Some((MenuItemView::Row(items), j2)),
                Option::None => Option::None,
            },
            Option::None => Option::None,
        }
    } else if kw_at(s, i, "Dropdown(label:"@) {
        p_dropdown_tail(s, i + "Dropdown(label:"@.len())
    } else if kw_at(s, i, "MultiDropdown(label:"@) {
        p_multi_dropdown_tail(s, i + "MultiDropdown(label:"@.len())
    } else {
        Option::None
    }
}

#[via_fn]
proof fn p_item_decreases(s: Seq<char>, i: int) {
    reveal_strlit("Row([");
}

/// Item list elements up to and including the closing bracket.
pub open spec fn p_items_elems(s: Seq<char>, i: int, acc: Seq<MenuItemView>) -> Option<
    (Seq<MenuItemView>, int),
>
    decreases s.len() - i, 1nat,
{
    if i < 0 || i >= s.len() {
        Option::None
    } else if s[i] == ']' {
        Option::Some((acc, i + 1))
    } else {
        match p_item(s, i) {
            Option::Some((v, j)) => if i < j && j < s.len() && s[j] == ',' {
                p_items_elems(s, j + 1, acc.push(v))
            } else {
                Option::None
            },
            Option::None => Option::None,
        }
    }
}

/// A whole document starting at `i`.
pub open spec fn p_menu(s: Seq<char>, i: int) -> Option<(MenuView, int)> {
    match p_kw(s, i, "Menu(title:"@) {
        Option::Some(j) => match p_str(s, j) {
            Option::Some((title, j2)) => match p_kw(s, j2, seq![',']) {
                Option::Some(j3) => {
                    let mm = if kw_at(s, j3, "main_menu:"@) {
                        match p_bool(s, j3 + "main_menu:"@.len()) {
                            Option::Some((b, j4)) => match p_kw(s, j4, seq![',']) {
                                Option::Some(j5) => Option::Some((b, j5)),
                                Option::None => Option::None,
                            },
                            Option::None => Option::None,
                        }
                    } else {
                        Option::Some((false, j3))
                    };
                    match mm {
                        Option::Some((main_menu, j6)) => match p_kw(s, j6, "children:["@) {
                            Option::Some(j7) => match p_items_elems(s, j7, Seq::empty()) {
                                Option::Some((children, j8)) => match p_kw(s, j8, ",)"@) {
                                    Option::Some(j9) => Option::Some(
                                        (MenuView { title, main_menu, children }, j9),
                                    ),
                                    Option::None => Option::None,
                                },
                                Option::None => Option::None,
                            },
                            Option::None => Option::None,
                        },
                        Option::None => Option::None,
                    }
                },
                Option::None => Option::None,
            },
            Option::None => Option::None,
        },
        Option::None => Option::None,
    }
}

/// A whole document: the text must hold exactly one menu and nothing after
/// it.
pub open spec fn p_doc(s: Seq<char>) -> Option<MenuView> {
    match p_menu(s, 0) {
        Option::Some((m, j)) => if j == s.len() {
            Option::Some(m)
        } else {
            Option::None
        },
        Option::None => Option::None,
    }
}

// ------------------------------------------------------------------
// Executable parsers
// ------------------------------------------------------------------

use crate::codec::{match_ch, lit_len, FormatError};

fn e_which_menu(s: &Vec<char>, i: usize) -> (r: Option<(WhichMenu, usize)>)
    requires
        i <= s.len(),
    ensures
        lift_deep(r) == p_which_menu(s@, i as int),
        r matches Option::Some(x) ==> i <= x.1 <= s.len(),
{
    if match_lit(s, i, "Main") {
        Option::Some((WhichMenu::Main, i + lit_len("Main")))
    } else if match_lit(s, i, "JoinGame") {
        Option::Some((WhichMenu::JoinGame, i + lit_len("JoinGame")))
    } else if match_lit(s, i, "HostGame") {
        Option::Some((WhichMenu::HostGame, i + lit_len("HostGame")))
    } else if match_lit(s, i, "Settings") {
        Option::Some((WhichMenu::Settings, i + lit_len("Settings")))
    } else if match_lit(s, i, "Credits") {
        Option::Some((WhichMenu::Credits, i + lit_len("Credits")))
    } else {
        Option::None
    }
}

fn e_action(s: &Vec<char>, i: usize) -> (r: Option<(MenuAction, usize)>)
    requires
        i <= s.len(),
    ensures
        lift_deep(r) == p_action(s@, i as int),
        r matches Option::Some(x) ==> i <= x.1 <= s.len(),
{
    if match_lit(s, i, "Quit") {
        Option::Some((MenuAction::Quit, i + lit_len("Quit")))
    } else if match_lit(s, i, "Back") {
        Option::Some((MenuAction::Back, i + lit_len("Back")))
    } else if match_lit(s, i, "PlatformReload") {
        Option::Some((MenuAction::PlatformReload, i + lit_len("PlatformReload")))
    } else if match_lit(s, i, "HostLobby") {
        Option::Some((MenuAction::HostLobby, i + lit_len("HostLobby")))
    } else {
        Option::None
    }
}

fn e_variant(s: &Vec<char>, i: usize) -> (r: Option<(MenuButtonVariant, usize)>)
    requires
        i <= s.len(),
    ensures
        lift_deep(r) == p_variant(s@, i as int),
        r matches Option::Some(x) ==> i <= x.1 <= s.len(),
{
    if match_lit(s, i, "Default") {
        Option::Some((MenuButtonVariant::Default, i + lit_len("Default")))
    } else if match_lit(s, i, "Primary") {
        Option::Some((MenuButtonVariant::Primary, i + lit_len("Primary")))
    } else {
        Option::None
    }
}

fn e_input_type(s: &Vec<char>, i: usize) -> (r: Option<(TextInputType, usize)>)
    requires
        i <= s.len(),
    ensures
        lift_deep(r) == p_input_type(s@, i as int),
        r matches Option::Some(x) ==> i <= x.1 <= s.len(),
{
    if match_lit(s, i, "Text") {
        Option::Some((TextInputType::Text, i + lit_len("Text")))
    } else if match_lit(s, i, "Integer") {
        Option::Some((TextInputType::Integer, i + lit_len("Integer")))
    } else if match_lit(s, i, "Float") {
        Option::Some((TextInputType::Float, i + lit_len("Float")))
    } else {
        Option::None
    }
}

fn e_opt_nat_field(s: &Vec<char>, i: usize, name: &str) -> (r: Option<(Option<usize>, usize)>)
    requires
        i <= s.len(),
    ensures
        lift_deep(r) == p_opt_nat_field(s@, i as int, name@),
        r matches Option::Some(x) ==> i <= x.1 <= s.len(),
{
    if match_lit(s, i, name) {
        let n = lit_len(name);
        match e_nat(s, i + n) {
            Option::Some((v, j)) => if match_ch(s, j, ',') {
                Option::Some((Option::Some(v), j + 1))
            } else {
                Option::None
            },
            Option::None => Option::None,
        }
    } else {
        Option::Some((Option::None, i))
    }
}

fn e_opt_str_field(s: &Vec<char>, i: usize, name: &str) -> (r: Option<(Option<String>, usize)>)
    requires
        i <= s.len(),
    ensures
        lift_deep(r) == p_opt_str_field(s@, i as int, name@),
        r matches Option::Some(x) ==> i <= x.1 <= s.len(),
{
    if match_lit(s, i, name) {
        let n = lit_len(name);
        match e_str(s, i + n) {
            Option::Some((v, j)) => if match_ch(s, j, ',') {
                Option::Some((Option::Some(v), j + 1))
            } else {
                Option::None
            },
            Option::None => Option::None,
        }
    } else {
        Option::Some((Option::None, i))
    }
}

fn e_str_elems(s: &Vec<char>, i: usize) -> (r: Option<(Vec<String>, usize)>)
    requires
        i <= s.len(),
    ensures
        lift_deep(r) == p_str_elems(s@, i as int, Seq::empty()),
        r matches Option::Some(x) ==> i <= x.1 <= s.len(),
{
    let mut j: usize = i;
    let mut acc: Vec<String> = Vec::new();
    proof {
        assert(acc.deep_view() =~= Seq::<Seq<char>>::empty());
    }
    loop
        invariant
            i <= j <= s.len(),
            p_str_elems(s@, i as int, Seq::empty()) == p_str_elems(s@, j as int, acc.deep_view()),
        decreases s.len() - j,
    {
        if j >= s.len() {
            return Option::None;
        }
        if match_ch(s, j, ']') {
            return Option::Some((acc, j + 1));
        }
        match e_str(s, j) {
            Option::Some((v, j2)) => {
                if j < j2 && match_ch(s, j2, ',') {
                    let ghost acc0 = acc.deep_view();
                    let ghost vv = v@;
                    acc.push(v);
                    proof {
                        assert(acc.deep_view() =~= acc0.push(vv));
                    }
                    j = j2 + 1;
                } else {
                    return Option::None;
                }
            },
            Option::None => {
                return Option::None;
            },
        }
    }
}

fn e_nat_elems(s: &Vec<char>, i: usize) -> (r: Option<(Vec<usize>, usize)>)
    requires
        i <= s.len(),
    ensures
        lift_deep(r) == p_nat_elems(s@, i as int, Seq::empty()),
        r matches Option::Some(x) ==> i <= x.1 <= s.len(),
{
    let mut j: usize = i;
    let mut acc: Vec<usize> = Vec::new();
    proof {
        assert(acc.deep_view() =~= Seq::<usize>::empty());
    }
    loop
        invariant
            i <= j <= s.len(),
            p_nat_elems(s@, i as int, Seq::empty()) == p_nat_elems(s@, j as int, acc.deep_view()),
        decreases s.len() - j,
    {
        if j >= s.len() {
            return Option::None;
        }
        if match_ch(s, j, ']') {
            return Option::Some((acc, j + 1));
        }
        match e_nat(s, j) {
            Option::Some((v, j2)) => {
                if j < j2 && match_ch(s, j2, ',') {
                    let ghost acc0 = acc.deep_view();
                    acc.push(v);
                    proof {
                        assert(acc.deep_view() =~= acc0.push(v));
                    }
                    j = j2 + 1;
                } else {
                    return Option::None;
                }
            },
            Option::None => {
                return Option::None;
            },
        }
    }
}

fn e_categories(s: &Vec<char>, i: usize) -> (r: Option<(Categories, usize)>)
    requires
        i <= s.len(),
    ensures
        lift_deep(r) == p_categories(s@, i as int),
        r matches Option::Some(x) ==> i <= x.1 <= s.len(),
{
    if match_lit(s, i, "Todo") {
        Option::Some((Categories::Todo, i + lit_len("Todo")))
    } else if match_lit(s, i, "InProgress") {
        Option::Some((Categories::InProgress, i + lit_len("InProgress")))
    } else if match_lit(s, i, "Done(names:[") {
        let j0 = i + lit_len("Done(names:[");
        match e_str_elems(s, j0) {
            Option::Some((names, j)) => {
                if !match_lit(s, j, ",ids:[") {
                    return Option::None;
                }
                let j2 = j + lit_len(",ids:[");
                match e_nat_elems(s, j2) {
                    Option::Some((ids, j3)) => {
                        if !match_lit(s, j3, ",selected:[") {
                            return Option::None;
                        }
                        let j4 = j3 + lit_len(",selected:[");
                        match e_nat_elems(s, j4) {
                            Option::Some((selected, j5)) => {
                                if !match_lit(s, j5, ",)") {
                                    return Option::None;
                                }
                                let j6 = j5 + lit_len(",)");
                                proof {
                                    assert(ids.deep_view() =~= ids@);
                                    assert(selected.deep_view() =~= selected@);
                                }
                                Option::Some((Categories::Done { names, ids, selected }, j6))
                            },
                            Option::None => Option::None,
                        }
                    },
                    Option::None => Option::None,
                }
            },
            Option::None => Option::None,
        }
    } else {
        Option::None
    }
}

fn e_source(s: &Vec<char>, i: usize) -> (r: Option<(TriviaSource, usize)>)
    requires
        i <= s.len(),
    ensures
        lift_deep(r) == p_source(s@, i as int),
        r matches Option::Some(x) ==> i <= x.1 <= s.len(),
{
    if match_lit(s, i, "String([") {
        let j0 = i + lit_len("String([");
        match e_str_elems(s, j0) {
            Option::Some((l, j)) => if match_ch(s, j, ')') {
                Option::Some((TriviaSource::String(StringSource(l)), j + 1))
            } else {
                Option::None
            },
            Option::None => Option::None,
        }
    } else if match_lit(s, i, "OpenTdb(") {
        let j0 = i + lit_len("OpenTdb(");
        match e_categories(s, j0) {
            Option::Some((c, j)) => if match_ch(s, j, ')') {
                Option::Some((TriviaSource::OpenTdb(OpenTdbSource::Categories(c)), j + 1))
            } else {
                Option::None
            },
            Option::None => Option::None,
        }
    } else if match_lit(s, i, "TriviaApi") {
        Option::Some((TriviaSource::TriviaApi(TriviaApiSource), i + lit_len("TriviaApi")))
    } else {
        Option::None
    }
}

fn e_label_tail(s: &Vec<char>, i: usize) -> (r: Option<(Label, usize)>)
    requires
        i <= s.len(),
    ensures
        lift_deep(r) == p_label_tail(s@, i as int),
        r matches Option::Some(x) ==> i <= x.1 <= s.len(),
{
    let (label, j) = match e_str(s, i) {
        Option::Some(x) => x,
        Option::None => {
            return Option::None;
        },
    };
    if !match_ch(s, j, ',') {
        return Option::None;
    }
    let (height, j2) = match e_opt_nat_field(s, j + 1, "height:") {
        Option::Some(x) => x,
        Option::None => {
            return Option::None;
        },
    };
    let (font_size, j3) = match e_opt_nat_field(s, j2, "font_size:") {
        Option::Some(x) => x,
        Option::None => {
            return Option::None;
        },
    };
    let (color, j4) = match e_opt_str_field(s, j3, "color:") {
        Option::Some(x) => x,
        Option::None => {
            return Option::None;
        },
    };
    if !match_ch(s, j4, ')') {
        return Option::None;
    }
    Option::Some((Label { label, height, font_size, color }, j4 + 1))
}

fn e_submenu_tail(s: &Vec<char>, i: usize) -> (r: Option<(MenuItem, usize)>)
    requires
        i <= s.len(),
    ensures
        lift_deep(r) == p_submenu_tail(s@, i as int),
        r matches Option::Some(x) ==> i <= x.1 <= s.len(),
{
    let (label, j) = match e_str(s, i) {
        Option::Some(x) => x,
        Option::None => {
            return Option::None;
        },
    };
    if !match_lit(s, j, ",menu:") {
        return Option::None;
    }
    let (menu, j3) = match e_which_menu(s, j + lit_len(",menu:")) {
        Option::Some(x) => x,
        Option::None => {
            return Option::None;
        },
    };
    if !match_ch(s, j3, ',') {
        return Option::None;
    }
    let j4 = j3 + 1;
    if match_lit(s, j4, "variant:") {
        let (variant, j5) = match e_variant(s, j4 + lit_len("variant:")) {
            Option::Some(x) => x,
            Option::None => {
                return Option::None;
            },
        };
        if !match_lit(s, j5, ",)") {
            return Option::None;
        }
        Option::Some((MenuItem::SubMenu(SubMenu { label, menu, variant }), j5 + lit_len(",)")))
    } else {
        if !match_ch(s, j4, ')') {
            return Option::None;
        }
        Option::Some(
            (
                MenuItem::SubMenu(SubMenu { label, menu, variant: MenuButtonVariant::Default }),
                j4 + 1,
            ),
        )
    }
}

fn e_button_tail(s: &Vec<char>, i: usize) -> (r: Option<(MenuItem, usize)>)
    requires
        i <= s.len(),
    ensures
        lift_deep(r) == p_button_tail(s@, i as int),
        r matches Option::Some(x) ==> i <= x.1 <= s.len(),
{
    let (label, j) = match e_str(s, i) {
        Option::Some(x) => x,
        Option::None => {
            return Option::None;
        },
    };
    if !match_lit(s, j, ",action:") {
        return Option::None;
    }
    let (action, j3) = match e_action(s, j + lit_len(",action:")) {
        Option::Some(x) => x,
        Option::None => {
            return Option::None;
        },
    };
    if !match_lit(s, j3, ",)") {
        return Option::None;
    }
    Option::Some((MenuItem::Button(Button { label, action }), j3 + lit_len(",)")))
}

fn e_link_tail(s: &Vec<char>, i: usize) -> (r: Option<(MenuItem, usize)>)
    requires
        i <= s.len(),
    ensures
        lift_deep(r) == p_link_tail(s@, i as int),
        r matches Option::Some(x) ==> i <= x.1 <= s.len(),
{
    let (label, j) = match e_str(s, i) {
        Option::Some(x) => x,
        Option::None => {
            return Option::None;
        },
    };
    if !match_lit(s, j, ",url:") {
        return Option::None;
    }
    let (url, j3) = match e_str(s, j + lit_len(",url:")) {
        Option::Some(x) => x,
        Option::None => {
            return Option::None;
        },
    };
    if !match_ch(s, j3, ',') {
        return Option::None;
    }
    let (icon, j5) = match e_opt_str_field(s, j3 + 1, "icon:") {
        Option::Some(x) => x,
        Option::None => {
            return Option::None;
        },
    };
    if !match_ch(s, j5, ')') {
        return Option::None;
    }
    Option::Some((MenuItem::Link(Link { label, url, icon }), j5 + 1))
}

fn e_text_input_tail(s: &Vec<char>, i: usize) -> (r: Option<(MenuItem, usize)>)
    requires
        i <= s.len(),
    ensures
        lift_deep(r) == p_text_input_tail(s@, i as int),
        r matches Option::Some(x) ==> i <= x.1 <= s.len(),
{
    let (label, j) = match e_str(s, i) {
        Option::Some(x) => x,
        Option::None => {
            return Option::None;
        },
    };
    if !match_ch(s, j, ',') {
        return Option::None;
    }
    let j2 = j + 1;
    let (default_value, j5) = if match_lit(s, j2, "default_value:") {
        let (v, j3) = match e_str(s, j2 + lit_len("default_value:")) {
            Option::Some(x) => x,
            Option::None => {
                return Option::None;
            },
        };
        if !match_ch(s, j3, ',') {
            return Option::None;
        }
        (v, j3 + 1)
    } else {
        (String::new(), j2)
    };
    let (max_length, j6) = match e_opt_nat_field(s, j5, "max_length:") {
        Option::Some(x) => x,
        Option::None => {
            return Option::None;
        },
    };
    if !match_lit(s, j6, "name:") {
        return Option::None;
    }
    let (name, j8) = match e_str(s, j6 + lit_len("name:")) {
        Option::Some(x) => x,
        Option::None => {
            return Option::None;
        },
    };
    if !match_ch(s, j8, ',') {
        return Option::None;
    }
    let j9 = j8 + 1;
    let (type_, j10) = if match_lit(s, j9, "type:") {
        let (t, ja) = match e_input_type(s, j9 + lit_len("type:")) {
            Option::Some(x) => x,
            Option::None => {
                return Option::None;
            },
        };
        if !match_lit(s, ja, ",)") {
            return Option::None;
        }
        (t, ja + lit_len(",)"))
    } else {
        if !match_ch(s, j9, ')') {
            return Option::None;
        }
        (TextInputType::Text, j9 + 1)
    };
    Option::Some(
        (MenuItem::TextInput(TextInput { label, default_value, max_length, name, type_ }), j10),
    )
}

fn e_slider_tail(s: &Vec<char>, i: usize) -> (r: Option<(MenuItem, usize)>)
    requires
        i <= s.len(),
    ensures
        lift_deep(r) == p_slider_tail(s@, i as int),
        r matches Option::Some(x) ==> i <= x.1 <= s.len(),
{
    let (label, j) = match e_str(s, i) {
        Option::Some(x) => x,
        Option::None => {
            return Option::None;
        },
    };
    if !match_lit(s, j, ",value:") {
        return Option::None;
    }
    let (value, j3) = match e_nat(s, j + lit_len(",value:")) {
        Option::Some(x) => x,
        Option::None => {
            return Option::None;
        },
    };
    if !match_lit(s, j3, ",min:") {
        return Option::None;
    }
    let (min, j5) = match e_nat(s, j3 + lit_len(",min:")) {
        Option::Some(x) => x,
        Option::None => {
            return Option::None;
        },
    };
    if !match_lit(s, j5, ",max:") {
        return Option::None;
    }
    let (max, j7) = match e_nat(s, j5 + lit_len(",max:")) {
        Option::Some(x) => x,
        Option::None => {
            return Option::None;
        },
    };
    if !match_lit(s, j7, ",name:") {
        return Option::None;
    }
    let (name, j9) = match e_str(s, j7 + lit_len(",name:")) {
        Option::Some(x) => x,
        Option::None => {
            return Option::None;
        },
    };
    if !match_lit(s, j9, ",)") {
        return Option::None;
    }
    Option::Some(
        (MenuItem::Slider(Slider { label, value, min, max, name }), j9 + lit_len(",)")),
    )
}

fn e_dropdown_tail(s: &Vec<char>, i: usize) -> (r: Option<(MenuItem, usize)>)
    requires
        i <= s.len(),
    ensures
        lift_deep(r) == p_dropdown_tail(s@, i as int),
        r matches Option::Some(x) ==> i <= x.1 <= s.len(),
{
    let (label, j) = match e_str(s, i) {
        Option::Some(x) => x,
        Option::None => {
            return Option::None;
        },
    };
    if !match_lit(s, j, ",source:") {
        return Option::None;
    }
    let (source, j3) = match e_source(s, j + lit_len(",source:")) {
        Option::Some(x) => x,
        Option::None => {
            return Option::None;
        },
    };
    if !match_ch(s, j3, ',') {
        return Option::None;
    }
    let (selected, j5) = match e_opt_nat_field(s, j3 + 1, "selected:") {
        Option::Some(x) => x,
        Option::None => {
            return Option::None;
        },
    };
    if !match_ch(s, j5, ')') {
        return Option::None;
    }
    Option::Some((MenuItem::Dropdown(Dropdown { label, source, selected }), j5 + 1))
}

fn e_multi_dropdown_tail(s: &Vec<char>, i: usize) -> (r: Option<(MenuItem, usize)>)
    requires
        i <= s.len(),
    ensures
        lift_deep(r) == p_multi_dropdown_tail(s@, i as int),
        r matches Option::Some(x) ==> i <= x.1 <= s.len(),
{
    let (label, j) = match e_str(s, i) {
        Option::Some(x) => x,
        Option::None => {
            return Option::None;
        },
    };
    if !match_lit(s, j, ",options:") {
        return Option::None;
    }
    let (options, j3) = match e_source(s, j + lit_len(",options:")) {
        Option::Some(x) => x,
        Option::None => {
            return Option::None;
        },
    };
    if !match_lit(s, j3, ",selected:[") {
        return Option::None;
    }
    let (selected, j5) = match e_nat_elems(s, j3 + lit_len(",selected:[")) {
        Option::Some(x) => x,
        Option::None => {
            return Option::None;
        },
    };
    if !match_lit(s, j5, ",name:") {
        return Option::None;
    }
    let (name, j7) = match e_str(s, j5 + lit_len(",name:")) {
        Option::Some(x) => x,
        Option::None => {
            return Option::None;
        },
    };
    if !match_lit(s, j7, ",)") {
        return Option::None;
    }
    proof {
        assert(selected.deep_view() =~= selected@);
    }
    Option::Some(
        (
            MenuItem::MultiDropdown(MultiDropdown { label, options, selected, name }),
            j7 + lit_len(",)"),
        ),
    )
}

fn e_item(s: &Vec<char>, i: usize) -> (r: Option<(MenuItem, usize)>)
    requires
        i <= s.len(),
    ensures
        lift_deep(r) == p_item(s@, i as int),
        r matches Option::Some(x) ==> i <= x.1 <= s.len(),
    decreases s.len() - i, 0nat,
{
    if match_lit(s, i, "Label(label:") {
        match e_label_tail(s, i + lit_len("Label(label:")) {
            Option::Some((l, j)) => Option::Some((MenuItem::Label(l), j)),
            Option::None => Option::None,
        }
    } else if match_lit(s, i, "Spacer") {
        Option::Some((MenuItem::Spacer, i + lit_len("Spacer")))
    } else if match_lit(s, i, "SubMenu(label:") {
        e_submenu_tail(s, i + lit_len("SubMenu(label:"))
    } else if match_lit(s, i, "Button(label:") {
        e_button_tail(s, i + lit_len("Button(label:"))
    } else if match_lit(s, i, "Link(label:") {
        e_link_tail(s, i + lit_len("Link(label:"))
    } else if match_lit(s, i, "TextInput(label:") {
        e_text_input_tail(s, i + lit_len("TextInput(label:"))
    } else if match_lit(s, i, "Slider(label:") {
        e_slider_tail(s, i + lit_len("Slider(label:"))
    } else if match_lit(s, i, "Row([") {
        proof {
            reveal_strlit("Row([");
        }
        match e_items_elems(s, i + lit_len("Row([")) {
            Option::Some((items, j)) => if match_ch(s, j, ')') {
                proof {
                    crate::document::lemma_items_view_index(items@);
                    assert(crate::document::items_view(items@) =~= items.deep_view());
                }
                Option::Some((MenuItem::Row(Row(items)), j + 1))
            } else {
                Option::None
            },
            Option::None => Option::None,
        }
    } else if match_lit(s, i, "Dropdown(label:") {
        e_dropdown_tail(s, i + lit_len("Dropdown(label:"))
    } else if match_lit(s, i, "MultiDropdown(label:") {
        e_multi_dropdown_tail(s, i + lit_len("MultiDropdown(label:"))
    } else {
        Option::None
    }
}

fn e_items_elems(s: &Vec<char>, i: usize) -> (r: Option<(Vec<MenuItem>, usize)>)
    requires
        i <= s.len(),
    ensures
        lift_deep(r) == p_items_elems(s@, i as int, Seq::empty()),
        r matches Option::Some(x) ==> i <= x.1 <= s.len(),
    decreases s.len() - i, 1nat,
{
    let mut j: usize = i;
    let mut acc: Vec<MenuItem> = Vec::new();
    proof {
        assert(acc.deep_view() =~= Seq::<MenuItemView>::empty());
    }
    loop
        invariant
            i <= j <= s.len(),
            p_items_elems(s@, i as int, Seq::empty()) == p_items_elems(
                s@,
                j as int,
                acc.deep_view(),
            ),
        decreases s.len() - j,
    {
        if j >= s.len() {
            return Option::None;
        }
        if match_ch(s, j, ']') {
            return Option::Some((acc, j + 1));
        }
        match e_item(s, j) {
            Option::Some((v, j2)) => {
                if j < j2 && match_ch(s, j2, ',') {
                    let ghost acc0 = acc.deep_view();
                    let ghost vv = v@;
                    acc.push(v);
                    proof {
                        assert(acc.deep_view() =~= acc0.push(vv));
                    }
                    j = j2 + 1;
                } else {
                    return Option::None;
                }
            },
            Option::None => {
                return Option::None;
            },
        }
    }
}

fn e_menu(s: &Vec<char>, i: usize) -> (r: Option<(Menu, usize)>)
    requires
        i <= s.len(),
    ensures
        lift_deep(r) == p_menu(s@, i as int),
        r matches Option::Some(x) ==> i <= x.1 <= s.len(),
{
    if !match_lit(s, i, "Menu(title:") {
        return Option::None;
    }
    let (title, j2) = match e_str(s, i + lit_len("Menu(title:")) {
        Option::Some(x) => x,
        Option::None => {
            return Option::None;
        },
    };
    if !match_ch(s, j2, ',') {
        return Option::None;
    }
    let j3 = j2 + 1;
    let (main_menu, j6) = if match_lit(s, j3, "main_menu:") {
        let (b, j4) = match e_bool(s, j3 + lit_len("main_menu:")) {
            Option::Some(x) => x,
            Option::None => {
                return Option::None;
            },
        };
        if !match_ch(s, j4, ',') {
            return Option::None;
        }
        (b, j4 + 1)
    } else {
        (false, j3)
    };
    if !match_lit(s, j6, "children:[") {
        return Option::None;
    }
    let (children, j8) = match e_items_elems(s, j6 + lit_len("children:[")) {
        Option::Some(x) => x,
        Option::None => {
            return Option::None;
        },
    };
    if !match_lit(s, j8, ",)") {
        return Option::None;
    }
    proof {
        crate::document::lemma_items_view_index(children@);
        assert(crate::document::items_view(children@) =~= children.deep_view());
    }
    Option::Some((Menu { title, main_menu, children }, j8 + lit_len(",)")))
}

/// Reads a whole document, or reports that the text is not one.
pub fn deserialize(text: &str) -> (r: Result<Menu, FormatError>)
    ensures
        r matches Result::Ok(m) ==> p_doc(text@) == Option::Some(m@),
        r matches Result::Err(e) ==> p_doc(text@) is None,
{
    let chars = crate::codec::string_chars(text);
    match e_menu(&chars, 0) {
        Option::Some((m, j)) => if j == chars.len() {
            Result::Ok(m)
        } else {
            Result::Err(FormatError)
        },
        Option::None => Result::Err(FormatError),
    }
}

} // verus!
