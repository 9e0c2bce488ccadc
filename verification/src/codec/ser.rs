//! Serialization of the menu document: a specification form for every
//! production, and an executable writer proved to emit exactly that form.

use vstd::prelude::*;

use crate::codec::{ser_nat, ser_nat_exec, ser_str, ser_str_exec, push_lit};
use crate::document::{
    Button, Dropdown, Label, LabelView, Link, Menu, MenuAction, MenuButtonVariant, MenuItem,
    MenuItemView, MenuView, MultiDropdown, Row, Slider, SubMenu, TextInput, TextInputType,
    WhichMenu, item_view, items_view, lemma_items_view_index,
};
use crate::trivia_source::{Categories, CategoriesView, OpenTdbSource, TriviaSource, TriviaSourceView};

verus! {

// ------------------------------------------------------------------
// Specification forms
// ------------------------------------------------------------------

pub open spec fn ser_which_menu(w: WhichMenu) -> Seq<char> {
    match w {
        WhichMenu::Main => "Main"@,
        WhichMenu::JoinGame => "JoinGame"@,
        WhichMenu::HostGame => "HostGame"@,
        WhichMenu::Settings => "Settings"@,
        WhichMenu::Credits => "Credits"@,
    }
}

pub open spec fn ser_action(a: MenuAction) -> Seq<char> {
    match a {
        MenuAction::Quit => "Quit"@,
        MenuAction::Back => "Back"@,
        MenuAction::PlatformReload => "PlatformReload"@,
        MenuAction::HostLobby => "HostLobby"@,
    }
}

pub open spec fn ser_variant(v: MenuButtonVariant) -> Seq<char> {
    match v {
        MenuButtonVariant::Default => "Default"@,
        MenuButtonVariant::Primary => "Primary"@,
    }
}

pub open spec fn ser_input_type(t: TextInputType) -> Seq<char> {
    match t {
        TextInputType::Text => "Text"@,
        TextInputType::Integer => "Integer"@,
        TextInputType::Float => "Float"@,
    }
}

/// A bracketed list leaves a comma after every element.
pub open spec fn ser_str_list(l: Seq<Seq<char>>) -> Seq<char>
    decreases l.len(),
{
    if l.len() == 0 {
        Seq::empty()
    } else {
        ser_str(l[0]) + seq![','] + ser_str_list(l.drop_first())
    }
}

pub open spec fn ser_nat_list(l: Seq<usize>) -> Seq<char>
    decreases l.len(),
{
    if l.len() == 0 {
        Seq::empty()
    } else {
        ser_nat(l[0] as nat) + seq![','] + ser_nat_list(l.drop_first())
    }
}

/// An optional numeric field, omitted when absent.
pub open spec fn ser_opt_nat_field(name: Seq<char>, o: Option<usize>) -> Seq<char> {
    match o {
        Option::Some(v) => name + ser_nat(v as nat) + seq![','],
        Option::None => Seq::empty(),
    }
}

/// An optional string field, omitted when absent.
pub open spec fn ser_opt_str_field(name: Seq<char>, o: Option<Seq<char>>) -> Seq<char> {
    match o {
        Option::Some(v) => name + ser_str(v) + seq![','],
        Option::None => Seq::empty(),
    }
}

pub open spec fn ser_label(l: LabelView) -> Seq<char> {
    "Label(label:"@ + ser_str(l.label) + seq![','] + ser_opt_nat_field("height:"@, l.height)
        + ser_opt_nat_field("font_size:"@, l.font_size) + ser_opt_str_field("color:"@, l.color)
        + seq![')']
}

pub open spec fn ser_categories(c: CategoriesView) -> Seq<char> {
    match c {
        CategoriesView::Todo => "Todo"@,
        CategoriesView::InProgress => "InProgress"@,
        CategoriesView::Done { names, ids, selected } => "Done(names:["@ + ser_str_list(names)
            + "],ids:["@ + ser_nat_list(ids) + "],selected:["@ + ser_nat_list(selected) + "],)"@,
    }
}

pub open spec fn ser_source(s: TriviaSourceView) -> Seq<char> {
    match s {
        TriviaSourceView::String(l) => "String(["@ + ser_str_list(l) + "])"@,
        TriviaSourceView::OpenTdb(c) => "OpenTdb("@ + ser_categories(c) + seq![')'],
        TriviaSourceView::TriviaApi => "TriviaApi"@,
    }
}

/// One item; recursive through `Row`.
pub open spec fn ser_item(item: MenuItemView) -> Seq<char>
    decreases item,
{
    match item {
        MenuItemView::Label(l) => ser_label(l),
        MenuItemView::Spacer => "Spacer"@,
        MenuItemView::SubMenu(sm) => "SubMenu(label:"@ + ser_str(sm.label) + ",menu:"@
            + ser_which_menu(sm.menu) + seq![','] + (if sm.variant == MenuButtonVariant::Default {
            Seq::<char>::empty()
        } else {
            "variant:"@ + ser_variant(sm.variant) + seq![',']
        }) + seq![')'],
        MenuItemView::Button(b) => "Button(label:"@ + ser_str(b.label) + ",action:"@
            + ser_action(b.action) + ",)"@,
        MenuItemView::Link(l) => "Link(label:"@ + ser_str(l.label) + ",url:"@ + ser_str(l.url)
            + seq![','] + ser_opt_str_field("icon:"@, l.icon) + seq![')'],
        MenuItemView::TextInput(t) => "TextInput(label:"@ + ser_str(t.label) + seq![','] + (
        if t.default_value.len() == 0 {
            Seq::<char>::empty()
        } else {
            "default_value:"@ + ser_str(t.default_value) + seq![',']
        }) + ser_opt_nat_field("max_length:"@, t.max_length) + "name:"@ + ser_str(t.name)
            + seq![','] + (if t.type_ == TextInputType::Text {
            Seq::<char>::empty()
        } else {
            "type:"@ + ser_input_type(t.type_) + seq![',']
        }) + seq![')'],
        MenuItemView::Slider(s) => "Slider(label:"@ + ser_str(s.label) + ",value:"@
            + ser_nat(s.value as nat) + ",min:"@ + ser_nat(s.min as nat) + ",max:"@
            + ser_nat(s.max as nat) + ",name:"@ + ser_str(s.name) + ",)"@,
        MenuItemView::Row(items) => "Row(["@ + ser_items(items) + "])"@,
        MenuItemView::Dropdown(d) => "Dropdown(label:"@ + ser_str(d.label) + ",source:"@
            + ser_source(d.source) + seq![','] + ser_opt_nat_field("selected:"@, d.selected)
            + seq![')'],
        MenuItemView::MultiDropdown(m) => "MultiDropdown(label:"@ + ser_str(m.label)
            + ",options:"@ + ser_source(m.options) + ",selected:["@ + ser_nat_list(m.selected)
            + "],name:"@ + ser_str(m.name) + ",)"@,
    }
}

/// A sequence of items, a comma after each.
pub open spec fn ser_items(items: Seq<MenuItemView>) -> Seq<char>
    decreases items, items.len(),
{
    if items.len() == 0 {
        Seq::empty()
    } else {
        ser_item(items[0]) + seq![','] + ser_items(items.drop_first())
    }
}

/// A whole document.
pub open spec fn ser_menu(m: MenuView) -> Seq<char> {
    "Menu(title:"@ + ser_str(m.title) + seq![','] + (if m.main_menu {
        "main_menu:true,"@
    } else {
        Seq::<char>::empty()
    }) + "children:["@ + ser_items(m.children) + "],)"@
}

// ------------------------------------------------------------------
// Executable writers
// ------------------------------------------------------------------

fn w_which_menu(w: WhichMenu, out: &mut Vec<char>)
    ensures
        final(out)@ == old(out)@ + ser_which_menu(w),
{
    match w {
        WhichMenu::Main => push_lit(out, "Main"),
        WhichMenu::JoinGame => push_lit(out, "JoinGame"),
        WhichMenu::HostGame => push_lit(out, "HostGame"),
        WhichMenu::Settings => push_lit(out, "Settings"),
        WhichMenu::Credits => push_lit(out, "Credits"),
    }
}

fn w_action(a: MenuAction, out: &mut Vec<char>)
    ensures
        final(out)@ == old(out)@ + ser_action(a),
{
    match a {
        MenuAction::Quit => push_lit(out, "Quit"),
        MenuAction::Back => push_lit(out, "Back"),
        MenuAction::PlatformReload => push_lit(out, "PlatformReload"),
        MenuAction::HostLobby => push_lit(out, "HostLobby"),
    }
}

fn w_variant(v: MenuButtonVariant, out: &mut Vec<char>)
    ensures
        final(out)@ == old(out)@ + ser_variant(v),
{
    match v {
        MenuButtonVariant::Default => push_lit(out, "Default"),
        MenuButtonVariant::Primary => push_lit(out, "Primary"),
    }
}

fn w_input_type(t: TextInputType, out: &mut Vec<char>)
    ensures
        final(out)@ == old(out)@ + ser_input_type(t),
{
    match t {
        TextInputType::Text => push_lit(out, "Text"),
        TextInputType::Integer => push_lit(out, "Integer"),
        TextInputType::Float => push_lit(out, "Float"),
    }
}

fn w_str_list_from(l: &Vec<String>, k: usize, out: &mut Vec<char>)
    requires
        k <= l.len(),
    ensures
        final(out)@ == old(out)@ + ser_str_list(l.deep_view().skip(k as int)),
    decreases l.len() - k,
{
    if k < l.len() {
        ser_str_exec(l[k].as_str(), out);
        out.push(',');
        w_str_list_from(l, k + 1, out);
        proof {
            let lv = l.deep_view();
            assert(lv.skip(k as int).drop_first() =~= lv.skip(k + 1));
            assert(out@ =~= old(out)@ + ser_str_list(lv.skip(k as int)));
        }
    } else {
        proof {
            assert(l.deep_view().skip(k as int) =~= Seq::<Seq<char>>::empty());
        }
    }
}

fn w_str_list(l: &Vec<String>, out: &mut Vec<char>)
    ensures
        final(out)@ == old(out)@ + ser_str_list(l.deep_view()),
{
    w_str_list_from(l, 0, out);
    proof {
        assert(l.deep_view().skip(0) =~= l.deep_view());
    }
}

fn w_nat_list_from(l: &Vec<usize>, k: usize, out: &mut Vec<char>)
    requires
        k <= l.len(),
    ensures
        final(out)@ == old(out)@ + ser_nat_list(l@.skip(k as int)),
    decreases l.len() - k,
{
    if k < l.len() {
        ser_nat_exec(l[k], out);
        out.push(',');
        w_nat_list_from(l, k + 1, out);
        proof {
            assert(l@.skip(k as int).drop_first() =~= l@.skip(k + 1));
            assert(out@ =~= old(out)@ + ser_nat_list(l@.skip(k as int)));
        }
    } else {
        proof {
            assert(l@.skip(k as int) =~= Seq::<usize>::empty());
        }
    }
}

fn w_nat_list(l: &Vec<usize>, out: &mut Vec<char>)
    ensures
        final(out)@ == old(out)@ + ser_nat_list(l@),
{
    w_nat_list_from(l, 0, out);
    proof {
        assert(l@.skip(0) =~= l@);
    }
}

fn w_opt_nat_field(name: &str, o: &Option<usize>, out: &mut Vec<char>)
    ensures
        final(out)@ == old(out)@ + ser_opt_nat_field(name@, *o),
{
    match o {
        Option::Some(v) => {
            push_lit(out, name);
            ser_nat_exec(*v, out);
            out.push(',');
            proof {
                assert(out@ =~= old(out)@ + ser_opt_nat_field(name@, *o));
            }
        },
        Option::None => {
            proof {
                assert(out@ =~= old(out)@ + ser_opt_nat_field(name@, *o));
            }
        },
    }
}

fn w_opt_str_field(name: &str, o: &Option<String>, out: &mut Vec<char>)
    ensures
        final(out)@ == old(out)@ + ser_opt_str_field(name@, crate::document::opt_str_view(*o)),
{
    match o {
        Option::Some(v) => {
            push_lit(out, name);
            ser_str_exec(v.as_str(), out);
            out.push(',');
            proof {
                assert(out@ =~= old(out)@ + ser_opt_str_field(
                    name@,
                    crate::document::opt_str_view(*o),
                ));
            }
        },
        Option::None => {
            proof {
                assert(out@ =~= old(out)@ + ser_opt_str_field(
                    name@,
                    crate::document::opt_str_view(*o),
                ));
            }
        },
    }
}

fn w_categories(c: &Categories, out: &mut Vec<char>)
    ensures
        final(out)@ == old(out)@ + ser_categories(c@),
{
    match c {
        Categories::Todo => push_lit(out, "Todo"),
        Categories::InProgress => push_lit(out, "InProgress"),
        Categories::Done { names, ids, selected } => {
            push_lit(out, "Done(names:[");
            w_str_list(names, out);
            push_lit(out, "],ids:[");
            w_nat_list(ids, out);
            push_lit(out, "],selected:[");
            w_nat_list(selected, out);
            push_lit(out, "],)");
            proof {
                assert(out@ =~= old(out)@ + ser_categories(c@));
            }
        },
    }
}

fn w_source(s: &TriviaSource, out: &mut Vec<char>)
    ensures
        final(out)@ == old(out)@ + ser_source(s@),
{
    match s {
        TriviaSource::String(l) => {
            push_lit(out, "String([");
            w_str_list(&l.0, out);
            push_lit(out, "])");
            proof {
                assert(out@ =~= old(out)@ + ser_source(s@));
            }
        },
        TriviaSource::OpenTdb(o) => {
            let OpenTdbSource::Categories(c) = o;
            push_lit(out, "OpenTdb(");
            w_categories(c, out);
            out.push(')');
            proof {
                assert(out@ =~= old(out)@ + ser_source(s@));
            }
        },
        TriviaSource::TriviaApi(_) => push_lit(out, "TriviaApi"),
    }
}

fn w_label_item(l: &Label, out: &mut Vec<char>)
    ensures
        final(out)@ == old(out)@ + ser_label(l@),
{
    push_lit(out, "Label(label:");
    ser_str_exec(l.label.as_str(), out);
    out.push(',');
    w_opt_nat_field("height:", &l.height, out);
    w_opt_nat_field("font_size:", &l.font_size, out);
    w_opt_str_field("color:", &l.color, out);
    out.push(')');
    proof {
        assert(out@ =~= old(out)@ + ser_label(l@));
    }
}

fn w_submenu_item(sm: &SubMenu, out: &mut Vec<char>)
    ensures
        final(out)@ == old(out)@ + ser_item(MenuItemView::SubMenu(sm@)),
{
    push_lit(out, "SubMenu(label:");
    ser_str_exec(sm.label.as_str(), out);
    push_lit(out, ",menu:");
    w_which_menu(sm.menu, out);
    out.push(',');
    if !sm.variant.is_default() {
        push_lit(out, "variant:");
        w_variant(sm.variant, out);
        out.push(',');
    }
    out.push(')');
    proof {
        assert(out@ =~= old(out)@ + ser_item(MenuItemView::SubMenu(sm@)));
    }
}

fn w_button_item(b: &Button, out: &mut Vec<char>)
    ensures
        final(out)@ == old(out)@ + ser_item(MenuItemView::Button(b@)),
{
    push_lit(out, "Button(label:");
    ser_str_exec(b.label.as_str(), out);
    push_lit(out, ",action:");
    w_action(b.action, out);
    push_lit(out, ",)");
    proof {
        assert(out@ =~= old(out)@ + ser_item(MenuItemView::Button(b@)));
    }
}

fn w_link_item(l: &Link, out: &mut Vec<char>)
    ensures
        final(out)@ == old(out)@ + ser_item(MenuItemView::Link(l@)),
{
    push_lit(out, "Link(label:");
    ser_str_exec(l.label.as_str(), out);
    push_lit(out, ",url:");
    ser_str_exec(l.url.as_str(), out);
    out.push(',');
    w_opt_str_field("icon:", &l.icon, out);
    out.push(')');
    proof {
        assert(out@ =~= old(out)@ + ser_item(MenuItemView::Link(l@)));
    }
}

fn w_text_input_item(t: &TextInput, out: &mut Vec<char>)
    ensures
        final(out)@ == old(out)@ + ser_item(MenuItemView::TextInput(t@)),
{
    let ghost a = "TextInput(label:"@ + ser_str(t.label@) + seq![','];
    push_lit(out, "TextInput(label:");
    ser_str_exec(t.label.as_str(), out);
    out.push(',');
    proof {
        assert(out@ =~= old(out)@ + a);
    }
    let ghost b = a + (if t.default_value@.len() == 0 {
        Seq::<char>::empty()
    } else {
        "default_value:"@ + ser_str(t.default_value@) + seq![',']
    });
    if !t.default_value.as_str().is_empty() {
        push_lit(out, "default_value:");
        ser_str_exec(t.default_value.as_str(), out);
        out.push(',');
    }
    proof {
        assert(out@ =~= old(out)@ + b);
    }
    let ghost c = b + ser_opt_nat_field("max_length:"@, t.max_length) + "name:"@ + ser_str(t.name@)
        + seq![','];
    w_opt_nat_field("max_length:", &t.max_length, out);
    push_lit(out, "name:");
    ser_str_exec(t.name.as_str(), out);
    out.push(',');
    proof {
        assert(out@ =~= old(out)@ + c);
    }
    if !t.type_.is_default() {
        push_lit(out, "type:");
        w_input_type(t.type_, out);
        out.push(',');
    }
    out.push(')');
    proof {
        assert(out@ =~= old(out)@ + ser_item(MenuItemView::TextInput(t@)));
    }
}

fn w_slider_item(s: &Slider, out: &mut Vec<char>)
    ensures
        final(out)@ == old(out)@ + ser_item(MenuItemView::Slider(s@)),
{
    push_lit(out, "Slider(label:");
    ser_str_exec(s.label.as_str(), out);
    push_lit(out, ",value:");
    ser_nat_exec(s.value, out);
    push_lit(out, ",min:");
    ser_nat_exec(s.min, out);
    push_lit(out, ",max:");
    ser_nat_exec(s.max, out);
    push_lit(out, ",name:");
    ser_str_exec(s.name.as_str(), out);
    push_lit(out, ",)");
    proof {
        assert(out@ =~= old(out)@ + ser_item(MenuItemView::Slider(s@)));
    }
}

fn w_dropdown_item(d: &Dropdown, out: &mut Vec<char>)
    ensures
        final(out)@ == old(out)@ + ser_item(MenuItemView::Dropdown(d@)),
{
    push_lit(out, "Dropdown(label:");
    ser_str_exec(d.label.as_str(), out);
    push_lit(out, ",source:");
    w_source(&d.source, out);
    out.push(',');
    w_opt_nat_field("selected:", &d.selected, out);
    out.push(')');
    proof {
        assert(out@ =~= old(out)@ + ser_item(MenuItemView::Dropdown(d@)));
    }
}

fn w_multi_dropdown_item(m: &MultiDropdown, out: &mut Vec<char>)
    ensures
        final(out)@ == old(out)@ + ser_item(MenuItemView::MultiDropdown(m@)),
{
    push_lit(out, "MultiDropdown(label:");
    ser_str_exec(m.label.as_str(), out);
    push_lit(out, ",options:");
    w_source(&m.options, out);
    push_lit(out, ",selected:[");
    w_nat_list(&m.selected, out);
    push_lit(out, "],name:");
    ser_str_exec(m.name.as_str(), out);
    push_lit(out, ",)");
    proof {
        assert(out@ =~= old(out)@ + ser_item(MenuItemView::MultiDropdown(m@)));
    }
}

fn w_item(item: &MenuItem, out: &mut Vec<char>)
    ensures
        final(out)@ == old(out)@ + ser_item(item@),
    decreases *item,
{
    match item {
        MenuItem::Label(l) => w_label_item(l, out),
        MenuItem::Spacer => push_lit(out, "Spacer"),
        MenuItem::SubMenu(sm) => w_submenu_item(sm, out),
        MenuItem::Button(b) => w_button_item(b, out),
        MenuItem::Link(l) => w_link_item(l, out),
        MenuItem::TextInput(t) => w_text_input_item(t, out),
        MenuItem::Slider(s) => w_slider_item(s, out),
        MenuItem::Row(r) => {
            push_lit(out, "Row([");
            w_items_from(&r.0, 0, out);
            push_lit(out, "])");
            proof {
                assert(items_view(r.0@).skip(0) =~= items_view(r.0@));
                assert(out@ =~= old(out)@ + ser_item(item@));
            }
        },
        MenuItem::Dropdown(d) => w_dropdown_item(d, out),
        MenuItem::MultiDropdown(m) => w_multi_dropdown_item(m, out),
    }
}

fn w_items_from(l: &Vec<MenuItem>, k: usize, out: &mut Vec<char>)
    requires
        k <= l.len(),
    ensures
        final(out)@ == old(out)@ + ser_items(items_view(l@).skip(k as int)),
    decreases l@, l.len() - k,
{
    proof {
        lemma_items_view_index(l@);
    }
    if k < l.len() {
        w_item(&l[k], out);
        out.push(',');
        w_items_from(l, k + 1, out);
        proof {
            let lv = items_view(l@);
            assert(lv.skip(k as int).drop_first() =~= lv.skip(k + 1));
            assert(lv.skip(k as int)[0] == item_view(l@[k as int]));
            assert(out@ =~= old(out)@ + ser_items(lv.skip(k as int)));
        }
    } else {
        proof {
            assert(items_view(l@).skip(k as int) =~= Seq::<MenuItemView>::empty());
        }
    }
}

/// Writes the wire form of a whole document.
pub fn serialize(m: &Menu) -> (r: String)
    ensures
        r@ == ser_menu(m@),
{
    let mut out: Vec<char> = Vec::new();
    push_lit(&mut out, "Menu(title:");
    ser_str_exec(m.title.as_str(), &mut out);
    out.push(',');
    if !crate::is_false(&m.main_menu) {
        push_lit(&mut out, "main_menu:true,");
    }
    push_lit(&mut out, "children:[");
    w_items_from(&m.children, 0, &mut out);
    push_lit(&mut out, "],)");
    proof {
        assert(items_view(m.children@).skip(0) =~= items_view(m.children@));
        assert(out@ =~= ser_menu(m@));
    }
    crate::codec::chars_to_string(out)
}

} // verus!
