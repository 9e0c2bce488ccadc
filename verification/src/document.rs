//! The menu document model: a serializable tree of widget descriptions that
//! describes one menu screen. The model carries no behaviour beyond its own
//! structure; rendering, state and input routing live in the other modules.

use vstd::prelude::*;

use crate::trivia_source::{TriviaSource, TriviaSourceView};

verus! {

/// Identifies one navigable screen of the menu UI.
#[derive(Clone, Copy, Debug, PartialEq, Eq, Hash, Structural)]
pub enum WhichMenu {
    Main,
    JoinGame,
    HostGame,
    Settings,
    Credits,
}

impl Default for WhichMenu {
    /// The screen the UI starts on and falls back to.
    fn default() -> (r: Self)
        ensures
            r == WhichMenu::Main,
    {
        WhichMenu::Main
    }
}

/// The action a button performs when activated.
#[derive(Clone, Copy, Debug, PartialEq, Eq, Hash, Structural)]
pub enum MenuAction {
    /// Ask the application to exit.
    Quit,
    /// Pop the navigation stack and return to the previous screen.
    Back,
    /// Ask the platform layer to reload the application.
    PlatformReload,
    /// Begin hosting a lobby, gated on every text field being valid.
    HostLobby,
}

/// The visual emphasis of a sub-menu button.
#[derive(Clone, Copy, Debug, PartialEq, Eq, Hash, Structural)]
pub enum MenuButtonVariant {
    Default,
    Primary,
}

impl MenuButtonVariant {
    /// Holds exactly on the default variant; the serializer omits the field
    /// then.
    pub fn is_default(&self) -> (r: bool)
        ensures
            r == (*self == MenuButtonVariant::Default),
    {
        matches!(self, MenuButtonVariant::Default)
    }
}

impl Default for MenuButtonVariant {
    fn default() -> (r: Self)
        ensures
            r == MenuButtonVariant::Default,
    {
        MenuButtonVariant::Default
    }
}

/// What a text input accepts: free text, a whole number, or a decimal
/// number.
#[derive(Clone, Copy, Debug, PartialEq, Eq, Hash, Structural)]
pub enum TextInputType {
    Text,
    Integer,
    Float,
}

impl TextInputType {
    /// Holds exactly on the default kind; the serializer omits the field
    /// then.
    pub fn is_default(&self) -> (r: bool)
        ensures
            r == (*self == TextInputType::Text),
    {
        matches!(self, TextInputType::Text)
    }
}

impl Default for TextInputType {
    fn default() -> (r: Self)
        ensures
            r == TextInputType::Text,
    {
        TextInputType::Text
    }
}

/// A static line of text, with optional styling.
#[derive(Clone, Debug, PartialEq)]
pub struct Label {
    /// The text to display.
    pub label: String,
    /// Minimum height in whole pixels, if constrained.
    pub height: Option<usize>,
    /// Font size in whole pixels, if overridden.
    pub font_size: Option<usize>,
    /// A named colour, if overridden.
    pub color: Option<String>,
}

/// A button that performs a [`MenuAction`] when activated.
#[derive(Clone, Debug, PartialEq)]
pub struct Button {
    pub label: String,
    pub action: MenuAction,
}

/// A button that opens an external URL.
#[derive(Clone, Debug, PartialEq)]
pub struct Link {
    pub label: String,
    pub url: String,
    /// The name of an icon asset shown beside the label, if any.
    pub icon: Option<String>,
}

/// A button that switches to a different screen, pushing the current one
/// onto the navigation stack.
#[derive(Clone, Debug, PartialEq)]
pub struct SubMenu {
    pub label: String,
    /// The screen to switch to.
    pub menu: WhichMenu,
    pub variant: MenuButtonVariant,
}

/// A single-line text entry field.
#[derive(Clone, Debug, PartialEq)]
pub struct TextInput {
    pub label: String,
    /// The value the field starts with.
    pub default_value: String,
    /// The longest value the field accepts, if bounded.
    pub max_length: Option<usize>,
    /// The stable name under which the field's value is collected.
    pub name: String,
    /// What the field accepts.
    pub type_: TextInputType,
}

/// An integer slider.
#[derive(Clone, Debug, PartialEq)]
pub struct Slider {
    pub label: String,
    /// The value the slider starts with.
    pub value: usize,
    pub min: usize,
    pub max: usize,
    /// The stable name under which the slider's value is collected.
    pub name: String,
}

/// A horizontal row of items, rendered in order.
#[derive(Debug, PartialEq)]
pub struct Row(pub Vec<MenuItem>);

/// A single-choice dropdown over a [`TriviaSource`].
#[derive(Clone, Debug, PartialEq)]
pub struct Dropdown {
    pub label: String,
    pub source: TriviaSource,
    /// The index of the chosen option, if one is chosen.
    pub selected: Option<usize>,
}

/// A multiple-choice dropdown over a [`TriviaSource`].
#[derive(Clone, Debug, PartialEq)]
pub struct MultiDropdown {
    pub label: String,
    pub options: TriviaSource,
    /// Indices of the chosen options.
    pub selected: Vec<usize>,
    /// The stable name under which the selection is collected.
    pub name: String,
}

/// One item of a menu screen; `Row` nests further items.
#[derive(Debug, PartialEq)]
pub enum MenuItem {
    Label(Label),
    Spacer,
    SubMenu(SubMenu),
    Button(Button),
    Link(Link),
    TextInput(TextInput),
    Slider(Slider),
    Row(Row),
    Dropdown(Dropdown),
    MultiDropdown(MultiDropdown),
}

/// One menu screen: a title and an ordered sequence of items.
#[derive(Debug, PartialEq)]
pub struct Menu {
    pub title: String,
    /// Whether this is the root screen of the menu.
    pub main_menu: bool,
    pub children: Vec<MenuItem>,
}

// ------------------------------------------------------------------
// Mathematical views
// ------------------------------------------------------------------

pub ghost struct LabelView {
    pub label: Seq<char>,
    pub height: Option<usize>,
    pub font_size: Option<usize>,
    pub color: Option<Seq<char>>,
}

pub ghost struct ButtonView {
    pub label: Seq<char>,
    pub action: MenuAction,
}

pub ghost struct LinkView {
    pub label: Seq<char>,
    pub url: Seq<char>,
    pub icon: Option<Seq<char>>,
}

pub ghost struct SubMenuView {
    pub label: Seq<char>,
    pub menu: WhichMenu,
    pub variant: MenuButtonVariant,
}

pub ghost struct TextInputView {
    pub label: Seq<char>,
    pub default_value: Seq<char>,
    pub max_length: Option<usize>,
    pub name: Seq<char>,
    pub type_: TextInputType,
}

pub ghost struct SliderView {
    pub label: Seq<char>,
    pub value: usize,
    pub min: usize,
    pub max: usize,
    pub name: Seq<char>,
}

pub ghost struct DropdownView {
    pub label: Seq<char>,
    pub source: TriviaSourceView,
    pub selected: Option<usize>,
}

pub ghost struct MultiDropdownView {
    pub label: Seq<char>,
    pub options: TriviaSourceView,
    pub selected: Seq<usize>,
    pub name: Seq<char>,
}

pub ghost enum MenuItemView {
    Label(LabelView),
    Spacer,
    SubMenu(SubMenuView),
    Button(ButtonView),
    Link(LinkView),
    TextInput(TextInputView),
    Slider(SliderView),
    Row(Seq<MenuItemView>),
    Dropdown(DropdownView),
    MultiDropdown(MultiDropdownView),
}

pub ghost struct MenuView {
    pub title: Seq<char>,
    pub main_menu: bool,
    pub children: Seq<MenuItemView>,
}

pub open spec fn opt_str_view(o: Option<String>) -> Option<Seq<char>> {
    match o {
        Option::Some(s) => Option::Some(s@),
        Option::None => Option::None,
    }
}

impl View for Label {
    type V = LabelView;

    open spec fn view(&self) -> LabelView {
        LabelView {
            label: self.label@,
            height: self.height,
            font_size: self.font_size,
            color: opt_str_view(self.color),
        }
    }
}

impl View for Button {
    type V = ButtonView;

    open spec fn view(&self) -> ButtonView {
        ButtonView { label: self.label@, action: self.action }
    }
}

impl View for Link {
    type V = LinkView;

    open spec fn view(&self) -> LinkView {
        LinkView { label: self.label@, url: self.url@, icon: opt_str_view(self.icon) }
    }
}

impl View for SubMenu {
    type V = SubMenuView;

    open spec fn view(&self) -> SubMenuView {
        SubMenuView { label: self.label@, menu: self.menu, variant: self.variant }
    }
}

impl View for TextInput {
    type V = TextInputView;

    open spec fn view(&self) -> TextInputView {
        TextInputView {
            label: self.label@,
            default_value: self.default_value@,
            max_length: self.max_length,
            name: self.name@,
            type_: self.type_,
        }
    }
}

impl View for Slider {
    type V = SliderView;

    open spec fn view(&self) -> SliderView {
        SliderView {
            label: self.label@,
            value: self.value,
            min: self.min,
            max: self.max,
            name: self.name@,
        }
    }
}

impl View for Dropdown {
    type V = DropdownView;

    open spec fn view(&self) -> DropdownView {
        DropdownView { label: self.label@, source: self.source@, selected: self.selected }
    }
}

impl View for MultiDropdown {
    type V = MultiDropdownView;

    open spec fn view(&self) -> MultiDropdownView {
        MultiDropdownView {
            label: self.label@,
            options: self.options@,
            selected: self.selected@,
            name: self.name@,
        }
    }
}

/// The view of one item; recursive through `Row`.
pub open spec fn item_view(item: MenuItem) -> MenuItemView
    decreases item,
{
    match item {
        MenuItem::Label(l) => MenuItemView::Label(l@),
        MenuItem::Spacer => MenuItemView::Spacer,
        MenuItem::SubMenu(s) => MenuItemView::SubMenu(s@),
        MenuItem::Button(b) => MenuItemView::Button(b@),
        MenuItem::Link(l) => MenuItemView::Link(l@),
        MenuItem::TextInput(t) => MenuItemView::TextInput(t@),
        MenuItem::Slider(s) => MenuItemView::Slider(s@),
        MenuItem::Row(r) => MenuItemView::Row(items_view(r.0@)),
        MenuItem::Dropdown(d) => MenuItemView::Dropdown(d@),
        MenuItem::MultiDropdown(m) => MenuItemView::MultiDropdown(m@),
    }
}

/// The views of a sequence of items, in order.
pub open spec fn items_view(items: Seq<MenuItem>) -> Seq<MenuItemView>
    decreases items, items.len(),
{
    if items.len() == 0 {
        Seq::empty()
    } else {
        seq![item_view(items[0])] + items_view(items.drop_first())
    }
}

/// `items_view` maps the sequence pointwise.
pub proof fn lemma_items_view_index(items: Seq<MenuItem>)
    ensures
        items_view(items).len() == items.len(),
        forall|i: int| 0 <= i < items.len() ==> items_view(items)[i] == item_view(items[i]),
    decreases items.len(),
{
    if items.len() > 0 {
        lemma_items_view_index(items.drop_first());
    }
}

impl View for MenuItem {
    type V = MenuItemView;

    open spec fn view(&self) -> MenuItemView {
        item_view(*self)
    }
}

impl View for Row {
    type V = Seq<MenuItemView>;

    open spec fn view(&self) -> Seq<MenuItemView> {
        items_view(self.0@)
    }
}

impl View for Menu {
    type V = MenuView;

    open spec fn view(&self) -> MenuView {
        MenuView {
            title: self.title@,
            main_menu: self.main_menu,
            children: items_view(self.children@),
        }
    }
}

impl DeepView for Label {
    type V = LabelView;

    open spec fn deep_view(&self) -> LabelView {
        self@
    }
}

impl DeepView for Button {
    type V = ButtonView;

    open spec fn deep_view(&self) -> ButtonView {
        self@
    }
}

impl DeepView for Link {
    type V = LinkView;

    open spec fn deep_view(&self) -> LinkView {
        self@
    }
}

impl DeepView for SubMenu {
    type V = SubMenuView;

    open spec fn deep_view(&self) -> SubMenuView {
        self@
    }
}

impl DeepView for TextInput {
    type V = TextInputView;

    open spec fn deep_view(&self) -> TextInputView {
        self@
    }
}

impl DeepView for Slider {
    type V = SliderView;

    open spec fn deep_view(&self) -> SliderView {
        self@
    }
}

impl DeepView for Dropdown {
    type V = DropdownView;

    open spec fn deep_view(&self) -> DropdownView {
        self@
    }
}

impl DeepView for MultiDropdown {
    type V = MultiDropdownView;

    open spec fn deep_view(&self) -> MultiDropdownView {
        self@
    }
}

impl DeepView for MenuItem {
    type V = MenuItemView;

    open spec fn deep_view(&self) -> MenuItemView {
        self@
    }
}

impl DeepView for Menu {
    type V = MenuView;

    open spec fn deep_view(&self) -> MenuView {
        self@
    }
}

impl DeepView for WhichMenu {
    type V = WhichMenu;

    open spec fn deep_view(&self) -> WhichMenu {
        *self
    }
}

impl DeepView for MenuAction {
    type V = MenuAction;

    open spec fn deep_view(&self) -> MenuAction {
        *self
    }
}

impl DeepView for MenuButtonVariant {
    type V = MenuButtonVariant;

    open spec fn deep_view(&self) -> MenuButtonVariant {
        *self
    }
}

impl DeepView for TextInputType {
    type V = TextInputType;

    open spec fn deep_view(&self) -> TextInputType {
        *self
    }
}

} // verus!
