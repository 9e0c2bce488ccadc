//! The view renderer: turns a menu document into a live widget tree bound
//! to the widget state store.
//!
//! Each item variant maps to one node. Stateful widgets (text inputs,
//! sliders, multiple-choice dropdowns) claim one slot each, in traversal
//! order, and are seeded into the store on their first render; later
//! renders of the same identity read the stored state back unchanged.

use vstd::prelude::*;

use crate::document::{
    Menu, MenuAction, MenuButtonVariant, MenuItem, TextInput, WhichMenu,
};
use crate::store::{MultiDropdownSelected, SliderValue, WidgetKey, WidgetState, WidgetStore};
use crate::text_input::TextInputState;
use crate::trivia_source::TriviaSource;

verus! {

/// One node of the rendered widget tree, bound to its persistent state.
#[derive(Debug, PartialEq)]
pub enum WidgetNode {
    Label { text: String, height: Option<usize>, font_size: Option<usize>, color: Option<String> },
    Spacer,
    SubMenu { label: String, target: WhichMenu, variant: MenuButtonVariant },
    Button { label: String, action: MenuAction },
    Link { label: String, url: String, icon: Option<String> },
    TextInput {
        key: WidgetKey,
        label: String,
        value: String,
        cursor: usize,
        cursor_visible: bool,
        valid: bool,
        max_length: Option<usize>,
        name: String,
    },
    Slider { key: WidgetKey, label: String, value: usize, min: usize, max: usize, name: String },
    Row(Vec<WidgetNode>),
    Dropdown { label: String, options: Vec<String>, selected: Option<usize> },
    MultiDropdown {
        key: WidgetKey,
        label: String,
        options: Vec<String>,
        selected: Vec<usize>,
        name: String,
    },
}

/// How many state slots an item claims: one per stateful widget, in
/// traversal order.
pub open spec fn item_size(item: MenuItem) -> nat
    decreases item,
{
    match item {
        MenuItem::TextInput(_) => 1,
        MenuItem::Slider(_) => 1,
        MenuItem::MultiDropdown(_) => 1,
        MenuItem::Row(r) => items_size(r.0@),
        _ => 0,
    }
}

pub open spec fn items_size(items: Seq<MenuItem>) -> nat
    decreases items, items.len(),
{
    if items.len() == 0 {
        0
    } else {
        item_size(items[0]) + items_size(items.drop_first())
    }
}

/// The state a fresh text input is seeded with.
pub open spec fn seeded_text_state(t: TextInput, st: TextInputState) -> bool {
    &&& st.value.0@ == (match t.max_length {
        Option::Some(l) => if t.default_value@.len() > l {
            t.default_value@.subrange(0, l as int)
        } else {
            t.default_value@
        },
        Option::None => t.default_value@,
    })
    &&& st.cursor.0 == st.value.0@.len()
    &&& st.kind == t.type_
    &&& st.wf()
}

/// The node stands for the item: the same variant with the item's own
/// static description, recursively through rows. The stateful fields
/// (value, cursor, selection) come from the store and are pinned by
/// [`render_item`]'s own contract.
pub open spec fn node_for(item: MenuItem, node: WidgetNode) -> bool
    decreases item,
{
    match item {
        MenuItem::Label(l) => node == WidgetNode::Label {
            text: l.label,
            height: l.height,
            font_size: l.font_size,
            color: l.color,
        },
        MenuItem::Spacer => node == WidgetNode::Spacer,
        MenuItem::SubMenu(sm) => node == WidgetNode::SubMenu {
            label: sm.label,
            target: sm.menu,
            variant: sm.variant,
        },
        MenuItem::Button(b) => node == WidgetNode::Button { label: b.label, action: b.action },
        MenuItem::Link(l) => node == WidgetNode::Link {
            label: l.label,
            url: l.url,
            icon: l.icon,
        },
        MenuItem::TextInput(t) => node matches WidgetNode::TextInput {
            label,
            max_length,
            name,
            ..
        } && label == t.label && max_length == t.max_length && name == t.name,
        MenuItem::Slider(s) => node matches WidgetNode::Slider { label, min, max, name, .. }
            && label == s.label && min == s.min && max == s.max && name == s.name,
        MenuItem::Row(r) => node matches WidgetNode::Row(children) && children@.len()
            == r.0@.len() && (forall|i: int|
            0 <= i < r.0@.len() ==> node_for(#[trigger] r.0@[i], children@[i])),
        MenuItem::Dropdown(d) => node matches WidgetNode::Dropdown {
            label,
            options,
            selected,
        } && label == d.label && options@ == crate::trivia_source::source_values(d.source)
            && selected == d.selected,
        MenuItem::MultiDropdown(m) => node matches WidgetNode::MultiDropdown {
            label,
            options,
            name,
            ..
        } && label == m.label && options@ == crate::trivia_source::source_values(m.options)
            && name == m.name,
    }
}

/// Renders one item at the next free slot.
///
/// A stateful widget is bound to `(screen, slot)`: its first render seeds
/// the store, and any later render of the same identity shows exactly the
/// stored state, untouched by the item's defaults.
pub fn render_item(
    item: &MenuItem,
    screen: WhichMenu,
    slot: &mut u64,
    store: &mut WidgetStore,
) -> (node: WidgetNode)
    requires
        old(store).wf(),
        *old(slot) + item_size(*item) <= u64::MAX,
    ensures
        final(store).wf(),
        *final(slot) == *old(slot) + item_size(*item),
        forall|k: WidgetKey|
            #[trigger] old(store)@.contains_key(k) ==> final(store)@.contains_key(k) && final(store)@[k] == old(store)@[k],
        node_for(*item, node),
        match *item {
            MenuItem::Label(ref l) => node == WidgetNode::Label {
                text: l.label,
                height: l.height,
                font_size: l.font_size,
                color: l.color,
            } && final(store)@ == old(store)@,
            MenuItem::Spacer => node == WidgetNode::Spacer && final(store)@ == old(store)@,
            MenuItem::SubMenu(ref sm) => node == WidgetNode::SubMenu {
                label: sm.label,
                target: sm.menu,
                variant: sm.variant,
            } && final(store)@ == old(store)@,
            MenuItem::Button(ref b) => node == WidgetNode::Button {
                label: b.label,
                action: b.action,
            } && final(store)@ == old(store)@,
            MenuItem::Link(ref l) => node == WidgetNode::Link {
                label: l.label,
                url: l.url,
                icon: l.icon,
            } && final(store)@ == old(store)@,
            MenuItem::TextInput(ref t) => {
                let key = WidgetKey { screen, slot: *old(slot) };
                &&& final(store)@.contains_key(key)
                &&& (old(store)@.contains_key(key) ==> final(store)@ == old(store)@)
                &&& (!old(store)@.contains_key(key) ==> final(store)@ == old(store)@.insert(
                    key,
                    final(store)@[key],
                ) && (final(store)@[key] matches WidgetState::TextInput(st)
                    && seeded_text_state(*t, st)))
                &&& (match final(store)@[key] {
                    WidgetState::TextInput(st) => node == WidgetNode::TextInput {
                        key,
                        label: t.label,
                        value: st.value.0,
                        cursor: st.cursor.0,
                        cursor_visible: st.timer.visible,
                        valid: st.valid,
                        max_length: t.max_length,
                        name: t.name,
                    },
                    _ => true,
                })
            },
            MenuItem::Slider(ref s) => {
                let key = WidgetKey { screen, slot: *old(slot) };
                &&& final(store)@.contains_key(key)
                &&& (old(store)@.contains_key(key) ==> final(store)@ == old(store)@)
                &&& (!old(store)@.contains_key(key) ==> final(store)@ == old(store)@.insert(
                    key,
                    WidgetState::Slider(SliderValue(s.value)),
                ))
                &&& (match final(store)@[key] {
                    WidgetState::Slider(v) => node == WidgetNode::Slider {
                        key,
                        label: s.label,
                        value: v.0,
                        min: s.min,
                        max: s.max,
                        name: s.name,
                    },
                    _ => true,
                })
            },
            MenuItem::Row(ref r) => node matches WidgetNode::Row(children) && children@.len()
                == r.0@.len(),
            MenuItem::Dropdown(ref d) => node matches WidgetNode::Dropdown {
                label,
                options,
                selected,
            } && label == d.label && options@ == crate::trivia_source::source_values(d.source)
                && selected == d.selected && final(store)@ == old(store)@,
            MenuItem::MultiDropdown(ref m) => {
                let key = WidgetKey { screen, slot: *old(slot) };
                &&& final(store)@.contains_key(key)
                &&& (old(store)@.contains_key(key) ==> final(store)@ == old(store)@)
                &&& (!old(store)@.contains_key(key) ==> final(store)@ == old(store)@.insert(
                    key,
                    final(store)@[key],
                ) && (final(store)@[key] matches WidgetState::MultiSelection(sel) && sel.wf()
                    && (match m.options {
                    TriviaSource::OpenTdb(crate::trivia_source::OpenTdbSource::Categories(
                        crate::trivia_source::Categories::Done { ref selected, .. },
                    )) => forall|y: usize| sel.0@.contains(y) == selected@.contains(y),
                    _ => forall|y: usize| sel.0@.contains(y) == m.selected@.contains(y),
                })))
                &&& (match final(store)@[key] {
                    WidgetState::MultiSelection(sel) => node matches WidgetNode::MultiDropdown {
                        key: k2,
                        label,
                        options,
                        selected,
                        name,
                    } && k2 == key && label == m.label && options@
                        == crate::trivia_source::source_values(m.options) && selected@ == sel.0@
                        && name == m.name,
                    _ => true,
                })
            },
        },
    decreases *item,
{
    match item {
        MenuItem::Label(l) => WidgetNode::Label {
            text: l.label.clone(),
            height: l.height,
            font_size: l.font_size,
            color: clone_opt_string(&l.color),
        },
        MenuItem::Spacer => WidgetNode::Spacer,
        MenuItem::SubMenu(sm) => WidgetNode::SubMenu {
            label: sm.label.clone(),
            target: sm.menu,
            variant: sm.variant,
        },
        MenuItem::Button(b) => WidgetNode::Button { label: b.label.clone(), action: b.action },
        MenuItem::Link(l) => WidgetNode::Link {
            label: l.label.clone(),
            url: l.url.clone(),
            icon: clone_opt_string(&l.icon),
        },
        MenuItem::TextInput(t) => {
            let key = WidgetKey { screen, slot: *slot };
            *slot = *slot + 1;
            let seeded = TextInputState::new(t.default_value.as_str(), t.max_length, t.type_);
            store.get_or_init(key, WidgetState::TextInput(seeded));
            proof {
                assert forall|k: WidgetKey| old(store)@.contains_key(k) implies store@.contains_key(
                    k,
                ) && store@[k] == old(store)@[k] by {}
            }
            let node = match store.get(key) {
                Option::Some(WidgetState::TextInput(st)) => WidgetNode::TextInput {
                    key,
                    label: t.label.clone(),
                    value: st.value.0.clone(),
                    cursor: st.cursor.0,
                    cursor_visible: st.timer.visible,
                    valid: st.valid,
                    max_length: t.max_length,
                    name: t.name.clone(),
                },
                _ => WidgetNode::TextInput {
                    key,
                    label: t.label.clone(),
                    value: String::new(),
                    cursor: 0,
                    cursor_visible: true,
                    valid: true,
                    max_length: t.max_length,
                    name: t.name.clone(),
                },
            };
            node
        },
        MenuItem::Slider(s) => {
            let key = WidgetKey { screen, slot: *slot };
            *slot = *slot + 1;
            store.get_or_init(key, WidgetState::Slider(SliderValue(s.value)));
            proof {
                assert forall|k: WidgetKey| old(store)@.contains_key(k) implies store@.contains_key(
                    k,
                ) && store@[k] == old(store)@[k] by {}
            }
            match store.get(key) {
                Option::Some(WidgetState::Slider(v)) => WidgetNode::Slider {
                    key,
                    label: s.label.clone(),
                    value: v.0,
                    min: s.min,
                    max: s.max,
                    name: s.name.clone(),
                },
                _ => WidgetNode::Slider {
                    key,
                    label: s.label.clone(),
                    value: s.value,
                    min: s.min,
                    max: s.max,
                    name: s.name.clone(),
                },
            }
        },
        MenuItem::Row(r) => {
            let mut children: Vec<WidgetNode> = Vec::new();
            let mut i: usize = 0;
            let n = r.0.len();
            let ghost store0 = store@;
            proof {
                assert(r.0@.skip(0) =~= r.0@);
            }
            while i < n
                invariant
                    *item == MenuItem::Row(*r),
                    store.wf(),
                    i <= n,
                    n == r.0@.len(),
                    children@.len() == i,
                    forall|k: WidgetKey|
                        #[trigger] store0.contains_key(k) ==> store@.contains_key(k) && store@[k]
                            == store0[k],
                    forall|l: int|
                        0 <= l < i ==> node_for(#[trigger] r.0@[l], children@[l]),
                    item_size(*item) == items_size(r.0@),
                    *old(slot) + item_size(*item) <= u64::MAX,
                    *slot + items_size(r.0@.skip(i as int)) == *old(slot) + items_size(r.0@),
                decreases n - i,
            {
                proof {
                    broadcast use vstd::std_specs::vec::group_vec_axioms, vstd::seq::group_seq_axioms;
                    assert(decreases_to!(*item => r.0@[i as int]));
                    assert(r.0@.skip(i as int).drop_first() =~= r.0@.skip(i + 1));
                    assert(r.0@.skip(i as int)[0] == r.0@[i as int]);
                    assert(items_size(r.0@.skip(i as int)) == item_size(r.0@[i as int])
                        + items_size(r.0@.skip(i + 1)));
                }
                let ghost pre = store@;
                let node = render_item(&r.0[i], screen, slot, store);
                proof {
                    assert forall|k: WidgetKey| store0.contains_key(k) implies store@.contains_key(
                        k,
                    ) && store@[k] == store0[k] by {
                        assert(pre.contains_key(k) && pre[k] == store0[k]);
                    }
                }
                children.push(node);
                i += 1;
            }
            proof {
                assert(r.0@.skip(n as int) =~= Seq::<MenuItem>::empty());
            }
            WidgetNode::Row(children)
        },
        MenuItem::Dropdown(d) => WidgetNode::Dropdown {
            label: d.label.clone(),
            options: d.source.iter(),
            selected: d.selected,
        },
        MenuItem::MultiDropdown(m) => {
            let key = WidgetKey { screen, slot: *slot };
            *slot = *slot + 1;
            // The document's or source's index list may hold duplicates or
            // arbitrary order; the seeded state is its set, well-formed for
            // every later toggle.
            let initial = match m.options.get_selected() {
                Option::Some(sel) => MultiDropdownSelected::from_indices(&sel),
                Option::None => MultiDropdownSelected::from_indices(&m.selected),
            };
            store.get_or_init(key, WidgetState::MultiSelection(initial));
            proof {
                assert forall|k: WidgetKey| old(store)@.contains_key(k) implies store@.contains_key(
                    k,
                ) && store@[k] == old(store)@[k] by {}
            }
            match store.get(key) {
                Option::Some(WidgetState::MultiSelection(sel)) => WidgetNode::MultiDropdown {
                    key,
                    label: m.label.clone(),
                    options: m.options.iter(),
                    selected: crate::trivia_source::copy_indices(&sel.0),
                    name: m.name.clone(),
                },
                _ => WidgetNode::MultiDropdown {
                    key,
                    label: m.label.clone(),
                    options: m.options.iter(),
                    selected: Vec::new(),
                    name: m.name.clone(),
                },
            }
        },
    }
}

/// Renders a whole screen: every document item in order, then the implicit
/// trailing button — `Quit` on the root screen, `Back` everywhere else.
pub fn render(menu: &Menu, screen: WhichMenu, store: &mut WidgetStore) -> (nodes: Vec<WidgetNode>)
    requires
        old(store).wf(),
        items_size(menu.children@) <= u64::MAX,
    ensures
        final(store).wf(),
        forall|k: WidgetKey|
            #[trigger] old(store)@.contains_key(k) ==> final(store)@.contains_key(k) && final(store)@[k] == old(store)@[k],
        nodes@.len() == menu.children@.len() + 1,
        forall|i: int|
            0 <= i < menu.children@.len() ==> node_for(
                #[trigger] menu.children@[i],
                nodes@[i],
            ),
        nodes@.last() matches WidgetNode::Button { label, action } && (if menu.main_menu {
            label@ == "Quit"@ && action == MenuAction::Quit
        } else {
            label@ == "Back"@ && action == MenuAction::Back
        }),
{
    let mut slot: u64 = 0;
    let mut nodes: Vec<WidgetNode> = Vec::new();
    let mut i: usize = 0;
    let n = menu.children.len();
    let ghost store0 = store@;
    proof {
        assert(menu.children@.skip(0) =~= menu.children@);
    }
    while i < n
        invariant
            store.wf(),
            i <= n,
            n == menu.children@.len(),
            nodes@.len() == i,
            forall|k: WidgetKey|
                #[trigger] store0.contains_key(k) ==> store@.contains_key(k) && store@[k]
                    == store0[k],
            forall|l: int|
                0 <= l < i ==> node_for(#[trigger] menu.children@[l], nodes@[l]),
            slot + items_size(menu.children@.skip(i as int)) <= u64::MAX,
        decreases n - i,
    {
        proof {
            assert(menu.children@.skip(i as int).drop_first() =~= menu.children@.skip(i + 1));
            assert(menu.children@.skip(i as int)[0] == menu.children@[i as int]);
            assert(items_size(menu.children@.skip(i as int)) == item_size(
                menu.children@[i as int],
            ) + items_size(menu.children@.skip(i + 1)));
        }
        let ghost pre = store@;
        let node = render_item(&menu.children[i], screen, &mut slot, store);
        proof {
            assert forall|k: WidgetKey| store0.contains_key(k) implies store@.contains_key(k)
                && store@[k] == store0[k] by {
                assert(pre.contains_key(k) && pre[k] == store0[k]);
            }
        }
        nodes.push(node);
        i += 1;
    }
    let trailing = if menu.main_menu {
        WidgetNode::Button { label: label_string("Quit"), action: MenuAction::Quit }
    } else {
        WidgetNode::Button { label: label_string("Back"), action: MenuAction::Back }
    };
    nodes.push(trailing);
    nodes
}

/// An owned copy of a fixed label.
fn label_string(s: &str) -> (r: String)
    ensures
        r@ == s@,
{
    crate::codec::chars_to_string(crate::codec::string_chars(s))
}

/// The stored value holds a well-formed selection with exactly the
/// indices of `sel`.
pub open spec fn final_store_sel(w: WidgetState, sel: Seq<usize>) -> bool {
    w matches WidgetState::MultiSelection(s) && s.wf() && (forall|y: usize|
        s.0@.contains(y) == sel.contains(y))
}

/// The completion effect of a multiple-choice dropdown: once its source
/// reaches `Done`, the widget's selection is (re)seeded from the source's
/// own selection. On a source in any other state nothing happens.
pub fn seed_selection(source: &TriviaSource, key: WidgetKey, store: &mut WidgetStore)
    requires
        old(store).wf(),
    ensures
        final(store).wf(),
        match *source {
            TriviaSource::OpenTdb(crate::trivia_source::OpenTdbSource::Categories(
                crate::trivia_source::Categories::Done { ref selected, .. },
            )) => final(store)@ == old(store)@.insert(key, final(store)@[key]) && (final_store_sel(final(store)@[key], selected@)),
            _ => final(store)@ == old(store)@,
        },
{
    match source.get_selected() {
        Option::Some(sel) => {
            let norm = MultiDropdownSelected::from_indices(&sel);
            store.set(key, WidgetState::MultiSelection(norm));
        },
        Option::None => {
        },
    }
}

/// The completion effect is idempotent: running it again with an unchanged
/// source leaves the store exactly as the first run left it.
pub proof fn lemma_seed_idempotent(
    m: Map<WidgetKey, WidgetState>,
    key: WidgetKey,
    v: WidgetState,
)
    ensures
        m.insert(key, v).insert(key, v) == m.insert(key, v),
{
    assert(m.insert(key, v).insert(key, v) =~= m.insert(key, v));
}

/// Copies an optional string.
fn clone_opt_string(o: &Option<String>) -> (r: Option<String>)
    ensures
        r == *o,
{
    match o {
        Option::Some(s) => Option::Some(s.clone()),
        Option::None => Option::None,
    }
}

} // verus!
