//! Parsing inverts serialization: for every document value, parsing its
//! wire form yields the value back. The proof walks the grammar, one
//! production at a time, and ends in [`lemma_round_trip`].

use vstd::prelude::*;

use crate::codec::{
    kw_at, lemma_kw_distinct, lemma_kw_split, lemma_p_bool_ser, lemma_p_nat_ser, lemma_p_str_ser,
    lemma_ser_nat_shape, ser_nat, ser_str,
};
use crate::codec::parse::{
    p_action, p_button_tail, p_categories, p_doc, p_dropdown_tail, p_input_type, p_item,
    p_items_elems, p_label_tail, p_link_tail, p_menu, p_multi_dropdown_tail, p_nat_elems,
    p_opt_nat_field, p_opt_str_field, p_slider_tail, p_source, p_str_elems, p_submenu_tail,
    p_text_input_tail, p_variant, p_which_menu,
};
use crate::codec::ser::{
    ser_action, ser_categories, ser_input_type, ser_item, ser_items, ser_menu, ser_nat_list,
    ser_opt_nat_field, ser_opt_str_field, ser_source, ser_str_list, ser_variant, ser_which_menu,
};
use crate::document::{
    LabelView, MenuAction, MenuButtonVariant, MenuItemView, MenuView, TextInputType, WhichMenu,
};
use crate::trivia_source::{CategoriesView, TriviaSourceView};

verus! {

/// The first character of a keyword standing at `i` stands at `i`.
proof fn lemma_kw_first(s: Seq<char>, i: int, t: Seq<char>)
    requires
        kw_at(s, i, t),
        t.len() > 0,
    ensures
        i < s.len(),
        s[i] == t[0],
{
    assert(s.subrange(i, i + t.len())[0] == s[i]);
}

proof fn lemma_rt_which_menu(s: Seq<char>, i: int, w: WhichMenu)
    requires
        kw_at(s, i, ser_which_menu(w)),
    ensures
        p_which_menu(s, i) == Option::Some((w, i + ser_which_menu(w).len())),
{
    reveal_strlit("Main");
    reveal_strlit("JoinGame");
    reveal_strlit("HostGame");
    reveal_strlit("Settings");
    reveal_strlit("Credits");
    match w {
        WhichMenu::Main => {
        },
        WhichMenu::JoinGame => {
            lemma_kw_distinct(s, i, "JoinGame"@, "Main"@, 0);
        },
        WhichMenu::HostGame => {
            lemma_kw_distinct(s, i, "HostGame"@, "Main"@, 0);
            lemma_kw_distinct(s, i, "HostGame"@, "JoinGame"@, 0);
        },
        WhichMenu::Settings => {
            lemma_kw_distinct(s, i, "Settings"@, "Main"@, 0);
            lemma_kw_distinct(s, i, "Settings"@, "JoinGame"@, 0);
            lemma_kw_distinct(s, i, "Settings"@, "HostGame"@, 0);
        },
        WhichMenu::Credits => {
            lemma_kw_distinct(s, i, "Credits"@, "Main"@, 0);
            lemma_kw_distinct(s, i, "Credits"@, "JoinGame"@, 0);
            lemma_kw_distinct(s, i, "Credits"@, "HostGame"@, 0);
            lemma_kw_distinct(s, i, "Credits"@, "Settings"@, 0);
        },
    }
}

proof fn lemma_rt_action(s: Seq<char>, i: int, a: MenuAction)
    requires
        kw_at(s, i, ser_action(a)),
    ensures
        p_action(s, i) == Option::Some((a, i + ser_action(a).len())),
{
    reveal_strlit("Quit");
    reveal_strlit("Back");
    reveal_strlit("PlatformReload");
    reveal_strlit("HostLobby");
    match a {
        MenuAction::Quit => {
        },
        MenuAction::Back => {
            lemma_kw_distinct(s, i, "Back"@, "Quit"@, 0);
        },
        MenuAction::PlatformReload => {
            lemma_kw_distinct(s, i, "PlatformReload"@, "Quit"@, 0);
            lemma_kw_distinct(s, i, "PlatformReload"@, "Back"@, 0);
        },
        MenuAction::HostLobby => {
            lemma_kw_distinct(s, i, "HostLobby"@, "Quit"@, 0);
            lemma_kw_distinct(s, i, "HostLobby"@, "Back"@, 0);
            lemma_kw_distinct(s, i, "HostLobby"@, "PlatformReload"@, 0);
        },
    }
}

proof fn lemma_rt_variant(s: Seq<char>, i: int, v: MenuButtonVariant)
    requires
        kw_at(s, i, ser_variant(v)),
    ensures
        p_variant(s, i) == Option::Some((v, i + ser_variant(v).len())),
{
    reveal_strlit("Default");
    reveal_strlit("Primary");
    if v == MenuButtonVariant::Primary {
        lemma_kw_distinct(s, i, "Primary"@, "Default"@, 0);
    }
}

proof fn lemma_rt_input_type(s: Seq<char>, i: int, t: TextInputType)
    requires
        kw_at(s, i, ser_input_type(t)),
    ensures
        p_input_type(s, i) == Option::Some((t, i + ser_input_type(t).len())),
{
    reveal_strlit("Text");
    reveal_strlit("Integer");
    reveal_strlit("Float");
    match t {
        TextInputType::Text => {
        },
        TextInputType::Integer => {
            lemma_kw_distinct(s, i, "Integer"@, "Text"@, 0);
        },
        TextInputType::Float => {
            lemma_kw_distinct(s, i, "Float"@, "Text"@, 0);
            lemma_kw_distinct(s, i, "Float"@, "Integer"@, 0);
        },
    }
}

/// An optional numeric field parses back, provided that when it is absent
/// the name does not stand at `i` either.
proof fn lemma_rt_opt_nat_field(s: Seq<char>, i: int, name: Seq<char>, o: Option<usize>)
    requires
        kw_at(s, i, ser_opt_nat_field(name, o)),
        o is None ==> !kw_at(s, i, name),
    ensures
        p_opt_nat_field(s, i, name) == Option::Some(
            (o, i + ser_opt_nat_field(name, o).len()),
        ),
{
    match o {
        Option::Some(v) => {
            let num = ser_nat(v as nat);
            assert(name + num + seq![','] =~= name + (num + seq![',']));
            lemma_kw_split(s, i, name, num + seq![',']);
            lemma_kw_split(s, i + name.len(), num, seq![',']);
            lemma_kw_first(s, i + name.len() + num.len(), seq![',']);
            lemma_p_nat_ser(s, i + name.len(), v);
        },
        Option::None => {
        },
    }
}

/// An optional string field parses back, provided that when it is absent
/// the name does not stand at `i` either.
proof fn lemma_rt_opt_str_field(s: Seq<char>, i: int, name: Seq<char>, o: Option<Seq<char>>)
    requires
        kw_at(s, i, ser_opt_str_field(name, o)),
        o is None ==> !kw_at(s, i, name),
    ensures
        p_opt_str_field(s, i, name) == Option::Some(
            (o, i + ser_opt_str_field(name, o).len()),
        ),
{
    match o {
        Option::Some(v) => {
            let q = ser_str(v);
            assert(name + q + seq![','] =~= name + (q + seq![',']));
            lemma_kw_split(s, i, name, q + seq![',']);
            lemma_kw_split(s, i + name.len(), q, seq![',']);
            lemma_p_str_ser(s, i + name.len(), v);
        },
        Option::None => {
        },
    }
}

/// String list elements followed by the closing bracket parse back.
proof fn lemma_rt_str_elems(s: Seq<char>, i: int, l: Seq<Seq<char>>, acc: Seq<Seq<char>>)
    requires
        kw_at(s, i, ser_str_list(l) + seq![']']),
    ensures
        p_str_elems(s, i, acc) == Option::Some((acc + l, i + ser_str_list(l).len() + 1)),
    decreases l.len(),
{
    if l.len() == 0 {
        assert(ser_str_list(l) + seq![']'] =~= seq![']']);
        lemma_kw_first(s, i, seq![']']);
        assert(acc + l =~= acc);
    } else {
        let q = ser_str(l[0]);
        let rest = ser_str_list(l.drop_first());
        assert(ser_str_list(l) + seq![']'] =~= q + (seq![','] + (rest + seq![']'])));
        lemma_kw_split(s, i, q, seq![','] + (rest + seq![']']));
        lemma_kw_split(s, i + q.len(), seq![','], rest + seq![']']);
        lemma_kw_first(s, i, q);
        assert(q[0] == '"');
        lemma_kw_first(s, i + q.len(), seq![',']);
        lemma_p_str_ser(s, i, l[0]);
        lemma_rt_str_elems(s, i + q.len() + 1, l.drop_first(), acc.push(l[0]));
        assert(acc.push(l[0]) + l.drop_first() =~= acc + l);
    }
}

/// Number list elements followed by the closing bracket parse back.
proof fn lemma_rt_nat_elems(s: Seq<char>, i: int, l: Seq<usize>, acc: Seq<usize>)
    requires
        kw_at(s, i, ser_nat_list(l) + seq![']']),
    ensures
        p_nat_elems(s, i, acc) == Option::Some((acc + l, i + ser_nat_list(l).len() + 1)),
    decreases l.len(),
{
    if l.len() == 0 {
        assert(ser_nat_list(l) + seq![']'] =~= seq![']']);
        lemma_kw_first(s, i, seq![']']);
        assert(acc + l =~= acc);
    } else {
        let num = ser_nat(l[0] as nat);
        let rest = ser_nat_list(l.drop_first());
        assert(ser_nat_list(l) + seq![']'] =~= num + (seq![','] + (rest + seq![']'])));
        lemma_kw_split(s, i, num, seq![','] + (rest + seq![']']));
        lemma_kw_split(s, i + num.len(), seq![','], rest + seq![']']);
        lemma_ser_nat_shape(l[0] as nat);
        lemma_kw_first(s, i, num);
        lemma_kw_first(s, i + num.len(), seq![',']);
        lemma_p_nat_ser(s, i, l[0]);
        lemma_rt_nat_elems(s, i + num.len() + 1, l.drop_first(), acc.push(l[0]));
        assert(acc.push(l[0]) + l.drop_first() =~= acc + l);
    }
}

proof fn lemma_rt_categories(s: Seq<char>, i: int, c: CategoriesView)
    requires
        kw_at(s, i, ser_categories(c)),
    ensures
        p_categories(s, i) == Option::Some((c, i + ser_categories(c).len())),
{
    reveal_strlit("Todo");
    reveal_strlit("InProgress");
    reveal_strlit("Done(names:[");
    match c {
        CategoriesView::Todo => {
        },
        CategoriesView::InProgress => {
            lemma_kw_distinct(s, i, "InProgress"@, "Todo"@, 0);
        },
        CategoriesView::Done { names, ids, selected } => {
            reveal_strlit(",ids:[");
            reveal_strlit("],ids:[");
            reveal_strlit(",selected:[");
            reveal_strlit("],selected:[");
            reveal_strlit(",)");
            reveal_strlit("],)");
            let a = "Done(names:["@;
            let nl = ser_str_list(names);
            let il = ser_nat_list(ids);
            let sl = ser_nat_list(selected);
            let r3 = (sl + seq![']']) + ",)"@;
            let r2 = (il + seq![']']) + (",selected:["@ + r3);
            let r1 = (nl + seq![']']) + (",ids:["@ + r2);
            assert(ser_categories(c) =~= a + r1);
            lemma_kw_split(s, i, a, r1);
            lemma_kw_distinct(s, i, a, "Todo"@, 0);
            lemma_kw_distinct(s, i, a, "InProgress"@, 0);
            let j0 = i + a.len();
            lemma_kw_split(s, j0, nl + seq![']'], ",ids:["@ + r2);
            lemma_rt_str_elems(s, j0, names, Seq::empty());
            assert(Seq::empty() + names =~= names);
            let j1 = j0 + nl.len() + 1;
            lemma_kw_split(s, j1, ",ids:["@, r2);
            let j2 = j1 + ",ids:["@.len();
            lemma_kw_split(s, j2, il + seq![']'], ",selected:["@ + r3);
            lemma_rt_nat_elems(s, j2, ids, Seq::empty());
            assert(Seq::empty() + ids =~= ids);
            let j3 = j2 + il.len() + 1;
            lemma_kw_split(s, j3, ",selected:["@, r3);
            let j4 = j3 + ",selected:["@.len();
            lemma_kw_split(s, j4, sl + seq![']'], ",)"@);
            lemma_rt_nat_elems(s, j4, selected, Seq::empty());
            assert(Seq::empty() + selected =~= selected);
        },
    }
}

proof fn lemma_rt_source(s: Seq<char>, i: int, v: TriviaSourceView)
    requires
        kw_at(s, i, ser_source(v)),
    ensures
        p_source(s, i) == Option::Some((v, i + ser_source(v).len())),
{
    reveal_strlit("String([");
    reveal_strlit("OpenTdb(");
    reveal_strlit("TriviaApi");
    reveal_strlit("])");
    match v {
        TriviaSourceView::String(l) => {
            let a = "String(["@;
            let ll = ser_str_list(l);
            assert(ser_source(v) =~= a + ((ll + seq![']']) + seq![')']));
            lemma_kw_split(s, i, a, (ll + seq![']']) + seq![')']);
            let j0 = i + a.len();
            lemma_kw_split(s, j0, ll + seq![']'], seq![')']);
            lemma_rt_str_elems(s, j0, l, Seq::empty());
            assert(Seq::empty() + l =~= l);
        },
        TriviaSourceView::OpenTdb(c) => {
            let a = "OpenTdb("@;
            let cc = ser_categories(c);
            assert(ser_source(v) =~= a + (cc + seq![')']));
            lemma_kw_split(s, i, a, cc + seq![')']);
            lemma_kw_distinct(s, i, a, "String(["@, 0);
            let j0 = i + a.len();
            lemma_kw_split(s, j0, cc, seq![')']);
            lemma_rt_categories(s, j0, c);
        },
        TriviaSourceView::TriviaApi => {
            lemma_kw_distinct(s, i, "TriviaApi"@, "String(["@, 0);
            lemma_kw_distinct(s, i, "TriviaApi"@, "OpenTdb("@, 0);
        },
    }
}

/// The tail of a label item, after its opening keyword.
proof fn lemma_rt_label_tail(s: Seq<char>, i: int, l: LabelView)
    requires
        kw_at(
            s,
            i,
            ser_str(l.label) + seq![','] + ser_opt_nat_field("height:"@, l.height)
                + ser_opt_nat_field("font_size:"@, l.font_size) + ser_opt_str_field(
                "color:"@,
                l.color,
            ) + seq![')'],
        ),
    ensures
        p_label_tail(s, i) == Option::Some(
            (
                l,
                i + ser_str(l.label).len() + 1 + ser_opt_nat_field("height:"@, l.height).len()
                    + ser_opt_nat_field("font_size:"@, l.font_size).len() + ser_opt_str_field(
                    "color:"@,
                    l.color,
                ).len() + 1,
            ),
        ),
{
    reveal_strlit("height:");
    reveal_strlit("font_size:");
    reveal_strlit("color:");
    let q = ser_str(l.label);
    let oh = ser_opt_nat_field("height:"@, l.height);
    let of = ser_opt_nat_field("font_size:"@, l.font_size);
    let oc = ser_opt_str_field("color:"@, l.color);
    assert(q + seq![','] + oh + of + oc + seq![')'] =~= q + (seq![','] + (oh + (of + (oc
        + seq![')'])))));
    lemma_kw_split(s, i, q, seq![','] + (oh + (of + (oc + seq![')']))));
    lemma_p_str_ser(s, i, l.label);
    lemma_kw_split(s, i + q.len(), seq![','], oh + (of + (oc + seq![')'])));
    lemma_kw_first(s, i + q.len(), seq![',']);
    let j2 = i + q.len() + 1;
    lemma_kw_split(s, j2, oh, of + (oc + seq![')']));
    let j3 = j2 + oh.len();
    lemma_kw_split(s, j3, of, oc + seq![')']);
    let j4 = j3 + of.len();
    lemma_kw_split(s, j4, oc, seq![')']);
    let j5 = j4 + oc.len();
    lemma_kw_first(s, j5, seq![')']);
    if l.font_size is Some {
        let num = ser_nat(l.font_size->0 as nat);
        assert(of =~= "font_size:"@ + (num + seq![',']));
        lemma_kw_split(s, j3, "font_size:"@, num + seq![',']);
        lemma_kw_first(s, j3, "font_size:"@);
    }
    if l.color is Some {
        let q2 = ser_str(l.color->0);
        assert(oc =~= "color:"@ + (q2 + seq![',']));
        lemma_kw_split(s, j4, "color:"@, q2 + seq![',']);
        lemma_kw_first(s, j4, "color:"@);
    }
    if l.height is None {
        if l.font_size is Some {
            lemma_kw_distinct(s, j2, "font_size:"@, "height:"@, 0);
        } else if l.color is Some {
            lemma_kw_distinct(s, j2, "color:"@, "height:"@, 0);
        } else {
            lemma_kw_distinct(s, j2, seq![')'], "height:"@, 0);
        }
    }
    if l.font_size is None {
        if l.color is Some {
            lemma_kw_distinct(s, j3, "color:"@, "font_size:"@, 0);
        } else {
            lemma_kw_distinct(s, j3, seq![')'], "font_size:"@, 0);
        }
    }
    if l.color is None {
        lemma_kw_distinct(s, j4, seq![')'], "color:"@, 0);
    }
    lemma_rt_opt_nat_field(s, j2, "height:"@, l.height);
    lemma_rt_opt_nat_field(s, j3, "font_size:"@, l.font_size);
    lemma_rt_opt_str_field(s, j4, "color:"@, l.color);
    assert(p_label_tail(s, i) == Option::Some((l, j5 + 1)));
}

proof fn lemma_rt_submenu_tail(s: Seq<char>, i: int, v: MenuItemView)
    requires
        v is SubMenu,
        kw_at(
            s,
            i,
            ser_str(v->SubMenu_0.label) + ",menu:"@ + ser_which_menu(v->SubMenu_0.menu)
                + seq![','] + (if v->SubMenu_0.variant == MenuButtonVariant::Default {
                Seq::<char>::empty()
            } else {
                "variant:"@ + ser_variant(v->SubMenu_0.variant) + seq![',']
            }) + seq![')'],
        ),
    ensures
        p_submenu_tail(s, i) == Option::Some(
            (
                v,
                i + ser_str(v->SubMenu_0.label).len() + ",menu:"@.len() + ser_which_menu(
                    v->SubMenu_0.menu,
                ).len() + 1 + (if v->SubMenu_0.variant == MenuButtonVariant::Default {
                    0
                } else {
                    "variant:"@.len() + ser_variant(v->SubMenu_0.variant).len() + 1
                }) + 1,
            ),
        ),
{
    reveal_strlit(",menu:");
    reveal_strlit("variant:");
    reveal_strlit(",)");
    let sm = v->SubMenu_0;
    let q = ser_str(sm.label);
    let w = ser_which_menu(sm.menu);
    let va = if sm.variant == MenuButtonVariant::Default {
        Seq::<char>::empty()
    } else {
        "variant:"@ + ser_variant(sm.variant) + seq![',']
    };
    assert(q + ",menu:"@ + w + seq![','] + va + seq![')'] =~= q + (",menu:"@ + (w + (seq![','] + (
    va + seq![')'])))));
    lemma_kw_split(s, i, q, ",menu:"@ + (w + (seq![','] + (va + seq![')']))));
    lemma_p_str_ser(s, i, sm.label);
    let j1 = i + q.len();
    lemma_kw_split(s, j1, ",menu:"@, w + (seq![','] + (va + seq![')'])));
    let j2 = j1 + ",menu:"@.len();
    lemma_kw_split(s, j2, w, seq![','] + (va + seq![')']));
    lemma_rt_which_menu(s, j2, sm.menu);
    let j3 = j2 + w.len();
    lemma_kw_split(s, j3, seq![','], va + seq![')']);
    let j4 = j3 + 1;
    lemma_kw_split(s, j4, va, seq![')']);
    let j5 = j4 + va.len();
    lemma_kw_first(s, j5, seq![')']);
    if sm.variant == MenuButtonVariant::Default {
        lemma_kw_distinct(s, j4, seq![')'], "variant:"@, 0);
        assert(p_submenu_tail(s, i) == Option::Some((v, j5 + 1)));
    } else {
        let vv = ser_variant(sm.variant);
        assert(va + seq![')'] =~= "variant:"@ + (vv + ",)"@));
        lemma_kw_split(s, j4, "variant:"@, vv + ",)"@);
        let j6 = j4 + "variant:"@.len();
        lemma_kw_split(s, j6, vv, ",)"@);
        lemma_rt_variant(s, j6, sm.variant);
        assert(p_submenu_tail(s, i) == Option::Some((v, j6 + vv.len() + ",)"@.len())));
    }
}

proof fn lemma_rt_button_tail(s: Seq<char>, i: int, v: MenuItemView)
    requires
        v is Button,
        kw_at(
            s,
            i,
            ser_str(v->Button_0.label) + ",action:"@ + ser_action(v->Button_0.action) + ",)"@,
        ),
    ensures
        p_button_tail(s, i) == Option::Some(
            (
                v,
                i + ser_str(v->Button_0.label).len() + ",action:"@.len() + ser_action(
                    v->Button_0.action,
                ).len() + ",)"@.len(),
            ),
        ),
{
    let b = v->Button_0;
    let q = ser_str(b.label);
    let a = ser_action(b.action);
    assert(q + ",action:"@ + a + ",)"@ =~= q + (",action:"@ + (a + ",)"@)));
    lemma_kw_split(s, i, q, ",action:"@ + (a + ",)"@));
    lemma_p_str_ser(s, i, b.label);
    let j1 = i + q.len();
    lemma_kw_split(s, j1, ",action:"@, a + ",)"@);
    let j2 = j1 + ",action:"@.len();
    lemma_kw_split(s, j2, a, ",)"@);
    lemma_rt_action(s, j2, b.action);
}

proof fn lemma_rt_link_tail(s: Seq<char>, i: int, v: MenuItemView)
    requires
        v is Link,
        kw_at(
            s,
            i,
            ser_str(v->Link_0.label) + ",url:"@ + ser_str(v->Link_0.url) + seq![',']
                + ser_opt_str_field("icon:"@, v->Link_0.icon) + seq![')'],
        ),
    ensures
        p_link_tail(s, i) == Option::Some(
            (
                v,
                i + ser_str(v->Link_0.label).len() + ",url:"@.len() + ser_str(
                    v->Link_0.url,
                ).len() + 1 + ser_opt_str_field("icon:"@, v->Link_0.icon).len() + 1,
            ),
        ),
{
    reveal_strlit(",url:");
    reveal_strlit("icon:");
    let l = v->Link_0;
    let q = ser_str(l.label);
    let u = ser_str(l.url);
    let oi = ser_opt_str_field("icon:"@, l.icon);
    assert(q + ",url:"@ + u + seq![','] + oi + seq![')'] =~= q + (",url:"@ + (u + (seq![','] + (oi
        + seq![')'])))));
    lemma_kw_split(s, i, q, ",url:"@ + (u + (seq![','] + (oi + seq![')']))));
    lemma_p_str_ser(s, i, l.label);
    let j1 = i + q.len();
    lemma_kw_split(s, j1, ",url:"@, u + (seq![','] + (oi + seq![')'])));
    let j2 = j1 + ",url:"@.len();
    lemma_kw_split(s, j2, u, seq![','] + (oi + seq![')']));
    lemma_p_str_ser(s, j2, l.url);
    let j3 = j2 + u.len();
    lemma_kw_split(s, j3, seq![','], oi + seq![')']);
    let j4 = j3 + 1;
    lemma_kw_split(s, j4, oi, seq![')']);
    let j5 = j4 + oi.len();
    lemma_kw_first(s, j5, seq![')']);
    if l.icon is None {
        lemma_kw_distinct(s, j4, seq![')'], "icon:"@, 0);
    }
    lemma_rt_opt_str_field(s, j4, "icon:"@, l.icon);
}

proof fn lemma_rt_slider_tail(s: Seq<char>, i: int, v: MenuItemView)
    requires
        v is Slider,
        kw_at(
            s,
            i,
            ser_str(v->Slider_0.label) + ",value:"@ + ser_nat(v->Slider_0.value as nat)
                + ",min:"@ + ser_nat(v->Slider_0.min as nat) + ",max:"@ + ser_nat(
                v->Slider_0.max as nat,
            ) + ",name:"@ + ser_str(v->Slider_0.name) + ",)"@,
        ),
    ensures
        p_slider_tail(s, i) == Option::Some(
            (
                v,
                i + ser_str(v->Slider_0.label).len() + ",value:"@.len() + ser_nat(
                    v->Slider_0.value as nat,
                ).len() + ",min:"@.len() + ser_nat(v->Slider_0.min as nat).len() + ",max:"@.len()
                    + ser_nat(v->Slider_0.max as nat).len() + ",name:"@.len() + ser_str(
                    v->Slider_0.name,
                ).len() + ",)"@.len(),
            ),
        ),
{
    reveal_strlit(",value:");
    reveal_strlit(",min:");
    reveal_strlit(",max:");
    reveal_strlit(",name:");
    reveal_strlit(",)");
    let sl = v->Slider_0;
    let q = ser_str(sl.label);
    let n1 = ser_nat(sl.value as nat);
    let n2 = ser_nat(sl.min as nat);
    let n3 = ser_nat(sl.max as nat);
    let qn = ser_str(sl.name);
    assert(q + ",value:"@ + n1 + ",min:"@ + n2 + ",max:"@ + n3 + ",name:"@ + qn + ",)"@ =~= q + (
    ",value:"@ + (n1 + (",min:"@ + (n2 + (",max:"@ + (n3 + (",name:"@ + (qn + ",)"@)))))))));
    lemma_kw_split(s, i, q, ",value:"@ + (n1 + (",min:"@ + (n2 + (",max:"@ + (n3 + (",name:"@ + (qn
        + ",)"@))))))));
    lemma_p_str_ser(s, i, sl.label);
    let j1 = i + q.len();
    lemma_kw_split(s, j1, ",value:"@, n1 + (",min:"@ + (n2 + (",max:"@ + (n3 + (",name:"@ + (qn
        + ",)"@)))))));
    let j2 = j1 + ",value:"@.len();
    lemma_kw_split(s, j2, n1, ",min:"@ + (n2 + (",max:"@ + (n3 + (",name:"@ + (qn + ",)"@))))));
    let j3 = j2 + n1.len();
    lemma_kw_split(s, j3, ",min:"@, n2 + (",max:"@ + (n3 + (",name:"@ + (qn + ",)"@)))));
    lemma_kw_first(s, j3, ",min:"@);
    lemma_p_nat_ser(s, j2, sl.value);
    let j4 = j3 + ",min:"@.len();
    lemma_kw_split(s, j4, n2, ",max:"@ + (n3 + (",name:"@ + (qn + ",)"@))));
    let j5 = j4 + n2.len();
    lemma_kw_split(s, j5, ",max:"@, n3 + (",name:"@ + (qn + ",)"@)));
    lemma_kw_first(s, j5, ",max:"@);
    lemma_p_nat_ser(s, j4, sl.min);
    let j6 = j5 + ",max:"@.len();
    lemma_kw_split(s, j6, n3, ",name:"@ + (qn + ",)"@));
    let j7 = j6 + n3.len();
    lemma_kw_split(s, j7, ",name:"@, qn + ",)"@);
    lemma_kw_first(s, j7, ",name:"@);
    lemma_p_nat_ser(s, j6, sl.max);
    let j8 = j7 + ",name:"@.len();
    lemma_kw_split(s, j8, qn, ",)"@);
    lemma_p_str_ser(s, j8, sl.name);
}

proof fn lemma_rt_dropdown_tail(s: Seq<char>, i: int, v: MenuItemView)
    requires
        v is Dropdown,
        kw_at(
            s,
            i,
            ser_str(v->Dropdown_0.label) + ",source:"@ + ser_source(v->Dropdown_0.source)
                + seq![','] + ser_opt_nat_field("selected:"@, v->Dropdown_0.selected)
                + seq![')'],
        ),
    ensures
        p_dropdown_tail(s, i) == Option::Some(
            (
                v,
                i + ser_str(v->Dropdown_0.label).len() + ",source:"@.len() + ser_source(
                    v->Dropdown_0.source,
                ).len() + 1 + ser_opt_nat_field("selected:"@, v->Dropdown_0.selected).len() + 1,
            ),
        ),
{
    reveal_strlit(",source:");
    reveal_strlit("selected:");
    let d = v->Dropdown_0;
    let q = ser_str(d.label);
    let src = ser_source(d.source);
    let os = ser_opt_nat_field("selected:"@, d.selected);
    assert(q + ",source:"@ + src + seq![','] + os + seq![')'] =~= q + (",source:"@ + (src + (
    seq![','] + (os + seq![')'])))));
    lemma_kw_split(s, i, q, ",source:"@ + (src + (seq![','] + (os + seq![')']))));
    lemma_p_str_ser(s, i, d.label);
    let j1 = i + q.len();
    lemma_kw_split(s, j1, ",source:"@, src + (seq![','] + (os + seq![')'])));
    let j2 = j1 + ",source:"@.len();
    lemma_kw_split(s, j2, src, seq![','] + (os + seq![')']));
    lemma_rt_source(s, j2, d.source);
    let j3 = j2 + src.len();
    lemma_kw_split(s, j3, seq![','], os + seq![')']);
    let j4 = j3 + 1;
    lemma_kw_split(s, j4, os, seq![')']);
    let j5 = j4 + os.len();
    lemma_kw_first(s, j5, seq![')']);
    if d.selected is None {
        lemma_kw_distinct(s, j4, seq![')'], "selected:"@, 0);
    }
    lemma_rt_opt_nat_field(s, j4, "selected:"@, d.selected);
}

proof fn lemma_rt_multi_dropdown_tail(s: Seq<char>, i: int, v: MenuItemView)
    requires
        v is MultiDropdown,
        kw_at(
            s,
            i,
            ser_str(v->MultiDropdown_0.label) + ",options:"@ + ser_source(
                v->MultiDropdown_0.options,
            ) + ",selected:["@ + ser_nat_list(v->MultiDropdown_0.selected) + "],name:"@
                + ser_str(v->MultiDropdown_0.name) + ",)"@,
        ),
    ensures
        p_multi_dropdown_tail(s, i) == Option::Some(
            (
                v,
                i + ser_str(v->MultiDropdown_0.label).len() + ",options:"@.len() + ser_source(
                    v->MultiDropdown_0.options,
                ).len() + ",selected:["@.len() + ser_nat_list(v->MultiDropdown_0.selected).len()
                    + "],name:"@.len() + ser_str(v->MultiDropdown_0.name).len() + ",)"@.len(),
            ),
        ),
{
    reveal_strlit(",options:");
    reveal_strlit(",selected:[");
    reveal_strlit("],name:");
    reveal_strlit(",name:");
    reveal_strlit(",)");
    let m = v->MultiDropdown_0;
    let q = ser_str(m.label);
    let src = ser_source(m.options);
    let nl = ser_nat_list(m.selected);
    let qn = ser_str(m.name);
    assert("],name:"@ =~= seq![']'] + ",name:"@);
    assert(q + ",options:"@ + src + ",selected:["@ + nl + "],name:"@ + qn + ",)"@ =~= q + (
    ",options:"@ + (src + (",selected:["@ + ((nl + seq![']']) + (",name:"@ + (qn + ",)"@)))))));
    lemma_kw_split(s, i, q, ",options:"@ + (src + (",selected:["@ + ((nl + seq![']']) + (",name:"@
        + (qn + ",)"@))))));
    lemma_p_str_ser(s, i, m.label);
    let j1 = i + q.len();
    lemma_kw_split(s, j1, ",options:"@, src + (",selected:["@ + ((nl + seq![']']) + (",name:"@ + (qn
        + ",)"@)))));
    let j2 = j1 + ",options:"@.len();
    lemma_kw_split(s, j2, src, ",selected:["@ + ((nl + seq![']']) + (",name:"@ + (qn + ",)"@))));
    lemma_rt_source(s, j2, m.options);
    let j3 = j2 + src.len();
    lemma_kw_split(s, j3, ",selected:["@, (nl + seq![']']) + (",name:"@ + (qn + ",)"@)));
    let j4 = j3 + ",selected:["@.len();
    lemma_kw_split(s, j4, nl + seq![']'], ",name:"@ + (qn + ",)"@));
    lemma_rt_nat_elems(s, j4, m.selected, Seq::empty());
    assert(Seq::empty() + m.selected =~= m.selected);
    let j5 = j4 + nl.len() + 1;
    lemma_kw_split(s, j5, ",name:"@, qn + ",)"@);
    let j6 = j5 + ",name:"@.len();
    lemma_kw_split(s, j6, qn, ",)"@);
    lemma_p_str_ser(s, j6, m.name);
}

#[verifier::rlimit(100)]
#[verifier::spinoff_prover]
proof fn lemma_rt_text_input_tail(s: Seq<char>, i: int, v: MenuItemView)
    requires
        v is TextInput,
        kw_at(
            s,
            i,
            ser_str(v->TextInput_0.label) + seq![','] + (if v->TextInput_0.default_value.len()
                == 0 {
                Seq::<char>::empty()
            } else {
                "default_value:"@ + ser_str(v->TextInput_0.default_value) + seq![',']
            }) + ser_opt_nat_field("max_length:"@, v->TextInput_0.max_length) + "name:"@
                + ser_str(v->TextInput_0.name) + seq![','] + (if v->TextInput_0.type_
                == TextInputType::Text {
                Seq::<char>::empty()
            } else {
                "type:"@ + ser_input_type(v->TextInput_0.type_) + seq![',']
            }) + seq![')'],
        ),
    ensures
        p_text_input_tail(s, i) == Option::Some(
            (
                v,
                i + ser_str(v->TextInput_0.label).len() + 1 + (
                if v->TextInput_0.default_value.len() == 0 {
                    0
                } else {
                    "default_value:"@.len() + ser_str(v->TextInput_0.default_value).len() + 1
                }) + ser_opt_nat_field("max_length:"@, v->TextInput_0.max_length).len()
                    + "name:"@.len() + ser_str(v->TextInput_0.name).len() + 1 + (
                if v->TextInput_0.type_ == TextInputType::Text {
                    0
                } else {
                    "type:"@.len() + ser_input_type(v->TextInput_0.type_).len() + 1
                }) + 1,
            ),
        ),
{
    reveal_strlit("default_value:");
    reveal_strlit("max_length:");
    reveal_strlit("name:");
    reveal_strlit("type:");
    reveal_strlit(",)");
    let t = v->TextInput_0;
    let q = ser_str(t.label);
    let dv = if t.default_value.len() == 0 {
        Seq::<char>::empty()
    } else {
        "default_value:"@ + ser_str(t.default_value) + seq![',']
    };
    let ml = ser_opt_nat_field("max_length:"@, t.max_length);
    let qn = ser_str(t.name);
    let ty = if t.type_ == TextInputType::Text {
        Seq::<char>::empty()
    } else {
        "type:"@ + ser_input_type(t.type_) + seq![',']
    };
    assert(q + seq![','] + dv + ml + "name:"@ + qn + seq![','] + ty + seq![')'] =~= q + (seq![',']
        + (dv + (ml + ("name:"@ + (qn + (seq![','] + (ty + seq![')']))))))));
    lemma_kw_split(s, i, q, seq![','] + (dv + (ml + ("name:"@ + (qn + (seq![','] + (ty
        + seq![')'])))))));
    lemma_p_str_ser(s, i, t.label);
    lemma_kw_split(s, i + q.len(), seq![','], dv + (ml + ("name:"@ + (qn + (seq![','] + (ty
        + seq![')']))))));
    lemma_kw_first(s, i + q.len(), seq![',']);
    let j2 = i + q.len() + 1;
    lemma_kw_split(s, j2, dv, ml + ("name:"@ + (qn + (seq![','] + (ty + seq![')'])))));
    let j5 = j2 + dv.len();
    lemma_kw_split(s, j5, ml, "name:"@ + (qn + (seq![','] + (ty + seq![')']))));
    let j6 = j5 + ml.len();
    lemma_kw_split(s, j6, "name:"@, qn + (seq![','] + (ty + seq![')'])));
    lemma_kw_first(s, j6, "name:"@);
    let j7 = j6 + "name:"@.len();
    lemma_kw_split(s, j7, qn, seq![','] + (ty + seq![')']));
    lemma_p_str_ser(s, j7, t.name);
    let j8 = j7 + qn.len();
    lemma_kw_split(s, j8, seq![','], ty + seq![')']);
    lemma_kw_first(s, j8, seq![',']);
    let j9 = j8 + 1;
    lemma_kw_split(s, j9, ty, seq![')']);
    let j10 = j9 + ty.len();
    lemma_kw_first(s, j10, seq![')']);
    if t.max_length is Some {
        let num = ser_nat(t.max_length->0 as nat);
        assert(ml =~= "max_length:"@ + (num + seq![',']));
        lemma_kw_split(s, j5, "max_length:"@, num + seq![',']);
        lemma_kw_first(s, j5, "max_length:"@);
    }
    if t.default_value.len() == 0 {
        assert(t.default_value =~= Seq::<char>::empty());
        if t.max_length is Some {
            lemma_kw_distinct(s, j2, "max_length:"@, "default_value:"@, 0);
        } else {
            lemma_kw_distinct(s, j2, "name:"@, "default_value:"@, 0);
        }
    } else {
        let qd = ser_str(t.default_value);
        assert(dv =~= "default_value:"@ + (qd + seq![',']));
        lemma_kw_split(s, j2, "default_value:"@, qd + seq![',']);
        let jd = j2 + "default_value:"@.len();
        lemma_kw_split(s, jd, qd, seq![',']);
        lemma_p_str_ser(s, jd, t.default_value);
        lemma_kw_first(s, jd + qd.len(), seq![',']);
    }
    if t.max_length is None {
        lemma_kw_distinct(s, j5, "name:"@, "max_length:"@, 0);
    }
    lemma_rt_opt_nat_field(s, j5, "max_length:"@, t.max_length);
    if t.type_ == TextInputType::Text {
        lemma_kw_distinct(s, j9, seq![')'], "type:"@, 0);
    } else {
        let tv = ser_input_type(t.type_);
        assert(ty + seq![')'] =~= "type:"@ + (tv + ",)"@));
        lemma_kw_split(s, j9, "type:"@, tv + ",)"@);
        let jt = j9 + "type:"@.len();
        lemma_kw_split(s, jt, tv, ",)"@);
        lemma_rt_input_type(s, jt, t.type_);
    }
}

/// Every item's wire form begins with a letter, never with the bracket that
/// closes a list.
proof fn lemma_ser_item_head(it: MenuItemView)
    ensures
        ser_item(it).len() > 0,
        ser_item(it)[0] != ']',
{
    reveal_strlit("Label(label:");
    reveal_strlit("Spacer");
    reveal_strlit("SubMenu(label:");
    reveal_strlit("Button(label:");
    reveal_strlit("Link(label:");
    reveal_strlit("TextInput(label:");
    reveal_strlit("Slider(label:");
    reveal_strlit("Row([");
    reveal_strlit("Dropdown(label:");
    reveal_strlit("MultiDropdown(label:");
    match it {
        MenuItemView::Label(l) => {
            assert(ser_item(it)[0] == "Label(label:"@[0]);
        },
        MenuItemView::Spacer => {
        },
        MenuItemView::SubMenu(_) => {
            assert(ser_item(it)[0] == "SubMenu(label:"@[0]);
        },
        MenuItemView::Button(_) => {
            assert(ser_item(it)[0] == "Button(label:"@[0]);
        },
        MenuItemView::Link(_) => {
            assert(ser_item(it)[0] == "Link(label:"@[0]);
        },
        MenuItemView::TextInput(_) => {
            assert(ser_item(it)[0] == "TextInput(label:"@[0]);
        },
        MenuItemView::Slider(_) => {
            assert(ser_item(it)[0] == "Slider(label:"@[0]);
        },
        MenuItemView::Row(_) => {
            assert(ser_item(it)[0] == "Row(["@[0]);
        },
        MenuItemView::Dropdown(_) => {
            assert(ser_item(it)[0] == "Dropdown(label:"@[0]);
        },
        MenuItemView::MultiDropdown(_) => {
            assert(ser_item(it)[0] == "MultiDropdown(label:"@[0]);
        },
    }
}

/// One item parses back from its wire form.
#[verifier::spinoff_prover]
proof fn lemma_rt_item_label(s: Seq<char>, i: int, it: MenuItemView)
    requires
        it is Label,
        kw_at(s, i, ser_item(it)),
    ensures
        p_item(s, i) == Option::Some((it, i + ser_item(it).len())),
{
    reveal_strlit("Label(label:");
    let l = it->Label_0;
    let a = "Label(label:"@;
    let tail = ser_str(l.label) + seq![','] + ser_opt_nat_field("height:"@, l.height)
        + ser_opt_nat_field("font_size:"@, l.font_size) + ser_opt_str_field("color:"@, l.color)
        + seq![')'];
    assert(ser_item(it) =~= a + tail);
    lemma_kw_split(s, i, a, tail);
    lemma_rt_label_tail(s, i + a.len(), l);
}

#[verifier::spinoff_prover]
proof fn lemma_rt_item_submenu(s: Seq<char>, i: int, it: MenuItemView)
    requires
        it is SubMenu,
        kw_at(s, i, ser_item(it)),
    ensures
        p_item(s, i) == Option::Some((it, i + ser_item(it).len())),
{
    reveal_strlit("Label(label:");
    reveal_strlit("Spacer");
    reveal_strlit("SubMenu(label:");
    let sm = it->SubMenu_0;
    let a = "SubMenu(label:"@;
    let tail = ser_str(sm.label) + ",menu:"@ + ser_which_menu(sm.menu) + seq![','] + (
    if sm.variant == MenuButtonVariant::Default {
        Seq::<char>::empty()
    } else {
        "variant:"@ + ser_variant(sm.variant) + seq![',']
    }) + seq![')'];
    assert(ser_item(it) =~= a + tail);
    lemma_kw_split(s, i, a, tail);
    lemma_kw_distinct(s, i, a, "Label(label:"@, 0);
    lemma_kw_distinct(s, i, a, "Spacer"@, 1);
    lemma_rt_submenu_tail(s, i + a.len(), it);
}

#[verifier::spinoff_prover]
proof fn lemma_rt_item_button(s: Seq<char>, i: int, it: MenuItemView)
    requires
        it is Button,
        kw_at(s, i, ser_item(it)),
    ensures
        p_item(s, i) == Option::Some((it, i + ser_item(it).len())),
{
    reveal_strlit("Label(label:");
    reveal_strlit("Spacer");
    reveal_strlit("SubMenu(label:");
    reveal_strlit("Button(label:");
    let b = it->Button_0;
    let a = "Button(label:"@;
    let tail = ser_str(b.label) + ",action:"@ + ser_action(b.action) + ",)"@;
    assert(ser_item(it) =~= a + tail);
    lemma_kw_split(s, i, a, tail);
    lemma_kw_distinct(s, i, a, "Label(label:"@, 0);
    lemma_kw_distinct(s, i, a, "Spacer"@, 0);
    lemma_kw_distinct(s, i, a, "SubMenu(label:"@, 0);
    lemma_rt_button_tail(s, i + a.len(), it);
}

#[verifier::spinoff_prover]
proof fn lemma_rt_item_link(s: Seq<char>, i: int, it: MenuItemView)
    requires
        it is Link,
        kw_at(s, i, ser_item(it)),
    ensures
        p_item(s, i) == Option::Some((it, i + ser_item(it).len())),
{
    reveal_strlit("Label(label:");
    reveal_strlit("Spacer");
    reveal_strlit("SubMenu(label:");
    reveal_strlit("Button(label:");
    reveal_strlit("Link(label:");
    let l = it->Link_0;
    let a = "Link(label:"@;
    let tail = ser_str(l.label) + ",url:"@ + ser_str(l.url) + seq![','] + ser_opt_str_field(
        "icon:"@,
        l.icon,
    ) + seq![')'];
    assert(ser_item(it) =~= a + tail);
    lemma_kw_split(s, i, a, tail);
    lemma_kw_distinct(s, i, a, "Label(label:"@, 1);
    lemma_kw_distinct(s, i, a, "Spacer"@, 0);
    lemma_kw_distinct(s, i, a, "SubMenu(label:"@, 0);
    lemma_kw_distinct(s, i, a, "Button(label:"@, 0);
    lemma_rt_link_tail(s, i + a.len(), it);
}

#[verifier::spinoff_prover]
proof fn lemma_rt_item_text_input(s: Seq<char>, i: int, it: MenuItemView)
    requires
        it is TextInput,
        kw_at(s, i, ser_item(it)),
    ensures
        p_item(s, i) == Option::Some((it, i + ser_item(it).len())),
{
    reveal_strlit("Label(label:");
    reveal_strlit("Spacer");
    reveal_strlit("SubMenu(label:");
    reveal_strlit("Button(label:");
    reveal_strlit("Link(label:");
    reveal_strlit("TextInput(label:");
    let t = it->TextInput_0;
    let a = "TextInput(label:"@;
    let tail = ser_str(t.label) + seq![','] + (if t.default_value.len() == 0 {
        Seq::<char>::empty()
    } else {
        "default_value:"@ + ser_str(t.default_value) + seq![',']
    }) + ser_opt_nat_field("max_length:"@, t.max_length) + "name:"@ + ser_str(t.name)
        + seq![','] + (if t.type_ == TextInputType::Text {
        Seq::<char>::empty()
    } else {
        "type:"@ + ser_input_type(t.type_) + seq![',']
    }) + seq![')'];
    assert(ser_item(it) =~= a + tail);
    lemma_kw_split(s, i, a, tail);
    lemma_kw_distinct(s, i, a, "Label(label:"@, 0);
    lemma_kw_distinct(s, i, a, "Spacer"@, 0);
    lemma_kw_distinct(s, i, a, "SubMenu(label:"@, 0);
    lemma_kw_distinct(s, i, a, "Button(label:"@, 0);
    lemma_kw_distinct(s, i, a, "Link(label:"@, 0);
    lemma_rt_text_input_tail(s, i + a.len(), it);
}

#[verifier::spinoff_prover]
proof fn lemma_rt_item_slider(s: Seq<char>, i: int, it: MenuItemView)
    requires
        it is Slider,
        kw_at(s, i, ser_item(it)),
    ensures
        p_item(s, i) == Option::Some((it, i + ser_item(it).len())),
{
    reveal_strlit("Label(label:");
    reveal_strlit("Spacer");
    reveal_strlit("SubMenu(label:");
    reveal_strlit("Button(label:");
    reveal_strlit("Link(label:");
    reveal_strlit("TextInput(label:");
    reveal_strlit("Slider(label:");
    let sl = it->Slider_0;
    let a = "Slider(label:"@;
    let tail = ser_str(sl.label) + ",value:"@ + ser_nat(sl.value as nat) + ",min:"@ + ser_nat(
        sl.min as nat,
    ) + ",max:"@ + ser_nat(sl.max as nat) + ",name:"@ + ser_str(sl.name) + ",)"@;
    assert(ser_item(it) =~= a + tail);
    lemma_kw_split(s, i, a, tail);
    lemma_kw_distinct(s, i, a, "Label(label:"@, 0);
    lemma_kw_distinct(s, i, a, "Spacer"@, 1);
    lemma_kw_distinct(s, i, a, "SubMenu(label:"@, 1);
    lemma_kw_distinct(s, i, a, "Button(label:"@, 0);
    lemma_kw_distinct(s, i, a, "Link(label:"@, 0);
    lemma_kw_distinct(s, i, a, "TextInput(label:"@, 0);
    lemma_rt_slider_tail(s, i + a.len(), it);
}

#[verifier::spinoff_prover]
proof fn lemma_rt_item_dropdown(s: Seq<char>, i: int, it: MenuItemView)
    requires
        it is Dropdown,
        kw_at(s, i, ser_item(it)),
    ensures
        p_item(s, i) == Option::Some((it, i + ser_item(it).len())),
{
    reveal_strlit("Label(label:");
    reveal_strlit("Spacer");
    reveal_strlit("SubMenu(label:");
    reveal_strlit("Button(label:");
    reveal_strlit("Link(label:");
    reveal_strlit("TextInput(label:");
    reveal_strlit("Slider(label:");
    reveal_strlit("Row([");
    reveal_strlit("Dropdown(label:");
    let d = it->Dropdown_0;
    let a = "Dropdown(label:"@;
    let tail = ser_str(d.label) + ",source:"@ + ser_source(d.source) + seq![',']
        + ser_opt_nat_field("selected:"@, d.selected) + seq![')'];
    assert(ser_item(it) =~= a + tail);
    lemma_kw_split(s, i, a, tail);
    lemma_kw_distinct(s, i, a, "Label(label:"@, 0);
    lemma_kw_distinct(s, i, a, "Spacer"@, 0);
    lemma_kw_distinct(s, i, a, "SubMenu(label:"@, 0);
    lemma_kw_distinct(s, i, a, "Button(label:"@, 0);
    lemma_kw_distinct(s, i, a, "Link(label:"@, 0);
    lemma_kw_distinct(s, i, a, "TextInput(label:"@, 0);
    lemma_kw_distinct(s, i, a, "Slider(label:"@, 0);
    lemma_kw_distinct(s, i, a, "Row(["@, 0);
    lemma_rt_dropdown_tail(s, i + a.len(), it);
}

#[verifier::spinoff_prover]
proof fn lemma_rt_item_multi_dropdown(s: Seq<char>, i: int, it: MenuItemView)
    requires
        it is MultiDropdown,
        kw_at(s, i, ser_item(it)),
    ensures
        p_item(s, i) == Option::Some((it, i + ser_item(it).len())),
{
    reveal_strlit("Label(label:");
    reveal_strlit("Spacer");
    reveal_strlit("SubMenu(label:");
    reveal_strlit("Button(label:");
    reveal_strlit("Link(label:");
    reveal_strlit("TextInput(label:");
    reveal_strlit("Slider(label:");
    reveal_strlit("Row([");
    reveal_strlit("Dropdown(label:");
    reveal_strlit("MultiDropdown(label:");
    let m = it->MultiDropdown_0;
    let a = "MultiDropdown(label:"@;
    let tail = ser_str(m.label) + ",options:"@ + ser_source(m.options) + ",selected:["@
        + ser_nat_list(m.selected) + "],name:"@ + ser_str(m.name) + ",)"@;
    assert(ser_item(it) =~= a + tail);
    lemma_kw_split(s, i, a, tail);
    lemma_kw_distinct(s, i, a, "Label(label:"@, 0);
    lemma_kw_distinct(s, i, a, "Spacer"@, 0);
    lemma_kw_distinct(s, i, a, "SubMenu(label:"@, 0);
    lemma_kw_distinct(s, i, a, "Button(label:"@, 0);
    lemma_kw_distinct(s, i, a, "Link(label:"@, 0);
    lemma_kw_distinct(s, i, a, "TextInput(label:"@, 0);
    lemma_kw_distinct(s, i, a, "Slider(label:"@, 0);
    lemma_kw_distinct(s, i, a, "Row(["@, 0);
    lemma_kw_distinct(s, i, a, "Dropdown(label:"@, 0);
    lemma_rt_multi_dropdown_tail(s, i + a.len(), it);
}

/// One item parses back from its wire form, whatever its variant.
proof fn lemma_rt_item(s: Seq<char>, i: int, it: MenuItemView)
    requires
        kw_at(s, i, ser_item(it)),
    ensures
        p_item(s, i) == Option::Some((it, i + ser_item(it).len())),
    decreases it,
{
    match it {
        MenuItemView::Label(_) => lemma_rt_item_label(s, i, it),
        MenuItemView::Spacer => {
            reveal_strlit("Label(label:");
            reveal_strlit("Spacer");
            lemma_kw_distinct(s, i, "Spacer"@, "Label(label:"@, 0);
        },
        MenuItemView::SubMenu(_) => lemma_rt_item_submenu(s, i, it),
        MenuItemView::Button(_) => lemma_rt_item_button(s, i, it),
        MenuItemView::Link(_) => lemma_rt_item_link(s, i, it),
        MenuItemView::TextInput(_) => lemma_rt_item_text_input(s, i, it),
        MenuItemView::Slider(_) => lemma_rt_item_slider(s, i, it),
        MenuItemView::Row(items) => {
            reveal_strlit("Label(label:");
            reveal_strlit("Spacer");
            reveal_strlit("SubMenu(label:");
            reveal_strlit("Button(label:");
            reveal_strlit("Link(label:");
            reveal_strlit("TextInput(label:");
            reveal_strlit("Slider(label:");
            reveal_strlit("Row([");
            reveal_strlit("])");
            let a = "Row(["@;
            let il = ser_items(items);
            assert(ser_item(it) =~= a + ((il + seq![']']) + seq![')']));
            lemma_kw_split(s, i, a, (il + seq![']']) + seq![')']);
            lemma_kw_distinct(s, i, a, "Label(label:"@, 0);
            lemma_kw_distinct(s, i, a, "Spacer"@, 0);
            lemma_kw_distinct(s, i, a, "SubMenu(label:"@, 0);
            lemma_kw_distinct(s, i, a, "Button(label:"@, 0);
            lemma_kw_distinct(s, i, a, "Link(label:"@, 0);
            lemma_kw_distinct(s, i, a, "TextInput(label:"@, 0);
            lemma_kw_distinct(s, i, a, "Slider(label:"@, 0);
            let j0 = i + a.len();
            lemma_kw_split(s, j0, il + seq![']'], seq![')']);
            lemma_rt_items(s, j0, items, Seq::empty());
            assert(Seq::empty() + items =~= items);
        },
        MenuItemView::Dropdown(_) => lemma_rt_item_dropdown(s, i, it),
        MenuItemView::MultiDropdown(_) => lemma_rt_item_multi_dropdown(s, i, it),
    }
}

/// Item list elements parse back from their wire form.
proof fn lemma_rt_items(s: Seq<char>, i: int, items: Seq<MenuItemView>, acc: Seq<MenuItemView>)
    requires
        kw_at(s, i, ser_items(items) + seq![']']),
    ensures
        p_items_elems(s, i, acc) == Option::Some((acc + items, i + ser_items(items).len() + 1)),
    decreases items,
{
    if items.len() == 0 {
        assert(ser_items(items) + seq![']'] =~= seq![']']);
        lemma_kw_first(s, i, seq![']']);
        assert(acc + items =~= acc);
    } else {
        let it = items[0];
        let q = ser_item(it);
        let rest = ser_items(items.drop_first());
        assert(ser_items(items) + seq![']'] =~= q + (seq![','] + (rest + seq![']'])));
        lemma_kw_split(s, i, q, seq![','] + (rest + seq![']']));
        lemma_kw_split(s, i + q.len(), seq![','], rest + seq![']']);
        lemma_ser_item_head(it);
        lemma_kw_first(s, i, q);
        lemma_kw_first(s, i + q.len(), seq![',']);
        lemma_rt_item(s, i, it);
        lemma_rt_items(s, i + q.len() + 1, items.drop_first(), acc.push(it));
        assert(acc.push(it) + items.drop_first() =~= acc + items);
    }
}

/// A whole document parses back from its wire form.
proof fn lemma_rt_menu(s: Seq<char>, i: int, m: MenuView)
    requires
        kw_at(s, i, ser_menu(m)),
    ensures
        p_menu(s, i) == Option::Some((m, i + ser_menu(m).len())),
{
    reveal_strlit("Menu(title:");
    reveal_strlit("main_menu:");
    reveal_strlit("main_menu:true,");
    reveal_strlit("true");
    reveal_strlit("children:[");
    reveal_strlit("],)");
    reveal_strlit(",)");
    let q = ser_str(m.title);
    let mm = if m.main_menu {
        "main_menu:true,"@
    } else {
        Seq::<char>::empty()
    };
    let il = ser_items(m.children);
    assert("],)"@ =~= seq![']'] + ",)"@);
    assert(ser_menu(m) =~= "Menu(title:"@ + (q + (seq![','] + (mm + ("children:["@ + ((il
        + seq![']']) + ",)"@))))));
    lemma_kw_split(s, i, "Menu(title:"@, q + (seq![','] + (mm + ("children:["@ + ((il + seq![']'])
        + ",)"@)))));
    let j1 = i + "Menu(title:"@.len();
    lemma_kw_split(s, j1, q, seq![','] + (mm + ("children:["@ + ((il + seq![']']) + ",)"@))));
    lemma_p_str_ser(s, j1, m.title);
    let j2 = j1 + q.len();
    lemma_kw_split(s, j2, seq![','], mm + ("children:["@ + ((il + seq![']']) + ",)"@)));
    lemma_kw_first(s, j2, seq![',']);
    let j3 = j2 + 1;
    lemma_kw_split(s, j3, mm, "children:["@ + ((il + seq![']']) + ",)"@));
    let j6 = j3 + mm.len();
    lemma_kw_split(s, j6, "children:["@, (il + seq![']']) + ",)"@);
    lemma_kw_first(s, j6, "children:["@);
    if m.main_menu {
        assert(mm =~= "main_menu:"@ + ("true"@ + seq![',']));
        lemma_kw_split(s, j3, "main_menu:"@, "true"@ + seq![',']);
        let jb = j3 + "main_menu:"@.len();
        lemma_kw_split(s, jb, "true"@, seq![',']);
        lemma_p_bool_ser(s, jb, true);
        lemma_kw_first(s, jb + "true"@.len(), seq![',']);
    } else {
        lemma_kw_distinct(s, j3, "children:["@, "main_menu:"@, 0);
    }
    let j7 = j6 + "children:["@.len();
    lemma_kw_split(s, j7, il + seq![']'], ",)"@);
    lemma_rt_items(s, j7, m.children, Seq::empty());
    assert(Seq::empty() + m.children =~= m.children);
}

/// Serialization round-trip: for every menu document, parsing its wire
/// form yields the document back, so `deserialize` inverts `serialize` on
/// every value of every item variant.
pub proof fn lemma_round_trip(m: MenuView)
    ensures
        p_doc(ser_menu(m)) == Option::Some(m),
{
    let s = ser_menu(m);
    assert(s.subrange(0, s.len() as int) =~= s);
    lemma_rt_menu(s, 0, m);
}

} // verus!
