//! Collecting the hosting form: named widget values are read out of the
//! rendered tree, and the submit gate checks that no text field is
//! invalid.
//!
//! Lookups are by the widget's declared name, searching the tree in
//! traversal order, rows depth-first; the first match wins.

use vstd::prelude::*;

use crate::render::WidgetNode;

verus! {

/// The name the lobby form gives its game-name field.
pub struct GameName(pub String);

/// The number of questions chosen on the lobby form.
pub struct NumQuestions(pub usize);

/// The chosen question-type names.
pub struct QuestionTypes(pub Vec<String>);

/// The chosen difficulty names.
pub struct QuestionDifficulty(pub Vec<String>);

/// The values collected from the lobby form when hosting begins.
pub struct FormValues {
    pub game_name: GameName,
    pub num_questions: NumQuestions,
    pub question_types: QuestionTypes,
    pub question_difficulty: QuestionDifficulty,
}

/// Some text input in the tree is invalid.
pub open spec fn any_invalid_in(nodes: Seq<WidgetNode>) -> bool
    decreases nodes,
{
    exists|i: int|
        0 <= i < nodes.len() && (match #[trigger] nodes[i] {
            WidgetNode::TextInput { valid, .. } => !valid,
            WidgetNode::Row(ref c) => any_invalid_in(c@),
            _ => false,
        })
}

/// The value of the first text input named `name`, in traversal order.
pub open spec fn first_text_value(nodes: Seq<WidgetNode>, name: Seq<char>) -> Option<String>
    decreases nodes,
{
    if nodes.len() == 0 {
        Option::None
    } else {
        let head = match nodes[0] {
            WidgetNode::TextInput { name: n, value, .. } => if n@ == name {
                Option::Some(value)
            } else {
                Option::None
            },
            WidgetNode::Row(c) => first_text_value(c@, name),
            _ => Option::None,
        };
        match head {
            Option::Some(v) => Option::Some(v),
            Option::None => first_text_value(nodes.drop_first(), name),
        }
    }
}

/// The committed value of the first slider named `name`.
pub open spec fn first_slider_value(nodes: Seq<WidgetNode>, name: Seq<char>) -> Option<usize>
    decreases nodes,
{
    if nodes.len() == 0 {
        Option::None
    } else {
        let head = match nodes[0] {
            WidgetNode::Slider { name: n, value, .. } => if n@ == name {
                Option::Some(value)
            } else {
                Option::None
            },
            WidgetNode::Row(c) => first_slider_value(c@, name),
            _ => Option::None,
        };
        match head {
            Option::Some(v) => Option::Some(v),
            Option::None => first_slider_value(nodes.drop_first(), name),
        }
    }
}

/// The options and selection of the first multiple-choice dropdown named
/// `name`.
pub open spec fn first_multi_dropdown(nodes: Seq<WidgetNode>, name: Seq<char>) -> Option<
    (Vec<String>, Vec<usize>),
>
    decreases nodes,
{
    if nodes.len() == 0 {
        Option::None
    } else {
        let head = match nodes[0] {
            WidgetNode::MultiDropdown { name: n, options, selected, .. } => if n@ == name {
                Option::Some((options, selected))
            } else {
                Option::None
            },
            WidgetNode::Row(c) => first_multi_dropdown(c@, name),
            _ => Option::None,
        };
        match head {
            Option::Some(v) => Option::Some(v),
            Option::None => first_multi_dropdown(nodes.drop_first(), name),
        }
    }
}

/// The option strings the selected indices pick out, in selection order;
/// an index outside the option list picks nothing.
pub open spec fn chosen_options(options: Seq<String>, selected: Seq<usize>) -> Seq<String>
    decreases selected.len(),
{
    if selected.len() == 0 {
        Seq::empty()
    } else if selected[0] < options.len() {
        seq![options[selected[0] as int]] + chosen_options(options, selected.drop_first())
    } else {
        chosen_options(options, selected.drop_first())
    }
}

/// Whether any text field of the tree is invalid; this is the submit gate
/// for hosting.
pub fn any_field_invalid(nodes: &Vec<WidgetNode>) -> (r: bool)
    ensures
        r == any_invalid_in(nodes@),
    decreases nodes@,
{
    let mut i: usize = 0;
    while i < nodes.len()
        invariant
            i <= nodes@.len(),
            forall|l: int|
                0 <= l < i ==> !(match #[trigger] nodes@[l] {
                    WidgetNode::TextInput { valid, .. } => !valid,
                    WidgetNode::Row(ref c) => any_invalid_in(c@),
                    _ => false,
                }),
        decreases nodes@.len() - i,
    {
        proof {
            broadcast use vstd::std_specs::vec::group_vec_axioms, vstd::seq::group_seq_axioms;

            assert(decreases_to!(nodes@ => nodes@[i as int]));
        }
        match &nodes[i] {
            WidgetNode::TextInput { valid, .. } => {
                if !*valid {
                    proof {
                        assert(any_invalid_in(nodes@));
                    }
                    return true;
                }
            },
            WidgetNode::Row(c) => {
                if any_field_invalid(c) {
                    proof {
                        assert(any_invalid_in(nodes@));
                    }
                    return true;
                }
            },
            _ => {},
        }
        i += 1;
    }
    proof {
        if any_invalid_in(nodes@) {
            let w = choose|w: int|
                0 <= w < nodes@.len() && (match #[trigger] nodes@[w] {
                    WidgetNode::TextInput { valid, .. } => !valid,
                    WidgetNode::Row(ref c) => any_invalid_in(c@),
                    _ => false,
                });
        }
    }
    false
}

/// Looks up the current value of the text input named `name`: exactly the
/// first match, or nothing when no text input in the tree bears the name.
pub fn find_text_value(nodes: &Vec<WidgetNode>, name: &str) -> (r: Option<String>)
    ensures
        r == first_text_value(nodes@, name@),
    decreases nodes@,
{
    let mut i: usize = 0;
    proof {
        assert(nodes@.skip(0) =~= nodes@);
    }
    while i < nodes.len()
        invariant
            i <= nodes@.len(),
            first_text_value(nodes@, name@) == first_text_value(nodes@.skip(i as int), name@),
        decreases nodes@.len() - i,
    {
        proof {
            broadcast use vstd::std_specs::vec::group_vec_axioms, vstd::seq::group_seq_axioms;

            assert(decreases_to!(nodes@ => nodes@[i as int]));
            assert(nodes@.skip(i as int)[0] == nodes@[i as int]);
            assert(nodes@.skip(i as int).drop_first() =~= nodes@.skip(i + 1));
        }
        match &nodes[i] {
            WidgetNode::TextInput { name: n, value, .. } => {
                if str_eq(n.as_str(), name) {
                    return Option::Some(value.clone());
                }
            },
            WidgetNode::Row(c) => {
                match find_text_value(c, name) {
                    Option::Some(v) => {
                        return Option::Some(v);
                    },
                    Option::None => {},
                }
            },
            _ => {},
        }
        i += 1;
    }
    proof {
        assert(nodes@.skip(nodes@.len() as int) =~= Seq::<WidgetNode>::empty());
    }
    Option::None
}

/// Looks up the committed value of the slider named `name`: exactly the
/// first match, or nothing when no slider in the tree bears the name.
pub fn find_slider_value(nodes: &Vec<WidgetNode>, name: &str) -> (r: Option<usize>)
    ensures
        r == first_slider_value(nodes@, name@),
    decreases nodes@,
{
    let mut i: usize = 0;
    proof {
        assert(nodes@.skip(0) =~= nodes@);
    }
    while i < nodes.len()
        invariant
            i <= nodes@.len(),
            first_slider_value(nodes@, name@) == first_slider_value(
                nodes@.skip(i as int),
                name@,
            ),
        decreases nodes@.len() - i,
    {
        proof {
            broadcast use vstd::std_specs::vec::group_vec_axioms, vstd::seq::group_seq_axioms;

            assert(decreases_to!(nodes@ => nodes@[i as int]));
            assert(nodes@.skip(i as int)[0] == nodes@[i as int]);
            assert(nodes@.skip(i as int).drop_first() =~= nodes@.skip(i + 1));
        }
        match &nodes[i] {
            WidgetNode::Slider { name: n, value, .. } => {
                if str_eq(n.as_str(), name) {
                    return Option::Some(*value);
                }
            },
            WidgetNode::Row(c) => {
                match find_slider_value(c, name) {
                    Option::Some(v) => {
                        return Option::Some(v);
                    },
                    Option::None => {},
                }
            },
            _ => {},
        }
        i += 1;
    }
    proof {
        assert(nodes@.skip(nodes@.len() as int) =~= Seq::<WidgetNode>::empty());
    }
    Option::None
}

/// Looks up the multiple-choice dropdown named `name` — the first match —
/// and maps its selected indices to their option strings, in selection
/// order; indices outside the option list are passed over. Nothing when no
/// such dropdown is in the tree.
pub fn find_selected_options(nodes: &Vec<WidgetNode>, name: &str) -> (r: Option<Vec<String>>)
    ensures
        match first_multi_dropdown(nodes@, name@) {
            Option::Some(p) => r matches Option::Some(v) && v@ == chosen_options(p.0@, p.1@),
            Option::None => r is None,
        },
    decreases nodes@,
{
    let mut i: usize = 0;
    proof {
        assert(nodes@.skip(0) =~= nodes@);
    }
    while i < nodes.len()
        invariant
            i <= nodes@.len(),
            first_multi_dropdown(nodes@, name@) == first_multi_dropdown(
                nodes@.skip(i as int),
                name@,
            ),
        decreases nodes@.len() - i,
    {
        proof {
            broadcast use vstd::std_specs::vec::group_vec_axioms, vstd::seq::group_seq_axioms;

            assert(decreases_to!(nodes@ => nodes@[i as int]));
            assert(nodes@.skip(i as int)[0] == nodes@[i as int]);
            assert(nodes@.skip(i as int).drop_first() =~= nodes@.skip(i + 1));
        }
        match &nodes[i] {
            WidgetNode::MultiDropdown { name: n, options, selected, .. } => {
                if str_eq(n.as_str(), name) {
                    let mut chosen: Vec<String> = Vec::new();
                    let mut k: usize = 0;
                    let m = selected.len();
                    proof {
                        assert(selected@.skip(0) =~= selected@);
                    }
                    while k < m
                        invariant
                            k <= m,
                            m == selected@.len(),
                            chosen_options(options@, selected@) =~= chosen@ + chosen_options(
                                options@,
                                selected@.skip(k as int),
                            ),
                        decreases m - k,
                    {
                        proof {
                            assert(selected@.skip(k as int)[0] == selected@[k as int]);
                            assert(selected@.skip(k as int).drop_first() =~= selected@.skip(
                                k + 1,
                            ));
                        }
                        let idx = selected[k];
                        if idx < options.len() {
                            let ghost c0 = chosen@;
                            chosen.push(options[idx].clone());
                            proof {
                                assert(chosen@ =~= c0 + seq![options@[idx as int]]);
                                assert(chosen@ + chosen_options(options@, selected@.skip(k + 1))
                                    =~= chosen_options(options@, selected@));
                            }
                        }
                        k += 1;
                    }
                    proof {
                        assert(selected@.skip(m as int) =~= Seq::<usize>::empty());
                        assert(chosen@ =~= chosen_options(options@, selected@));
                    }
                    return Option::Some(chosen);
                }
            },
            WidgetNode::Row(c) => {
                match find_selected_options(c, name) {
                    Option::Some(v) => {
                        return Option::Some(v);
                    },
                    Option::None => {},
                }
            },
            _ => {},
        }
        i += 1;
    }
    proof {
        assert(nodes@.skip(nodes@.len() as int) =~= Seq::<WidgetNode>::empty());
    }
    Option::None
}

/// Collects the hosting form out of the rendered tree: the first widgets
/// named "game_name" (text), "num_questions" (slider), "question_types"
/// and "difficulty" (multiple-choice dropdowns). The collection succeeds
/// exactly when all four are present, and then carries their values: the
/// text and slider values as they stand, and for each dropdown its
/// selected in-range indices mapped to their option strings, in order.
pub fn fetch_form_values(nodes: &Vec<WidgetNode>) -> (r: Option<FormValues>)
    ensures
        match r {
            Option::Some(v) => {
                &&& first_text_value(nodes@, "game_name"@) == Option::Some(v.game_name.0)
                &&& first_slider_value(nodes@, "num_questions"@) == Option::Some(
                    v.num_questions.0,
                )
                &&& (first_multi_dropdown(nodes@, "question_types"@) matches Option::Some(p)
                    && v.question_types.0@ == chosen_options(p.0@, p.1@))
                &&& (first_multi_dropdown(nodes@, "difficulty"@) matches Option::Some(p)
                    && v.question_difficulty.0@ == chosen_options(p.0@, p.1@))
            },
            Option::None => first_text_value(nodes@, "game_name"@) is None
                || first_slider_value(nodes@, "num_questions"@) is None || first_multi_dropdown(
                nodes@,
                "question_types"@,
            ) is None || first_multi_dropdown(nodes@, "difficulty"@) is None,
        },
{
    let game_name = match find_text_value(nodes, "game_name") {
        Option::Some(v) => v,
        Option::None => {
            return Option::None;
        },
    };
    let num_questions = match find_slider_value(nodes, "num_questions") {
        Option::Some(v) => v,
        Option::None => {
            return Option::None;
        },
    };
    let question_types = match find_selected_options(nodes, "question_types") {
        Option::Some(v) => v,
        Option::None => {
            return Option::None;
        },
    };
    let question_difficulty = match find_selected_options(nodes, "difficulty") {
        Option::Some(v) => v,
        Option::None => {
            return Option::None;
        },
    };
    Option::Some(
        FormValues {
            game_name: GameName(game_name),
            num_questions: NumQuestions(num_questions),
            question_types: QuestionTypes(question_types),
            question_difficulty: QuestionDifficulty(question_difficulty),
        },
    )
}

/// Whether two strings hold the same characters.
pub fn str_eq(a: &str, b: &str) -> (r: bool)
    ensures
        r == (a@ == b@),
{
    let na = a.unicode_len();
    let nb = b.unicode_len();
    if na != nb {
        return false;
    }
    let mut i: usize = 0;
    while i < na
        invariant
            i <= na,
            na == a@.len(),
            na == b@.len(),
            forall|l: int| 0 <= l < i ==> a@[l] == b@[l],
        decreases na - i,
    {
        if a.get_char(i) != b.get_char(i) {
            return false;
        }
        i += 1;
    }
    proof {
        assert(a@ =~= b@);
    }
    true
}

} // verus!
