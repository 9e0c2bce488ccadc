//! Data sources for the dropdown widgets: a fixed list of strings, or a
//! remote category catalogue fetched once through an asynchronous request.
//!
//! The remote source steps through the fetch states `Todo` (nothing issued),
//! `InProgress` (exactly one request outstanding) and `Done` (the response
//! has been folded into a bidirectional name/id table plus a selection set).

use vstd::prelude::*;
use vstd::multiset::Multiset;

verus! {

/// One category of the remote provider's response payload.
#[derive(Clone, Debug, PartialEq)]
pub struct Category {
    pub id: usize,
    pub name: String,
}

/// The typed payload of the category-list response.
#[derive(Clone, Debug, PartialEq)]
pub struct CategoriesResponse {
    pub trivia_categories: Vec<Category>,
}

/// All responses the remote provider can send back.
#[derive(Clone, Debug, PartialEq)]
pub enum OpenTdbResponse {
    Categories(CategoriesResponse),
}

/// The fetch state machine of the remote category catalogue.
///
/// In `Done`, `names` and `ids` run in parallel: `ids[i]` is the provider's
/// id for `names[i]`, so the pair of columns is a bidirectional map.
/// `selected` holds indices into `names`, strictly increasing.
#[derive(Clone, Debug, PartialEq)]
pub enum Categories {
    /// No request has been issued yet.
    Todo,
    /// Exactly one request is outstanding.
    InProgress,
    /// The response has arrived and been folded into the table.
    Done { names: Vec<String>, ids: Vec<usize>, selected: Vec<usize> },
}

/// A source backed by the OpenTDB-style category endpoint.
#[derive(Clone, Debug, PartialEq)]
pub enum OpenTdbSource {
    Categories(Categories),
}

/// A fixed, ordered list of option strings.
#[derive(Clone, Debug, PartialEq)]
pub struct StringSource(pub Vec<String>);

/// A placeholder source for a provider that is not wired up yet; it always
/// yields no options.
#[derive(Clone, Copy, Debug, PartialEq, Eq, Structural)]
pub struct TriviaApiSource;

/// A polymorphic option source owned by one dropdown item.
#[derive(Clone, Debug, PartialEq)]
pub enum TriviaSource {
    String(StringSource),
    OpenTdb(OpenTdbSource),
    TriviaApi(TriviaApiSource),
}

/// Events a source can raise towards the surrounding application.
#[derive(Clone, Copy, Debug, PartialEq, Eq, Structural)]
pub enum SourceEvent {
    Categories,
}

// ------------------------------------------------------------------
// Mathematical views
// ------------------------------------------------------------------

pub ghost struct CategoryView {
    pub id: usize,
    pub name: Seq<char>,
}

pub ghost enum CategoriesView {
    Todo,
    InProgress,
    Done { names: Seq<Seq<char>>, ids: Seq<usize>, selected: Seq<usize> },
}

pub ghost enum TriviaSourceView {
    String(Seq<Seq<char>>),
    OpenTdb(CategoriesView),
    TriviaApi,
}

impl View for Category {
    type V = CategoryView;

    open spec fn view(&self) -> CategoryView {
        CategoryView { id: self.id, name: self.name@ }
    }
}

impl DeepView for Category {
    type V = CategoryView;

    open spec fn deep_view(&self) -> CategoryView {
        self@
    }
}

impl View for CategoriesResponse {
    type V = Seq<CategoryView>;

    open spec fn view(&self) -> Seq<CategoryView> {
        self.trivia_categories.deep_view()
    }
}

impl View for Categories {
    type V = CategoriesView;

    open spec fn view(&self) -> CategoriesView {
        match self {
            Categories::Todo => CategoriesView::Todo,
            Categories::InProgress => CategoriesView::InProgress,
            Categories::Done { names, ids, selected } => CategoriesView::Done {
                names: names.deep_view(),
                ids: ids@,
                selected: selected@,
            },
        }
    }
}

impl View for TriviaSource {
    type V = TriviaSourceView;

    open spec fn view(&self) -> TriviaSourceView {
        match self {
            TriviaSource::String(s) => TriviaSourceView::String(s.0.deep_view()),
            TriviaSource::OpenTdb(o) => match o {
                OpenTdbSource::Categories(c) => TriviaSourceView::OpenTdb(c@),
            },
            TriviaSource::TriviaApi(_) => TriviaSourceView::TriviaApi,
        }
    }
}

impl DeepView for Categories {
    type V = CategoriesView;

    open spec fn deep_view(&self) -> CategoriesView {
        self@
    }
}

impl DeepView for TriviaSource {
    type V = TriviaSourceView;

    open spec fn deep_view(&self) -> TriviaSourceView {
        self@
    }
}

// ------------------------------------------------------------------
// Sorting category names
// ------------------------------------------------------------------

/// Lexicographic order on character sequences, by Unicode scalar value.
pub open spec fn lex_le(a: Seq<char>, b: Seq<char>) -> bool
    decreases a.len(),
{
    if a.len() == 0 {
        true
    } else if b.len() == 0 {
        false
    } else if a[0] == b[0] {
        lex_le(a.drop_first(), b.drop_first())
    } else {
        a[0] < b[0]
    }
}

/// Any two strings are comparable.
pub proof fn lemma_lex_le_total(a: Seq<char>, b: Seq<char>)
    ensures
        lex_le(a, b) || lex_le(b, a),
    decreases a.len(),
{
    if a.len() > 0 && b.len() > 0 && a[0] == b[0] {
        lemma_lex_le_total(a.drop_first(), b.drop_first());
    }
}

/// The order is transitive.
pub proof fn lemma_lex_le_trans(a: Seq<char>, b: Seq<char>, c: Seq<char>)
    requires
        lex_le(a, b),
        lex_le(b, c),
    ensures
        lex_le(a, c),
    decreases a.len(),
{
    if a.len() > 0 && b.len() > 0 && c.len() > 0 {
        if a[0] == b[0] && b[0] == c[0] {
            lemma_lex_le_trans(a.drop_first(), b.drop_first(), c.drop_first());
        }
    }
}

/// Whether `a` sorts at or before `b`.
pub fn str_lex_le(a: &str, b: &str) -> (r: bool)
    ensures
        r == lex_le(a@, b@),
{
    let na = a.unicode_len();
    let nb = b.unicode_len();
    let mut i: usize = 0;
    proof {
        assert(a@.skip(0) =~= a@);
        assert(b@.skip(0) =~= b@);
    }
    loop
        invariant
            i <= na,
            i <= nb,
            na == a@.len(),
            nb == b@.len(),
            lex_le(a@, b@) == lex_le(a@.skip(i as int), b@.skip(i as int)),
        decreases na - i,
    {
        if i >= na {
            return true;
        }
        if i >= nb {
            return false;
        }
        let ca = a.get_char(i);
        let cb = b.get_char(i);
        if ca != cb {
            return ca < cb;
        }
        proof {
            assert(a@.skip(i as int).drop_first() =~= a@.skip(i + 1));
            assert(b@.skip(i as int).drop_first() =~= b@.skip(i + 1));
        }
        i += 1;
    }
}

/// Name/id pairs ordered by name.
pub open spec fn pairs_sorted(s: Seq<(String, usize)>) -> bool {
    forall|i: int, j: int| 0 <= i < j < s.len() ==> lex_le((#[trigger] s[i]).0@, (#[trigger] s[j]).0@)
}

/// Sorts name/id pairs by name; the same pairs come out that went in.
fn sort_pairs(v: Vec<(String, usize)>) -> (r: Vec<(String, usize)>)
    ensures
        r@.to_multiset() == v@.to_multiset(),
        pairs_sorted(r@),
{
    broadcast use vstd::seq_lib::group_to_multiset_ensures, vstd::multiset::group_multiset_axioms;

    let mut rest = v;
    let mut out: Vec<(String, usize)> = Vec::new();
    loop
        invariant
            out@.to_multiset().add(rest@.to_multiset()) == v@.to_multiset(),
            pairs_sorted(out@),
        decreases rest@.len(),
    {
        let ghost r0 = rest@;
        let e = match rest.pop() {
            Option::Some(e) => e,
            Option::None => {
                proof {
                    rest@.to_multiset_ensures();
                    assert(forall|x: (String, usize)| !rest@.contains(x));
                    assert(rest@.to_multiset() =~= Multiset::empty());
                    assert(out@.to_multiset().add(rest@.to_multiset()) =~= out@.to_multiset());
                }
                return out;
            },
        };
        proof {
            rest@.to_multiset_ensures();
            assert(r0 =~= rest@.push(e));
            assert(rest@.push(e).to_multiset() =~= rest@.to_multiset().insert(e));
            assert(r0.to_multiset() =~= rest@.to_multiset().insert(e));
        }
        let n = out.len();
        let mut idx: usize = 0;
        while idx < n && str_lex_le(out[idx].0.as_str(), e.0.as_str())
            invariant
                n == out@.len(),
                idx <= n,
                forall|l: int| 0 <= l < idx ==> lex_le((#[trigger] out@[l]).0@, e.0@),
            decreases n - idx,
        {
            idx += 1;
        }
        proof {
            if idx < out@.len() {
                lemma_lex_le_total(out@[idx as int].0@, e.0@);
            }
        }
        let ghost o0 = out@;
        out.insert(idx, e);
        proof {
            let t = out@;
            assert(t == o0.insert(idx as int, e));
            assert(forall|l: int| 0 <= l < idx ==> t[l] == o0[l]);
            assert(t[idx as int] == e);
            assert(forall|l: int| idx < l < t.len() ==> t[l] == o0[l - 1]);
            assert forall|a: int, b: int| 0 <= a < b < t.len() implies lex_le(
                (#[trigger] t[a]).0@,
                (#[trigger] t[b]).0@,
            ) by {
                if a < idx && b == idx {
                } else if a == idx && b > idx {
                    if idx < o0.len() {
                        if b - 1 > idx {
                            lemma_lex_le_trans(e.0@, o0[idx as int].0@, o0[b - 1].0@);
                        }
                    }
                } else if a < idx && b > idx {
                } else {
                }
            }
            t.to_multiset_ensures();
            assert(t.remove(idx as int) =~= o0);
            assert(t.contains(e));
            assert(o0.to_multiset() =~= t.to_multiset().remove(e));
            assert(t.to_multiset().count(e) > 0);
            assert(t.to_multiset() =~= o0.to_multiset().insert(e));
            assert(out@.to_multiset().add(rest@.to_multiset()) =~= v@.to_multiset());
        }
    }
}

impl Default for TriviaSource {
    /// A fresh source with no options, as a dropdown without a declared
    /// source starts out.
    fn default() -> (r: Self)
        ensures
            r@ matches TriviaSourceView::String(opts) && opts.len() == 0,
    {
        TriviaSource::String(StringSource(Vec::new()))
    }
}

// ------------------------------------------------------------------
// The fetch state machine
// ------------------------------------------------------------------

/// The name/id pairs a response carries, in response order.
pub open spec fn response_pairs(r: CategoriesResponse) -> Seq<(String, usize)> {
    Seq::new(
        r.trivia_categories@.len(),
        |i: int| (r.trivia_categories@[i].name, r.trivia_categories@[i].id),
    )
}

/// The name/id pairs of two parallel columns.
pub open spec fn name_id_pairs(names: Seq<String>, ids: Seq<usize>) -> Seq<(String, usize)> {
    Seq::new(names.len(), |i: int| (names[i], ids[i]))
}

/// What one `update` step does: a fresh source issues a request and becomes
/// `InProgress`; a source already fetching or done is left alone.
pub open spec fn cat_update(c: CategoriesView) -> (CategoriesView, bool) {
    if c is Todo {
        (CategoriesView::InProgress, true)
    } else {
        (c, false)
    }
}

/// A `Done` state folded from `response`: names sorted with their ids
/// beside them, and every index selected.
pub open spec fn done_from_response(c: Categories, response: CategoriesResponse) -> bool {
    match c {
        Categories::Done { names, ids, selected } => {
            &&& names@.len() == ids@.len()
            &&& name_id_pairs(names@, ids@).to_multiset() == response_pairs(
                response,
            ).to_multiset()
            &&& forall|i: int, j: int|
                0 <= i < j < names@.len() ==> lex_le(
                    (#[trigger] names@[i])@,
                    (#[trigger] names@[j])@,
                )
            &&& selected@.len() == names@.len()
            &&& forall|i: int| 0 <= i < selected@.len() ==> (#[trigger] selected@[i]) == i
        },
        _ => false,
    }
}

impl Categories {
    /// The option names this source offers: none until the fetch is done.
    pub fn iter(&self) -> (r: Vec<String>)
        ensures
            match *self {
                Categories::Done { ref names, .. } => r@ == names@,
                _ => r@.len() == 0,
            },
    {
        match self {
            Categories::Done { names, .. } => clone_strings(names),
            _ => Vec::new(),
        }
    }

    /// The selected indices, meaningful only once the fetch is done.
    pub fn get_selected(&self) -> (r: Option<Vec<usize>>)
        ensures
            match *self {
                Categories::Done { ref selected, .. } => r matches Option::Some(v) && v@
                    == selected@,
                _ => r is None,
            },
    {
        match self {
            Categories::Done { selected, .. } => Option::Some(copy_indices(selected)),
            _ => Option::None,
        }
    }

    /// Replaces the selection once the fetch is done; otherwise nothing to
    /// select in yet, and nothing changes.
    pub fn set_selected(&mut self, new: Vec<usize>)
        ensures
            match *old(self) {
                Categories::Done { ref names, ref ids, .. } => *final(self)
                    == (Categories::Done {
                    names: *names,
                    ids: *ids,
                    selected: new,
                }),
                _ => *final(self) == *old(self),
            },
    {
        match self {
            Categories::Done { selected, .. } => {
                *selected = new;
            },
            _ => {
            },
        }
    }

    /// Issues the one fetch this source will ever make: the first call
    /// moves `Todo` to `InProgress` and asks the caller to send the
    /// request; any later call changes nothing and asks for nothing.
    pub fn update(&mut self) -> (issue: bool)
        ensures
            (final(self)@, issue) == cat_update(old(self)@),
    {
        match self {
            Categories::Todo => {
                *self = Categories::InProgress;
                true
            },
            _ => false,
        }
    }

    /// Folds the response into the table: names sorted with their ids, all
    /// indices selected. A response that arrives when no fetch is
    /// outstanding is dropped.
    pub fn finalize(&mut self, response: CategoriesResponse)
        ensures
            *old(self) is InProgress ==> done_from_response(*final(self), response),
            !(*old(self) is InProgress) ==> *final(self) == *old(self),
    {
        broadcast use vstd::seq_lib::group_to_multiset_ensures;

        if !(matches!(self, Categories::InProgress)) {
            return ;
        }
        let ghost resp0 = response;
        let mut cats = response.trivia_categories;
        let ghost full = cats@;
        let mut pairs: Vec<(String, usize)> = Vec::new();
        proof {
            assert(response_pairs(resp0) =~= cat_pairs(full));
        }
        while cats.len() > 0
            invariant
                pairs@.to_multiset().add(cat_pairs(cats@).to_multiset()) == cat_pairs(
                    full,
                ).to_multiset(),
            decreases cats@.len(),
        {
            let ghost c0 = cats@;
            match cats.pop() {
                Option::Some(c) => {
                    proof {
                        cat_pairs(cats@).to_multiset_ensures();
                        pairs@.to_multiset_ensures();
                        assert(cat_pairs(c0) =~= cat_pairs(cats@).push((c.name, c.id)));
                        assert(cat_pairs(cats@).push((c.name, c.id)).to_multiset() =~= cat_pairs(
                            cats@,
                        ).to_multiset().insert((c.name, c.id)));
                        assert(pairs@.push((c.name, c.id)).to_multiset() =~= pairs@.to_multiset()
                            .insert((c.name, c.id)));
                    }
                    let ghost p0 = pairs@;
                    pairs.push((c.name, c.id));
                    proof {
                        assert(pairs@.to_multiset().add(cat_pairs(cats@).to_multiset())
                            =~= cat_pairs(full).to_multiset());
                    }
                },
                Option::None => {
                },
            }
        }
        proof {
            assert(forall|x: (String, usize)| !cat_pairs(cats@).contains(x));
            assert(cat_pairs(cats@).to_multiset().len() == 0) by {
                cat_pairs(cats@).to_multiset_ensures();
            }
            assert(cat_pairs(cats@).to_multiset() =~= Multiset::empty());
            assert(pairs@.to_multiset() =~= cat_pairs(full).to_multiset());
        }
        let sorted = sort_pairs(pairs);
        let mut names: Vec<String> = Vec::new();
        let mut ids: Vec<usize> = Vec::new();
        let n = sorted.len();
        let mut i: usize = 0;
        while i < n
            invariant
                i <= n,
                n == sorted@.len(),
                names@.len() == i,
                ids@.len() == i,
                forall|l: int| 0 <= l < i ==> (#[trigger] names@[l]) == sorted@[l].0,
                forall|l: int| 0 <= l < i ==> (#[trigger] ids@[l]) == sorted@[l].1,
            decreases n - i,
        {
            names.push(sorted[i].0.clone());
            ids.push(sorted[i].1);
            i += 1;
        }
        let selected = crate::store::MultiDropdownSelected::all(names.len()).0;
        proof {
            assert(name_id_pairs(names@, ids@) =~= sorted@);
            assert(name_id_pairs(names@, ids@).to_multiset() == response_pairs(
                resp0,
            ).to_multiset());
            assert forall|a: int, b: int| 0 <= a < b < names@.len() implies lex_le(
                (#[trigger] names@[a])@,
                (#[trigger] names@[b])@,
            ) by {
                assert(names@[a] == sorted@[a].0);
                assert(names@[b] == sorted@[b].0);
            }
        }
        *self = Categories::Done { names, ids, selected };
    }
}

/// The name/id pairs of a category list, in order.
pub open spec fn cat_pairs(s: Seq<Category>) -> Seq<(String, usize)> {
    Seq::new(s.len(), |i: int| (s[i].name, s[i].id))
}

/// How many rows the name/id table has: the shorter of its two columns.
pub open spec fn table_rows(names: Seq<String>, ids: Seq<usize>) -> int {
    if names.len() <= ids.len() {
        names.len() as int
    } else {
        ids.len() as int
    }
}

/// The name column of a finished table.
pub open spec fn done_names(c: Categories) -> Seq<String> {
    match c {
        Categories::Done { names, .. } => names@,
        _ => Seq::empty(),
    }
}

/// The id column of a finished table.
pub open spec fn done_ids(c: Categories) -> Seq<usize> {
    match c {
        Categories::Done { ids, .. } => ids@,
        _ => Seq::empty(),
    }
}

impl Categories {
    /// Looks a category's id up by its name: the id beside the first
    /// matching name, or nothing when the name is absent or the fetch is
    /// not done.
    pub fn name_to_id(&self, name: &str) -> (r: Option<usize>)
        ensures
            !(*self is Done) ==> r is None,
            *self is Done ==> match r {
                Option::Some(id) => exists|i: int|
                    0 <= i < table_rows(done_names(*self), done_ids(*self)) && (#[trigger] done_names(
                        *self,
                    )[i])@ == name@ && done_ids(*self)[i] == id && (forall|j: int|
                        0 <= j < i ==> (#[trigger] done_names(*self)[j])@ != name@),
                Option::None => forall|i: int|
                    0 <= i < table_rows(done_names(*self), done_ids(*self)) ==> (
                    #[trigger] done_names(*self)[i])@ != name@,
            },
    {
        match self {
            Categories::Done { names, ids, selected } => {
                let n = if names.len() <= ids.len() {
                    names.len()
                } else {
                    ids.len()
                };
                let mut i: usize = 0;
                while i < n
                    invariant
                        *self == (Categories::Done {
                            names: *names,
                            ids: *ids,
                            selected: *selected,
                        }),
                        i <= n,
                        n == table_rows(names@, ids@),
                        forall|j: int| 0 <= j < i ==> (#[trigger] names@[j])@ != name@,
                    decreases n - i,
                {
                    if crate::form::str_eq(names[i].as_str(), name) {
                        let found = ids[i];
                        proof {
                            let w = i as int;
                            assert(done_names(*self) == names@);
                            assert(done_ids(*self) == ids@);
                            assert((done_names(*self)[w])@ == name@);
                            assert(done_ids(*self)[w] == found);
                            assert(forall|j: int|
                                0 <= j < w ==> (#[trigger] done_names(*self)[j])@ != name@);
                            assert(exists|k: int|
                                0 <= k < table_rows(done_names(*self), done_ids(*self)) && (
                                #[trigger] done_names(*self)[k])@ == name@ && done_ids(*self)[k]
                                    == found && (forall|j: int|
                                    0 <= j < k ==> (#[trigger] done_names(*self)[j])@ != name@));
                        }
                        return Option::Some(found);
                    }
                    i += 1;
                }
                Option::None
            },
            _ => Option::None,
        }
    }

    /// Looks a category's name up by its id: the name beside the first
    /// matching id, or nothing when the id is absent or the fetch is not
    /// done.
    pub fn id_to_name(&self, id: usize) -> (r: Option<&String>)
        ensures
            !(*self is Done) ==> r is None,
            *self is Done ==> match r {
                Option::Some(v) => exists|i: int|
                    0 <= i < table_rows(done_names(*self), done_ids(*self)) && (#[trigger] done_ids(
                        *self,
                    )[i]) == id && done_names(*self)[i] == *v && (forall|j: int|
                        0 <= j < i ==> (#[trigger] done_ids(*self)[j]) != id),
                Option::None => forall|i: int|
                    0 <= i < table_rows(done_names(*self), done_ids(*self)) ==> (#[trigger] done_ids(
                        *self,
                    )[i]) != id,
            },
    {
        match self {
            Categories::Done { names, ids, selected } => {
                let n = if names.len() <= ids.len() {
                    names.len()
                } else {
                    ids.len()
                };
                let mut i: usize = 0;
                while i < n
                    invariant
                        *self == (Categories::Done {
                            names: *names,
                            ids: *ids,
                            selected: *selected,
                        }),
                        i <= n,
                        n == table_rows(names@, ids@),
                        forall|j: int| 0 <= j < i ==> (#[trigger] ids@[j]) != id,
                    decreases n - i,
                {
                    if ids[i] == id {
                        proof {
                            let w = i as int;
                            assert(done_names(*self) == names@);
                            assert(done_ids(*self) == ids@);
                            assert(done_ids(*self)[w] == id);
                            assert(done_names(*self)[w] == names@[w]);
                            assert(forall|j: int|
                                0 <= j < w ==> (#[trigger] done_ids(*self)[j]) != id);
                            assert(exists|k: int|
                                0 <= k < table_rows(done_names(*self), done_ids(*self)) && (
                                #[trigger] done_ids(*self)[k]) == id && done_names(*self)[k]
                                    == names@[w] && (forall|j: int|
                                    0 <= j < k ==> (#[trigger] done_ids(*self)[j]) != id));
                        }
                        return Option::Some(&names[i]);
                    }
                    i += 1;
                }
                Option::None
            },
            _ => Option::None,
        }
    }
}

/// Copies a list of option names.
fn clone_strings(v: &Vec<String>) -> (r: Vec<String>)
    ensures
        r@ == v@,
{
    let mut r: Vec<String> = Vec::new();
    let mut i: usize = 0;
    while i < v.len()
        invariant
            i <= v@.len(),
            r@ =~= v@.subrange(0, i as int),
        decreases v@.len() - i,
    {
        r.push(v[i].clone());
        i += 1;
    }
    proof {
        assert(v@.subrange(0, v@.len() as int) =~= v@);
    }
    r
}

/// Copies a list of indices.
pub fn copy_indices(v: &Vec<usize>) -> (r: Vec<usize>)
    ensures
        r@ == v@,
{
    let mut r: Vec<usize> = Vec::new();
    let mut i: usize = 0;
    while i < v.len()
        invariant
            i <= v@.len(),
            r@ =~= v@.subrange(0, i as int),
        decreases v@.len() - i,
    {
        r.push(v[i]);
        i += 1;
    }
    proof {
        assert(v@.subrange(0, v@.len() as int) =~= v@);
    }
    r
}

impl OpenTdbSource {
    pub fn iter(&self) -> (r: Vec<String>)
        ensures
            match *self {
                OpenTdbSource::Categories(ref c) => match *c {
                    Categories::Done { ref names, .. } => r@ == names@,
                    _ => r@.len() == 0,
                },
            },
    {
        let OpenTdbSource::Categories(c) = self;
        c.iter()
    }

    pub fn get_selected(&self) -> (r: Option<Vec<usize>>)
        ensures
            match *self {
                OpenTdbSource::Categories(ref c) => match *c {
                    Categories::Done { ref selected, .. } => r matches Option::Some(v) && v@
                        == selected@,
                    _ => r is None,
                },
            },
    {
        let OpenTdbSource::Categories(c) = self;
        c.get_selected()
    }

    pub fn set_selected(&mut self, new: Vec<usize>)
        ensures
            match *old(self) {
                OpenTdbSource::Categories(c0) => *final(self) matches OpenTdbSource::Categories(c1)
                    && (match c0 {
                    Categories::Done { names, ids, .. } => c1 == (Categories::Done {
                        names,
                        ids,
                        selected: new,
                    }),
                    _ => c1 == c0,
                }),
            },
    {
        let OpenTdbSource::Categories(c) = self;
        c.set_selected(new);
    }

    pub fn update(&mut self) -> (issue: bool)
        ensures
            match *old(self) {
                OpenTdbSource::Categories(c0) => *final(self) matches OpenTdbSource::Categories(c1)
                    && (c1@, issue) == cat_update(c0@),
            },
    {
        let OpenTdbSource::Categories(c) = self;
        c.update()
    }

    pub fn finalize(&mut self, response: CategoriesResponse)
        ensures
            match *old(self) {
                OpenTdbSource::Categories(c0) => *final(self) matches OpenTdbSource::Categories(c1)
                    && (if c0 is InProgress {
                    done_from_response(c1, response)
                } else {
                    c1 == c0
                }),
            },
    {
        let OpenTdbSource::Categories(c) = self;
        c.finalize(response);
    }
}

/// The option names a source offers, as stored values.
pub open spec fn source_values(s: TriviaSource) -> Seq<String> {
    match s {
        TriviaSource::String(l) => l.0@,
        TriviaSource::OpenTdb(OpenTdbSource::Categories(c)) => match c {
            Categories::Done { names, .. } => names@,
            _ => Seq::empty(),
        },
        TriviaSource::TriviaApi(_) => Seq::empty(),
    }
}

impl TriviaSource {
    /// The option names to offer, in order; empty until a remote source is
    /// done fetching.
    pub fn iter(&self) -> (r: Vec<String>)
        ensures
            r@ == source_values(*self),
    {
        match self {
            TriviaSource::String(l) => clone_strings(&l.0),
            TriviaSource::OpenTdb(o) => o.iter(),
            TriviaSource::TriviaApi(_) => Vec::new(),
        }
    }

    /// The option at `index`, or nothing while the source is not ready or
    /// the index is out of range.
    pub fn get(&self, index: usize) -> (r: Option<&String>)
        ensures
            index < source_values(*self).len() ==> (r matches Option::Some(v) && *v
                == source_values(*self)[index as int]),
            index >= source_values(*self).len() ==> r is None,
    {
        match self {
            TriviaSource::String(l) => {
                if index < l.0.len() {
                    Option::Some(&l.0[index])
                } else {
                    Option::None
                }
            },
            TriviaSource::OpenTdb(OpenTdbSource::Categories(c)) => match c {
                Categories::Done { names, .. } => {
                    if index < names.len() {
                        Option::Some(&names[index])
                    } else {
                        Option::None
                    }
                },
                _ => Option::None,
            },
            TriviaSource::TriviaApi(_) => Option::None,
        }
    }

    /// The selected indices of a remote source that is done; other sources
    /// keep no selection.
    pub fn get_selected(&self) -> (r: Option<Vec<usize>>)
        ensures
            match *self {
                TriviaSource::OpenTdb(OpenTdbSource::Categories(
                    Categories::Done { ref selected, .. },
                )) => r matches Option::Some(v) && v@ == selected@,
                _ => r is None,
            },
    {
        match self {
            TriviaSource::OpenTdb(o) => o.get_selected(),
            _ => Option::None,
        }
    }

    /// Writes the selection back into a remote source that is done; other
    /// sources are left alone.
    pub fn set_selected(&mut self, new: Vec<usize>)
        ensures
            match *old(self) {
                TriviaSource::OpenTdb(OpenTdbSource::Categories(
                    Categories::Done { names, ids, .. },
                )) => *final(self) == TriviaSource::OpenTdb(
                    OpenTdbSource::Categories(Categories::Done { names, ids, selected: new }),
                ),
                _ => *final(self) == *old(self),
            },
    {
        match self {
            TriviaSource::OpenTdb(o) => o.set_selected(new),
            _ => {
            },
        }
    }

    /// Runs one fetch step; the result says whether the caller must issue
    /// the one category request.
    pub fn update(&mut self) -> (issue: bool)
        ensures
            match *old(self) {
                TriviaSource::OpenTdb(OpenTdbSource::Categories(c0)) => *final(self)
                    matches TriviaSource::OpenTdb(OpenTdbSource::Categories(c1)) && (c1@, issue)
                    == cat_update(c0@),
                _ => *final(self) == *old(self) && !issue,
            },
    {
        match self {
            TriviaSource::OpenTdb(o) => o.update(),
            _ => false,
        }
    }

    /// Delivers a provider response to a remote source that is waiting
    /// for it; everywhere else the response is dropped.
    pub fn finalize(&mut self, response: OpenTdbResponse)
        ensures
            match *old(self) {
                TriviaSource::OpenTdb(OpenTdbSource::Categories(c0)) => *final(self)
                    matches TriviaSource::OpenTdb(OpenTdbSource::Categories(c1)) && (
                if c0 is InProgress {
                    response matches OpenTdbResponse::Categories(r) && done_from_response(c1, r)
                } else {
                    c1 == c0
                }),
                _ => *final(self) == *old(self),
            },
    {
        let OpenTdbResponse::Categories(r) = response;
        match self {
            TriviaSource::OpenTdb(o) => o.finalize(r),
            _ => {
            },
        }
    }
}

/// Applies one checkbox change of a multiple-choice dropdown: the chosen
/// index joins or leaves the widget's selection, and the backing source's
/// own selection is updated to match.
pub fn multi_dropdown_toggle(
    selected: &mut crate::store::MultiDropdownSelected,
    source: &mut TriviaSource,
    index: usize,
    checked: bool,
)
    requires
        old(selected).wf(),
    ensures
        final(selected).wf(),
        forall|y: usize|
            final(selected).0@.contains(y) == (if checked {
                old(selected).0@.contains(y) || y == index
            } else {
                old(selected).0@.contains(y) && y != index
            }),
        match *old(source) {
            TriviaSource::OpenTdb(OpenTdbSource::Categories(
                Categories::Done { names, ids, .. },
            )) => *final(source) matches TriviaSource::OpenTdb(
                OpenTdbSource::Categories(Categories::Done { names: n2, ids: i2, selected: s2 }),
            ) && n2 == names && i2 == ids && s2@ == final(selected).0@,
            _ => *final(source) == *old(source),
        },
{
    if checked {
        selected.insert(index);
    } else {
        selected.remove(index);
    }
    source.set_selected(copy_indices(&selected.0));
}

/// Once a fetch has been issued, a second step issues nothing: however
/// many times `update` runs before the response arrives, exactly one
/// request is ever outstanding.
pub proof fn lemma_update_at_most_once(c: CategoriesView)
    ensures
        !(cat_update(c).0 is Todo),
        !cat_update(cat_update(c).0).1,
{
}

} // verus!
