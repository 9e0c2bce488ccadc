//! The widget state store: identity-keyed persistent state for interactive
//! widgets, created lazily on first render and surviving re-renders of the
//! same identity until its screen is torn down.
//!
//! The store is a map in disguise: its contract speaks of a `Map` from keys
//! to states, and every operation says exactly how that map changes.

use vstd::prelude::*;

use crate::document::WhichMenu;
use crate::text_input::TextInputState;

verus! {

/// The stable identity of one widget instance: the screen it belongs to and
/// its slot in that screen's render order.
#[derive(Clone, Copy, Debug, PartialEq, Eq, Hash, Structural)]
pub struct WidgetKey {
    pub screen: WhichMenu,
    pub slot: u64,
}

/// The committed value of a slider, a whole number.
#[derive(Clone, Copy, Debug, Default, PartialEq, Eq, Structural)]
pub struct SliderValue(pub usize);

/// The selected option indices of a multiple-choice dropdown, kept strictly
/// increasing.
#[derive(Clone, Debug, PartialEq)]
pub struct MultiDropdownSelected(pub Vec<usize>);

/// Option indices in strictly increasing order.
pub open spec fn strictly_increasing(s: Seq<usize>) -> bool {
    forall|i: int, j: int| 0 <= i < j < s.len() ==> s[i] < s[j]
}

impl MultiDropdownSelected {
    pub open spec fn wf(&self) -> bool {
        strictly_increasing(self.0@)
    }

    /// An empty selection.
    pub fn new() -> (r: Self)
        ensures
            r.wf(),
            r.0@.len() == 0,
    {
        MultiDropdownSelected(Vec::new())
    }

    /// The full selection over `n` options: every index below `n`.
    pub fn all(n: usize) -> (r: Self)
        ensures
            r.wf(),
            r.0@.len() == n,
            forall|i: int| 0 <= i < n ==> r.0@[i] == i,
    {
        let mut v: Vec<usize> = Vec::new();
        let mut i: usize = 0;
        while i < n
            invariant
                i <= n,
                v@.len() == i,
                forall|l: int| 0 <= l < i ==> v@[l] == l,
            decreases n - i,
        {
            v.push(i);
            i += 1;
        }
        MultiDropdownSelected(v)
    }

    /// A well-formed selection holding exactly the given indices:
    /// duplicates collapse and order is irrelevant, as in a set.
    pub fn from_indices(raw: &Vec<usize>) -> (r: Self)
        ensures
            r.wf(),
            forall|y: usize| r.0@.contains(y) == raw@.contains(y),
    {
        let mut sel = MultiDropdownSelected::new();
        let mut i: usize = 0;
        while i < raw.len()
            invariant
                sel.wf(),
                i <= raw@.len(),
                forall|y: usize|
                    sel.0@.contains(y) == raw@.subrange(0, i as int).contains(y),
            decreases raw@.len() - i,
        {
            let x = raw[i];
            let ghost pre = raw@.subrange(0, i as int);
            sel.insert(x);
            proof {
                assert(raw@.subrange(0, i + 1) =~= pre.push(raw@[i as int]));
                assert forall|y: usize| sel.0@.contains(y) == raw@.subrange(0, i + 1).contains(
                    y,
                ) by {
                    if raw@.subrange(0, i + 1).contains(y) {
                        let k = choose|k: int|
                            0 <= k < raw@.subrange(0, i + 1).len() && #[trigger] raw@.subrange(
                                0,
                                i + 1,
                            )[k] == y;
                        if k < i {
                            assert(pre[k] == y);
                        }
                    }
                    if pre.contains(y) {
                        let k = choose|k: int| 0 <= k < pre.len() && pre[k] == y;
                        assert(raw@.subrange(0, i + 1)[k] == y);
                    }
                    if y == x {
                        assert(raw@.subrange(0, i + 1)[i as int] == y);
                    }
                }
            }
            i += 1;
        }
        proof {
            assert(raw@.subrange(0, raw@.len() as int) =~= raw@);
        }
        sel
    }

    /// Whether `x` is selected.
    pub fn contains(&self, x: usize) -> (r: bool)
        requires
            self.wf(),
        ensures
            r == self.0@.contains(x),
    {
        let mut i: usize = 0;
        while i < self.0.len()
            invariant
                i <= self.0@.len(),
                forall|l: int| 0 <= l < i ==> self.0@[l] != x,
            decreases self.0@.len() - i,
        {
            if self.0[i] == x {
                return true;
            }
            i += 1;
        }
        proof {
            if self.0@.contains(x) {
                let l = choose|l: int| 0 <= l < self.0@.len() && self.0@[l] == x;
            }
        }
        false
    }

    /// Selects `x`: afterwards exactly the old indices and `x` are
    /// selected.
    pub fn insert(&mut self, x: usize)
        requires
            old(self).wf(),
        ensures
            final(self).wf(),
            forall|y: usize|
                final(self).0@.contains(y) == (old(self).0@.contains(y) || y == x),
    {
        let n = self.0.len();
        let mut i: usize = 0;
        while i < n && self.0[i] < x
            invariant
                self.wf(),
                *self == *old(self),
                n == self.0@.len(),
                i <= n,
                forall|l: int| 0 <= l < i ==> self.0@[l] < x,
            decreases n - i,
        {
            i += 1;
        }
        if i < n && self.0[i] == x {
            proof {
                assert(self.0@.contains(x));
                assert(forall|y: usize|
                    final(self).0@.contains(y) == (old(self).0@.contains(y) || y == x));
            }
            return ;
        }
        let ghost s0 = self.0@;
        self.0.insert(i, x);
        proof {
            let t = self.0@;
            assert(t == s0.insert(i as int, x));
            assert(forall|l: int| 0 <= l < i ==> t[l] == s0[l]);
            assert(t[i as int] == x);
            assert(forall|l: int| i < l < t.len() ==> t[l] == s0[l - 1]);
            assert(i < s0.len() ==> s0[i as int] > x);
            assert forall|a: int, b: int| 0 <= a < b < t.len() implies t[a] < t[b] by {
                if a < i && b > i {
                    assert(s0[a] < x);
                    assert(s0[b - 1] >= s0[i as int] || b - 1 == i);
                }
            }
            assert forall|y: usize| t.contains(y) == (s0.contains(y) || y == x) by {
                if t.contains(y) {
                    let k = choose|k: int| 0 <= k < t.len() && t[k] == y;
                    if k < i {
                        assert(s0[k] == y);
                    } else if k > i {
                        assert(s0[k - 1] == y);
                    }
                }
                if s0.contains(y) {
                    let k = choose|k: int| 0 <= k < s0.len() && s0[k] == y;
                    if k < i {
                        assert(t[k] == y);
                    } else {
                        assert(t[k + 1] == y);
                    }
                }
                assert(t[i as int] == x);
            }
        }
    }

    /// Deselects `x`: afterwards exactly the old indices other than `x` are
    /// selected.
    pub fn remove(&mut self, x: usize)
        requires
            old(self).wf(),
        ensures
            final(self).wf(),
            forall|y: usize|
                final(self).0@.contains(y) == (old(self).0@.contains(y) && y != x),
    {
        let n = self.0.len();
        let mut i: usize = 0;
        while i < n && self.0[i] != x
            invariant
                self.wf(),
                *self == *old(self),
                n == self.0@.len(),
                i <= n,
                forall|l: int| 0 <= l < i ==> self.0@[l] != x,
            decreases n - i,
        {
            i += 1;
        }
        if i >= n {
            proof {
                if self.0@.contains(x) {
                    let l = choose|l: int| 0 <= l < self.0@.len() && self.0@[l] == x;
                }
                assert(!self.0@.contains(x));
                assert(forall|y: usize|
                    final(self).0@.contains(y) == (old(self).0@.contains(y) && y != x));
            }
            return ;
        }
        let ghost s0 = self.0@;
        self.0.remove(i);
        proof {
            let t = self.0@;
            assert(t == s0.remove(i as int));
            assert(forall|l: int| 0 <= l < i ==> t[l] == s0[l]);
            assert(forall|l: int| i <= l < t.len() ==> t[l] == s0[l + 1]);
            assert forall|y: usize| t.contains(y) == (s0.contains(y) && y != x) by {
                assert(forall|k: int| 0 <= k < s0.len() && k != i ==> s0[k] != x);
                if t.contains(y) {
                    let k = choose|k: int| 0 <= k < t.len() && t[k] == y;
                    if k < i {
                        assert(s0[k] == y);
                    } else {
                        assert(s0[k + 1] == y);
                    }
                }
                if s0.contains(y) && y != x {
                    let k = choose|k: int| 0 <= k < s0.len() && s0[k] == y;
                    if k < i {
                        assert(t[k] == y);
                    } else {
                        assert(k > i);
                        assert(t[k - 1] == y);
                    }
                }
            }
        }
    }
}

/// The state one widget identity can persist.
#[derive(Debug, PartialEq)]
pub enum WidgetState {
    TextInput(TextInputState),
    Slider(SliderValue),
    MultiSelection(MultiDropdownSelected),
}

/// Clamps a proposed slider value into the slider's declared range.
pub fn slider_clamp(v: usize, min: usize, max: usize) -> (r: usize)
    requires
        min <= max,
    ensures
        r == (if v < min {
            min as int
        } else if v > max {
            max as int
        } else {
            v as int
        }),
        min <= r <= max,
{
    if v < min {
        min
    } else if v > max {
        max
    } else {
        v
    }
}

/// No key occurs twice.
pub open spec fn keys_unique(s: Seq<(WidgetKey, WidgetState)>) -> bool {
    forall|i: int, j: int| 0 <= i < j < s.len() ==> (#[trigger] s[i]).0 != (#[trigger] s[j]).0
}

/// The map the entries stand for.
pub open spec fn entries_map(s: Seq<(WidgetKey, WidgetState)>) -> Map<WidgetKey, WidgetState>
    decreases s.len(),
{
    if s.len() == 0 {
        Map::empty()
    } else {
        entries_map(s.drop_last()).insert(s.last().0, s.last().1)
    }
}

/// With unique keys, each entry is in the map under its own key, and every
/// key in the map comes from some entry.
proof fn lemma_entries_map(s: Seq<(WidgetKey, WidgetState)>)
    requires
        keys_unique(s),
    ensures
        forall|i: int|
            0 <= i < s.len() ==> entries_map(s).contains_key((#[trigger] s[i]).0) && entries_map(
                s,
            )[s[i].0] == s[i].1,
        forall|k: WidgetKey|
            entries_map(s).contains_key(k) ==> exists|i: int| 0 <= i < s.len() && (#[trigger] s[i]).0
                == k,
    decreases s.len(),
{
    if s.len() > 0 {
        assert(keys_unique(s.drop_last()));
        lemma_entries_map(s.drop_last());
        assert(forall|i: int| 0 <= i < s.len() - 1 ==> s.drop_last()[i] == s[i]);
        assert forall|k: WidgetKey| entries_map(s).contains_key(k) implies exists|i: int|
            0 <= i < s.len() && (#[trigger] s[i]).0 == k by {
            if k == s.last().0 {
                assert(s[s.len() - 1].0 == k);
            } else {
                assert(entries_map(s.drop_last()).contains_key(k));
                let i = choose|i: int|
                    0 <= i < s.drop_last().len() && (#[trigger] s.drop_last()[i]).0 == k;
                assert(s[i].0 == k);
            }
        }
    }
}

/// The identity-keyed widget state store.
pub struct WidgetStore {
    entries: Vec<(WidgetKey, WidgetState)>,
}

impl View for WidgetStore {
    type V = Map<WidgetKey, WidgetState>;

    closed spec fn view(&self) -> Map<WidgetKey, WidgetState> {
        entries_map(self.entries@)
    }
}

impl WidgetStore {
    pub closed spec fn wf(&self) -> bool {
        keys_unique(self.entries@)
    }

    /// An empty store.
    pub fn new() -> (r: Self)
        ensures
            r@ == Map::<WidgetKey, WidgetState>::empty(),
            r.wf(),
    {
        WidgetStore { entries: Vec::new() }
    }

    /// The position of `key` among the entries, if present.
    fn find(&self, key: WidgetKey) -> (r: Option<usize>)
        requires
            self.wf(),
        ensures
            match r {
                Option::Some(i) => i < self.entries@.len() && self.entries@[i as int].0 == key
                    && self@.contains_key(key) && self@[key] == self.entries@[i as int].1,
                Option::None => !self@.contains_key(key),
            },
    {
        proof {
            lemma_entries_map(self.entries@);
        }
        let mut i: usize = 0;
        while i < self.entries.len()
            invariant
                self.wf(),
                i <= self.entries@.len(),
                forall|l: int| 0 <= l < i ==> (#[trigger] self.entries@[l]).0 != key,
            decreases self.entries@.len() - i,
        {
            if self.entries[i].0 == key {
                proof {
                    lemma_entries_map(self.entries@);
                }
                return Option::Some(i);
            }
            i += 1;
        }
        proof {
            lemma_entries_map(self.entries@);
            if self@.contains_key(key) {
                let l = choose|l: int|
                    0 <= l < self.entries@.len() && (#[trigger] self.entries@[l]).0 == key;
            }
        }
        Option::None
    }

    /// Whether the identity already has state.
    pub fn contains(&self, key: WidgetKey) -> (r: bool)
        requires
            self.wf(),
        ensures
            r == self@.contains_key(key),
    {
        self.find(key).is_some()
    }

    /// The state of an identity: the last value written for it, or nothing
    /// if it was never initialized.
    pub fn get(&self, key: WidgetKey) -> (r: Option<&WidgetState>)
        requires
            self.wf(),
        ensures
            match r {
                Option::Some(v) => self@.contains_key(key) && *v == self@[key],
                Option::None => !self@.contains_key(key),
            },
    {
        match self.find(key) {
            Option::Some(i) => Option::Some(&self.entries[i].1),
            Option::None => Option::None,
        }
    }

    /// The first call for an identity stores `default`; later calls leave
    /// the store unchanged, whatever default they bring.
    pub fn get_or_init(&mut self, key: WidgetKey, default: WidgetState)
        requires
            old(self).wf(),
        ensures
            final(self).wf(),
            old(self)@.contains_key(key) ==> final(self)@ == old(self)@,
            !old(self)@.contains_key(key) ==> final(self)@ == old(self)@.insert(key, default),
            final(self)@.contains_key(key),
    {
        match self.find(key) {
            Option::Some(_) => {
            },
            Option::None => {
                let ghost s0 = self.entries@;
                proof {
                    lemma_entries_map(s0);
                    assert(forall|l: int| 0 <= l < s0.len() ==> (#[trigger] s0[l]).0 != key);
                }
                self.entries.push((key, default));
                proof {
                    assert(self.entries@.drop_last() =~= s0);
                    assert(forall|l: int|
                        0 <= l < s0.len() ==> self.entries@[l] == (#[trigger] s0[l]));
                    assert(keys_unique(self.entries@));
                    lemma_entries_map(self.entries@);
                }
            },
        }
    }

    /// Writes the state of an identity; visible to every later read until
    /// the identity is torn down.
    pub fn set(&mut self, key: WidgetKey, value: WidgetState)
        requires
            old(self).wf(),
        ensures
            final(self).wf(),
            final(self)@ == old(self)@.insert(key, value),
    {
        let ghost s0 = self.entries@;
        match self.find(key) {
            Option::Some(i) => {
                self.entries[i] = (key, value);
                proof {
                    lemma_entries_map_update(s0, i as int, value);
                    assert(s0.update(i as int, (s0[i as int].0, value)) =~= self.entries@);
                }
            },
            Option::None => {
                proof {
                    lemma_entries_map(s0);
                    assert(forall|l: int| 0 <= l < s0.len() ==> (#[trigger] s0[l]).0 != key);
                }
                self.entries.push((key, value));
                proof {
                    assert(self.entries@.drop_last() =~= s0);
                    assert(forall|l: int|
                        0 <= l < s0.len() ==> self.entries@[l] == (#[trigger] s0[l]));
                    assert(keys_unique(self.entries@));
                }
            },
        }
    }

    /// Removes the state of every identity belonging to `screen`; the rest
    /// is untouched.
    pub fn teardown_screen(&mut self, screen: WhichMenu)
        requires
            old(self).wf(),
        ensures
            final(self).wf(),
            final(self)@ == old(self)@.restrict(Set::new(|k: WidgetKey| k.screen != screen)),
    {
        let ghost s0 = self.entries@;
        let mut i: usize = 0;
        let ghost mut j: int = 0;
        while i < self.entries.len()
            invariant
                keys_unique(s0),
                0 <= j <= s0.len(),
                i as int == filter_screen(s0.subrange(0, j), screen).len(),
                self.entries@ =~= filter_screen(s0.subrange(0, j), screen) + s0.subrange(
                    j,
                    s0.len() as int,
                ),
            decreases self.entries@.len() - i,
        {
            proof {
                assert(s0.subrange(0, j + 1).drop_last() =~= s0.subrange(0, j));
                assert(s0.subrange(0, j + 1).last() == s0[j]);
                assert(self.entries@[i as int] == s0[j]);
            }
            if self.entries[i].0.screen == screen {
                self.entries.remove(i);
                proof {
                    assert(self.entries@ =~= filter_screen(s0.subrange(0, j + 1), screen)
                        + s0.subrange(j + 1, s0.len() as int));
                }
            } else {
                i += 1;
                proof {
                    assert(self.entries@ =~= filter_screen(s0.subrange(0, j + 1), screen)
                        + s0.subrange(j + 1, s0.len() as int));
                }
            }
            proof {
                j = j + 1;
            }
        }
        proof {
            assert(s0.subrange(0, j) =~= s0.subrange(0, s0.len() as int));
            assert(s0.subrange(0, s0.len() as int) =~= s0);
            assert(self.entries@ =~= filter_screen(s0, screen));
            lemma_filter_screen(s0, screen);
        }
    }
}

/// The entries with every key of `screen` dropped.
pub open spec fn filter_screen(s: Seq<(WidgetKey, WidgetState)>, screen: WhichMenu) -> Seq<
    (WidgetKey, WidgetState),
>
    decreases s.len(),
{
    if s.len() == 0 {
        Seq::empty()
    } else if s.last().0.screen == screen {
        filter_screen(s.drop_last(), screen)
    } else {
        filter_screen(s.drop_last(), screen).push(s.last())
    }
}

/// Updating the entry that holds `key` updates the map at `key`.
proof fn lemma_entries_map_update(s: Seq<(WidgetKey, WidgetState)>, i: int, v: WidgetState)
    requires
        keys_unique(s),
        0 <= i < s.len(),
    ensures
        keys_unique(s.update(i, (s[i].0, v))),
        entries_map(s.update(i, (s[i].0, v))) == entries_map(s).insert(s[i].0, v),
    decreases s.len(),
{
    let k = s[i].0;
    let t = s.update(i, (k, v));
    assert(keys_unique(t));
    if i == s.len() - 1 {
        assert(t.drop_last() =~= s.drop_last());
        assert(entries_map(t) =~= entries_map(s).insert(k, v));
    } else {
        assert(t.drop_last() =~= s.drop_last().update(i, (k, v)));
        assert(keys_unique(s.drop_last()));
        assert(s.drop_last()[i] == s[i]);
        lemma_entries_map_update(s.drop_last(), i, v);
        assert(t.last() == s.last());
        assert(entries_map(t) == entries_map(s.drop_last()).insert(k, v).insert(
            s.last().0,
            s.last().1,
        ));
        assert(s.last().0 != k);
        assert(entries_map(s.drop_last()).insert(k, v).insert(s.last().0, s.last().1)
            =~= entries_map(s.drop_last()).insert(s.last().0, s.last().1).insert(k, v));
    }
}

/// A slider adjustment: the proposed value is clamped into the declared
/// range and written through to the store immediately, with no separate
/// commit step.
pub fn slider_input(store: &mut WidgetStore, key: WidgetKey, proposed: usize, min: usize, max: usize)
    requires
        old(store).wf(),
        min <= max,
    ensures
        final(store).wf(),
        final(store)@ == old(store)@.insert(
            key,
            WidgetState::Slider(
                SliderValue(
                    (if proposed < min {
                        min as int
                    } else if proposed > max {
                        max as int
                    } else {
                        proposed as int
                    }) as usize,
                ),
            ),
        ),
{
    let v = slider_clamp(proposed, min, max);
    store.set(key, WidgetState::Slider(SliderValue(v)));
}

/// Widget state persists across re-renders: the first initialization of an
/// identity answers with its default, and once a value has been written,
/// every later read answers with that last written value — never the
/// default again, whatever defaults later initializations bring. (A later
/// `get_or_init` leaves a present identity untouched by its own contract.)
pub proof fn lemma_store_persistence(
    m: Map<WidgetKey, WidgetState>,
    k: WidgetKey,
    default: WidgetState,
    written: WidgetState,
)
    requires
        !m.contains_key(k),
    ensures
        m.insert(k, default)[k] == default,
        m.insert(k, default).insert(k, written)[k] == written,
        m.insert(k, default).insert(k, written).contains_key(k),
{
}

/// Filtering keeps keys unique, keeps only entries of other screens, and
/// restricts the map accordingly.
proof fn lemma_filter_screen(s: Seq<(WidgetKey, WidgetState)>, screen: WhichMenu)
    requires
        keys_unique(s),
    ensures
        keys_unique(filter_screen(s, screen)),
        forall|i: int|
            0 <= i < filter_screen(s, screen).len() ==> exists|j: int|
                0 <= j < s.len() && s[j] == #[trigger] filter_screen(s, screen)[i],
        entries_map(filter_screen(s, screen)) == entries_map(s).restrict(
            Set::new(|k: WidgetKey| k.screen != screen),
        ),
    decreases s.len(),
{
    let ks = Set::new(|k: WidgetKey| k.screen != screen);
    if s.len() == 0 {
        assert(entries_map(filter_screen(s, screen)) =~= entries_map(s).restrict(ks));
    } else {
        let d = s.drop_last();
        assert(keys_unique(d));
        lemma_filter_screen(d, screen);
        let f = filter_screen(s, screen);
        let fd = filter_screen(d, screen);
        assert(forall|j: int| 0 <= j < d.len() ==> d[j] == s[j]);
        if s.last().0.screen == screen {
            assert(f == fd);
            assert(entries_map(f) =~= entries_map(s).restrict(ks)) by {
                assert(entries_map(fd) == entries_map(d).restrict(ks));
                assert(!ks.contains(s.last().0));
            }
            assert(forall|i: int|
                0 <= i < f.len() ==> exists|j: int| 0 <= j < s.len() && s[j] == #[trigger] f[i]);
        } else {
            assert(f == fd.push(s.last()));
            assert forall|i: int| 0 <= i < f.len() implies exists|j: int|
                0 <= j < s.len() && s[j] == #[trigger] f[i] by {
                if i < fd.len() {
                    let j = choose|j: int| 0 <= j < d.len() && d[j] == #[trigger] fd[i];
                    assert(s[j] == f[i]);
                } else {
                    assert(f[i] == s[s.len() - 1]);
                }
            }
            assert forall|a: int, b: int| 0 <= a < b < f.len() implies (#[trigger] f[a]).0 != (
            #[trigger] f[b]).0 by {
                if b == f.len() - 1 {
                    let j = choose|j: int| 0 <= j < d.len() && d[j] == #[trigger] fd[a];
                    assert(s[j].0 == f[a].0);
                    assert(s[s.len() - 1].0 == f[b].0);
                }
            }
            assert(f.drop_last() =~= fd);
            assert(entries_map(f) == entries_map(fd).insert(s.last().0, s.last().1));
            assert(ks.contains(s.last().0));
            assert(entries_map(d).restrict(ks).insert(s.last().0, s.last().1) =~= entries_map(
                d,
            ).insert(s.last().0, s.last().1).restrict(ks));
        }
    }
}

} // verus!
