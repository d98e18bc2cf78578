//! The list of workspace tabs that the switcher shows, one tab per i3 workspace.
//!
//! A tab is known by its workspace's name; the picture it shows is a value of
//! whatever type the front end draws with (`P`), which this module only carries.

use vstd::prelude::*;
use vstd::string::*;

verus! {

/// One workspace tab: the workspace's name and, once one was taken, its picture.
pub struct Tab<P> {
    pub name: String,
    pub picture: Option<P>,
}

/// The tabs in the order in which they are shown.
pub struct TabsList<P> {
    pub tabs_vec: Vec<Tab<P>>,
}

/// The text of an optional tab name: the empty text where there is none.
pub open spec fn label_text(name: Option<&str>) -> Seq<char> {
    match name {
        Some(n) => n@,
        None => Seq::empty(),
    }
}

/// The names of the tabs, in order.
pub open spec fn names_of<P>(tabs: Seq<Tab<P>>) -> Seq<Seq<char>> {
    tabs.map_values(|t: Tab<P>| t.name@)
}

/// `i` is the first position at which a tab is named `name`.
pub open spec fn is_first_named<P>(tabs: Seq<Tab<P>>, name: Seq<char>, i: int) -> bool {
    &&& 0 <= i < tabs.len()
    &&& tabs[i].name@ == name
    &&& forall|j: int| 0 <= j < i ==> #[trigger] tabs[j].name@ != name
}

/// Some tab is named `name`.
pub open spec fn has_tab_named<P>(tabs: Seq<Tab<P>>, name: Seq<char>) -> bool {
    exists|i: int| 0 <= i < tabs.len() && #[trigger] tabs[i].name@ == name
}

/// The first position at which a tab is named `name`, if there is one.
pub open spec fn position_of<P>(tabs: Seq<Tab<P>>, name: Seq<char>) -> Option<int> {
    if exists|i: int| is_first_named(tabs, name, i) {
        Some(choose|i: int| is_first_named(tabs, name, i))
    } else {
        None
    }
}

/// The tabs after the first one named `name`, if any, is removed.
pub open spec fn spec_removed<P>(tabs: Seq<Tab<P>>, name: Seq<char>) -> Seq<Tab<P>> {
    match position_of(tabs, name) {
        Some(i) => tabs.remove(i),
        None => tabs,
    }
}

/// The tabs after the first one named `current`, if any, is moved to the front;
/// with fewer than two tabs, or no current name, nothing moves.
pub open spec fn spec_reordered<P>(tabs: Seq<Tab<P>>, current: Option<Seq<char>>) -> Seq<Tab<P>> {
    if tabs.len() < 2 {
        tabs
    } else {
        match current {
            None => tabs,
            Some(name) => match position_of(tabs, name) {
                Some(i) => tabs.remove(i).insert(0, tabs[i]),
                None => tabs,
            },
        }
    }
}

/// The view of an optional name.
pub open spec fn opt_text(name: Option<String>) -> Option<Seq<char>> {
    match name {
        Some(n) => Some(n@),
        None => None,
    }
}

pub proof fn lemma_first_named_unique<P>(tabs: Seq<Tab<P>>, name: Seq<char>, i: int)
    requires
        is_first_named(tabs, name, i),
    ensures
        position_of(tabs, name) == Some(i),
{
    let k = choose|k: int| is_first_named(tabs, name, k);
    assert(is_first_named(tabs, name, k));
    if k < i {
        assert(tabs[k].name@ != name);
    }
    if i < k {
        assert(tabs[i].name@ != name);
    }
}

/// Moving the current workspace's tab to the front never adds, drops or
/// duplicates a tab: the tabs after are those before, in another order.
pub proof fn lemma_reorder_keeps_tabs<P>(tabs: Seq<Tab<P>>, current: Option<Seq<char>>)
    ensures
        spec_reordered(tabs, current).len() == tabs.len(),
        spec_reordered(tabs, current).to_multiset() =~= tabs.to_multiset(),
{
    broadcast use vstd::seq_lib::group_to_multiset_ensures;
    broadcast use vstd::multiset::group_multiset_axioms;
    if tabs.len() >= 2 {
        if let Some(name) = current {
            if let Some(i) = position_of(tabs, name) {
                lemma_position_is_first(tabs, name);
                let x = tabs[i];
                let rest = tabs.remove(i);
                let r = rest.insert(0, x);
                assert(r.remove(0) =~= rest);
                assert(r[0] == x);
                assert(r.to_multiset().remove(x) =~= tabs.to_multiset().remove(x));
                assert(r.contains(x));
                assert(r.to_multiset().count(x) > 0);
                assert(tabs.contains(x));
                assert(r.to_multiset() =~= r.to_multiset().remove(x).insert(x));
                assert(tabs.to_multiset() =~= tabs.to_multiset().remove(x).insert(x));
            }
        }
    }
}

/// The position found for a name is that of the first tab with that name.
pub proof fn lemma_position_is_first<P>(tabs: Seq<Tab<P>>, name: Seq<char>)
    ensures
        match position_of(tabs, name) {
            Some(i) => is_first_named(tabs, name, i),
            None => !has_tab_named(tabs, name),
        },
    decreases tabs.len(),
{
    if has_tab_named(tabs, name) {
        let k = choose|k: int| 0 <= k < tabs.len() && #[trigger] tabs[k].name@ == name;
        lemma_first_exists(tabs, name, k);
    }
}

/// Where some tab has the name, a first one has it.
proof fn lemma_first_exists<P>(tabs: Seq<Tab<P>>, name: Seq<char>, k: int)
    requires
        0 <= k < tabs.len(),
        tabs[k].name@ == name,
    ensures
        exists|i: int| is_first_named(tabs, name, i),
    decreases k,
{
    if exists|j: int| 0 <= j < k && #[trigger] tabs[j].name@ == name {
        let j = choose|j: int| 0 <= j < k && #[trigger] tabs[j].name@ == name;
        lemma_first_exists(tabs, name, j);
    } else {
        assert(is_first_named(tabs, name, k));
    }
}

/// Removing the tab of an emptied workspace takes out the first tab of that
/// name and keeps every other tab, in its order; where no tab has the name,
/// nothing changes.
pub proof fn lemma_remove_keeps_order<P>(tabs: Seq<Tab<P>>, name: Seq<char>)
    ensures
        forall|i: int| #[trigger] is_first_named(tabs, name, i) ==> {
            let r = spec_removed(tabs, name);
            &&& r.len() == tabs.len() - 1
            &&& forall|j: int| 0 <= j < i ==> r[j] == tabs[j]
            &&& forall|j: int| i <= j < tabs.len() - 1 ==> r[j] == tabs[j + 1]
        },
        !has_tab_named(tabs, name) ==> spec_removed(tabs, name) == tabs,
{
    lemma_position_is_first(tabs, name);
    assert forall|i: int| #[trigger] is_first_named(tabs, name, i) implies {
        let r = spec_removed(tabs, name);
        &&& r.len() == tabs.len() - 1
        &&& forall|j: int| 0 <= j < i ==> r[j] == tabs[j]
        &&& forall|j: int| i <= j < tabs.len() - 1 ==> r[j] == tabs[j + 1]
    } by {
        lemma_first_named_unique(tabs, name, i);
    }
}

/// Moving the tab of the workspace being left to the front takes the first
/// tab of that name out and puts it first; the tabs before it move one place
/// back and those after it stay where they are, so all others keep their
/// order. With fewer than two tabs, no tab of that name or no name, nothing
/// changes.
pub proof fn lemma_reorder_moves_one_tab<P>(tabs: Seq<Tab<P>>, name: Seq<char>)
    ensures
        forall|i: int| #[trigger] is_first_named(tabs, name, i) && tabs.len() >= 2 ==> {
            let r = spec_reordered(tabs, Some(name));
            &&& r.len() == tabs.len()
            &&& r[0] == tabs[i]
            &&& forall|j: int| 0 < j <= i ==> r[j] == tabs[j - 1]
            &&& forall|j: int| i < j < tabs.len() ==> r[j] == tabs[j]
            &&& r.subrange(1, r.len() as int) == tabs.remove(i)
        },
        (tabs.len() < 2 || !has_tab_named(tabs, name)) ==> spec_reordered(tabs, Some(name)) == tabs,
        spec_reordered(tabs, None) == tabs,
{
    lemma_position_is_first(tabs, name);
    assert forall|i: int| #[trigger] is_first_named(tabs, name, i) && tabs.len() >= 2 implies {
        let r = spec_reordered(tabs, Some(name));
        &&& r.len() == tabs.len()
        &&& r[0] == tabs[i]
        &&& forall|j: int| 0 < j <= i ==> r[j] == tabs[j - 1]
        &&& forall|j: int| i < j < tabs.len() ==> r[j] == tabs[j]
        &&& r.subrange(1, r.len() as int) == tabs.remove(i)
    } by {
        lemma_first_named_unique(tabs, name, i);
        let r = spec_reordered(tabs, Some(name));
        assert(r.subrange(1, r.len() as int) =~= tabs.remove(i));
    }
}

/// Moving the current workspace's tab to the front twice is moving it once.
pub proof fn lemma_reorder_idempotent<P>(tabs: Seq<Tab<P>>, current: Option<Seq<char>>)
    ensures
        spec_reordered(spec_reordered(tabs, current), current) == spec_reordered(tabs, current),
{
    if tabs.len() >= 2 {
        if let Some(name) = current {
            lemma_position_is_first(tabs, name);
            if let Some(i) = position_of(tabs, name) {
                let r = spec_reordered(tabs, current);
                assert(r[0] == tabs[i]);
                assert(is_first_named(r, name, 0));
                lemma_first_named_unique(r, name, 0);
                assert(r.remove(0).insert(0, r[0]) =~= r);
            }
        }
    }
}

/// After the move, the current workspace's tab is the first one, where it
/// exists and there are at least two tabs.
pub proof fn lemma_reorder_puts_current_first<P>(tabs: Seq<Tab<P>>, name: Seq<char>)
    requires
        tabs.len() >= 2,
        has_tab_named(tabs, name),
    ensures
        spec_reordered(tabs, Some(name))[0].name@ == name,
{
    lemma_position_is_first(tabs, name);
}

/// Adding a tab for a new workspace and then removing the tab of that name
/// gives back the tabs there were.
pub proof fn lemma_remove_after_add<P>(tabs: Seq<Tab<P>>, tab: Tab<P>)
    requires
        !has_tab_named(tabs, tab.name@),
    ensures
        spec_removed(tabs.push(tab), tab.name@) == tabs,
{
    let t2 = tabs.push(tab);
    assert(is_first_named(t2, tab.name@, tabs.len() as int)) by {
        assert forall|j: int| 0 <= j < tabs.len() implies #[trigger] t2[j].name@ != tab.name@ by {
            assert(t2[j] == tabs[j]);
        }
    }
    lemma_first_named_unique(t2, tab.name@, tabs.len() as int);
    assert(t2.remove(tabs.len() as int) =~= tabs);
}

/// Removing a workspace's tab drops exactly one tab where one has that name,
/// and none otherwise; no tab of another name is ever dropped.
pub proof fn lemma_remove_drops_one<P>(tabs: Seq<Tab<P>>, name: Seq<char>)
    ensures
        has_tab_named(tabs, name) ==> spec_removed(tabs, name).len() == tabs.len() - 1,
        !has_tab_named(tabs, name) ==> spec_removed(tabs, name) == tabs,
        forall|t: Tab<P>| t.name@ != name && tabs.contains(t) ==> spec_removed(tabs, name).contains(t),
{
    lemma_position_is_first(tabs, name);
    if let Some(i) = position_of(tabs, name) {
        assert forall|t: Tab<P>| t.name@ != name && tabs.contains(t) implies spec_removed(tabs, name).contains(t) by {
            let k = choose|k: int| 0 <= k < tabs.len() && tabs[k] == t;
            if k < i {
                assert(tabs.remove(i)[k] == t);
            } else {
                assert(k != i);
                assert(tabs.remove(i)[k - 1] == t);
            }
        }
    }
}

impl<P> Tab<P> {
    /// A tab with the given picture, labelled with `name` (with the empty
    /// text where there is no name).
    pub fn new(picture: Option<P>, name: Option<&str>) -> (tab: Self)
        ensures
            tab.name@ == label_text(name),
            tab.picture == picture,
    {
        let text = match name {
            Some(n) => String::from_str(n),
            None => String::new(),
        };
        Tab { name: text, picture }
    }
}

impl<P> TabsList<P> {
    /// The tab list of the workspaces that exist, in the order given, none of
    /// them with a picture yet.
    pub fn new(workspace_names: &Vec<String>) -> (tabs: Self)
        ensures
            tabs.tabs_vec@.len() == workspace_names@.len(),
            forall|i: int| 0 <= i < workspace_names@.len() ==> {
                &&& (#[trigger] tabs.tabs_vec@[i]).name@ == workspace_names@[i]@
                &&& tabs.tabs_vec@[i].picture is None
            },
    {
        let mut tabs = TabsList { tabs_vec: Vec::new() };
        let n = workspace_names.len();
        for k in 0..n
            invariant
                n == workspace_names@.len(),
                tabs.tabs_vec@.len() == k,
                forall|i: int| 0 <= i < k ==> {
                    &&& (#[trigger] tabs.tabs_vec@[i]).name@ == workspace_names@[i]@
                    &&& tabs.tabs_vec@[i].picture is None
                },
        {
            let ghost before = tabs.tabs_vec@;
            let name = &workspace_names[k];
            tabs.add_new_tab(None, name);
            assert(tabs.tabs_vec@[k as int] == tabs.tabs_vec@.last());
            assert forall|i: int| 0 <= i < k + 1 implies {
                &&& (#[trigger] tabs.tabs_vec@[i]).name@ == workspace_names@[i]@
                &&& tabs.tabs_vec@[i].picture is None
            } by {
                if i < k {
                    assert(tabs.tabs_vec@.drop_last()[i] == tabs.tabs_vec@[i]);
                    assert(before[i] == tabs.tabs_vec@[i]);
                }
            }
        }
        tabs
    }

    /// The position of the first tab named `name`.
    pub fn find_tab(&self, name: &String) -> (index: Option<usize>)
        ensures
            match index {
                Some(i) => position_of(self.tabs_vec@, name@) == Some(i as int),
                None => position_of(self.tabs_vec@, name@) is None,
            },
            index is None <==> !has_tab_named(self.tabs_vec@, name@),
    {
        let n = self.tabs_vec.len();
        for k in 0..n
            invariant
                n == self.tabs_vec@.len(),
                forall|j: int| 0 <= j < k ==> #[trigger] self.tabs_vec@[j].name@ != name@,
        {
            if self.tabs_vec[k].name == *name {
                proof {
                    assert(is_first_named(self.tabs_vec@, name@, k as int));
                    lemma_first_named_unique(self.tabs_vec@, name@, k as int);
                }
                return Some(k);
            }
        }
        proof {
            assert(!has_tab_named(self.tabs_vec@, name@));
            assert(!exists|i: int| is_first_named(self.tabs_vec@, name@, i));
        }
        None
    }

    /// Adds a tab named `name` with the given picture after the others.
    pub fn add_new_tab(&mut self, picture: Option<P>, name: &String)
        ensures
            final(self).tabs_vec@.len() == old(self).tabs_vec@.len() + 1,
            final(self).tabs_vec@.drop_last() == old(self).tabs_vec@,
            final(self).tabs_vec@.last().name@ == name@,
            final(self).tabs_vec@.last().picture == picture,
    {
        let tab = Tab::new(picture, Some(name.as_str()));
        self.tabs_vec.push(tab);
        assert(self.tabs_vec@.drop_last() =~= old(self).tabs_vec@);
    }

    /// Removes the first tab named `name`; does nothing where there is none.
    pub fn remove_tab(&mut self, name: &String)
        ensures
            final(self).tabs_vec@ == spec_removed(old(self).tabs_vec@, name@),
            forall|i: int| #[trigger] is_first_named(old(self).tabs_vec@, name@, i)
                ==> final(self).tabs_vec@ == old(self).tabs_vec@.remove(i),
            !has_tab_named(old(self).tabs_vec@, name@) ==> final(self).tabs_vec@ == old(self).tabs_vec@,
    {
        proof {
            lemma_position_is_first(self.tabs_vec@, name@);
            assert forall|i: int| #[trigger] is_first_named(old(self).tabs_vec@, name@, i)
                implies position_of(old(self).tabs_vec@, name@) == Some(i) by {
                lemma_first_named_unique(old(self).tabs_vec@, name@, i);
            }
        }
        match self.find_tab(name) {
            Some(index) => {
                self.tabs_vec.remove(index);
            },
            None => {},
        }
    }
    /// Gives the first tab named `name` the picture `img`. Returns whether the
    /// tabs must be drawn again, which is whenever a picture was given, also
    /// where no tab has that name.
    pub fn set_image(&mut self, name: String, img: Option<P>) -> (rerender: bool)
        ensures
            rerender == img is Some,
            names_of(final(self).tabs_vec@) == names_of(old(self).tabs_vec@),
            forall|i: int| img is Some && #[trigger] is_first_named(old(self).tabs_vec@, name@, i) ==> {
                &&& final(self).tabs_vec@.len() == old(self).tabs_vec@.len()
                &&& final(self).tabs_vec@[i].picture == img
                &&& final(self).tabs_vec@[i].name@ == name@
                &&& forall|j: int| 0 <= j < old(self).tabs_vec@.len() && j != i
                    ==> final(self).tabs_vec@[j] == old(self).tabs_vec@[j]
            },
            (img is None || !has_tab_named(old(self).tabs_vec@, name@))
                ==> final(self).tabs_vec@ == old(self).tabs_vec@,
            match (img, position_of(old(self).tabs_vec@, name@)) {
                (Some(pic), Some(i)) => {
                    &&& final(self).tabs_vec@.len() == old(self).tabs_vec@.len()
                    &&& final(self).tabs_vec@[i].name@ == name@
                    &&& final(self).tabs_vec@[i].picture == Some(pic)
                    &&& forall|j: int| 0 <= j < old(self).tabs_vec@.len() && j != i
                        ==> #[trigger] final(self).tabs_vec@[j] == old(self).tabs_vec@[j]
                },
                _ => final(self).tabs_vec@ == old(self).tabs_vec@,
            },
    {
        proof {
            lemma_position_is_first(self.tabs_vec@, name@);
            assert forall|i: int| #[trigger] is_first_named(old(self).tabs_vec@, name@, i)
                implies position_of(old(self).tabs_vec@, name@) == Some(i) by {
                lemma_first_named_unique(old(self).tabs_vec@, name@, i);
            }
        }
        match img {
            Some(pic) => {
                match self.find_tab(&name) {
                    Some(i) => {
                        proof {
                            lemma_position_is_first(self.tabs_vec@, name@);
                        }
                        let tab = Tab::new(Some(pic), Some(name.as_str()));
                        self.tabs_vec.set(i, tab);
                        assert(names_of(self.tabs_vec@) =~= names_of(old(self).tabs_vec@));
                    },
                    None => {},
                }
                true
            },
            None => false,
        }
    }

    /// Moves the first tab named `current` to the front, so that the workspace
    /// left last comes first. Does nothing with fewer than two tabs or without a
    /// current name. Returns whether the tabs must be drawn again, which is when
    /// a tab was found.
    pub fn reorder_prev_first(&mut self, current: &Option<String>) -> (rerender: bool)
        ensures
            final(self).tabs_vec@ == spec_reordered(old(self).tabs_vec@, opt_text(*current)),
            forall|i: int| opt_text(*current) is Some
                && #[trigger] is_first_named(old(self).tabs_vec@, opt_text(*current).unwrap(), i)
                && old(self).tabs_vec@.len() >= 2 ==> {
                &&& final(self).tabs_vec@.len() == old(self).tabs_vec@.len()
                &&& final(self).tabs_vec@[0] == old(self).tabs_vec@[i]
                &&& final(self).tabs_vec@.subrange(1, final(self).tabs_vec@.len() as int)
                    == old(self).tabs_vec@.remove(i)
            },
            (old(self).tabs_vec@.len() < 2 || opt_text(*current) is None
                || !has_tab_named(old(self).tabs_vec@, opt_text(*current).unwrap()))
                ==> final(self).tabs_vec@ == old(self).tabs_vec@,
            rerender == (old(self).tabs_vec@.len() >= 2 && match opt_text(*current) {
                Some(n) => position_of(old(self).tabs_vec@, n) is Some,
                None => false,
            }),
    {
        proof {
            if let Some(n) = current {
                lemma_reorder_moves_one_tab(self.tabs_vec@, n@);
            }
        }
        if self.tabs_vec.len() < 2 {
            return false;
        }
        match current {
            Some(name) => {
                match self.find_tab(name) {
                    Some(index) => {
                        let ghost before = self.tabs_vec@;
                        let tab = self.tabs_vec.remove(index);
                        self.tabs_vec.insert(0, tab);
                        assert(self.tabs_vec@ =~= before.remove(index as int).insert(0, before[index as int]));
                        true
                    },
                    None => false,
                }
            },
            None => false,
        }
    }
}

} // verus!
