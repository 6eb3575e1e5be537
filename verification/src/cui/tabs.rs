//! A row of tabs: which tab a key selects, and what selecting it asks for.

use std::collections::HashMap;
use vstd::prelude::*;
use vstd::string::*;

verus! {

/// What state the application is in.
#[derive(Clone, Copy, Debug, PartialEq, Eq, Structural)]
pub enum AppState {
    Initial,
    DebugeeRun,
    DebugeeBreak,
    UserInput,
}

/// What a component asks the window to do with the component of a name.
#[derive(Clone, Copy, Debug, PartialEq, Eq)]
pub enum Action {
    ActivateComponent(&'static str),
    DeActivateComponent(&'static str),
    ShowComponent(&'static str),
    HideComponent(&'static str),
}

/// The actions that switch from the component `from` to the component `to`.
pub fn tab_switch_action(from: &'static str, to: &'static str) -> (r: Vec<Action>)
    ensures
        r@ == seq![
            Action::DeActivateComponent(from),
            Action::HideComponent(from),
            Action::ActivateComponent(to),
            Action::ShowComponent(to),
        ],
{
    let mut actions: Vec<Action> = Vec::new();
    actions.push(Action::DeActivateComponent(from));
    actions.push(Action::HideComponent(from));
    actions.push(Action::ActivateComponent(to));
    actions.push(Action::ShowComponent(to));
    actions
}

/// A text in upper case.
pub uninterp spec fn uppercase_of(text: Seq<char>) -> Seq<char>;

/// A character in lower case; this may be more than one character, or none.
pub uninterp spec fn lowercase_of(c: char) -> Seq<char>;

/// Calls `str::to_uppercase`. The contract claims only that the result is a
/// function of the text.
#[verifier::external_body]
fn uppercased(text: &str) -> (r: String)
    ensures
        r@ == uppercase_of(text@),
{
    text.to_uppercase()
}

/// Calls `char::to_lowercase` and writes out what it yields. The contract
/// claims only that the result is a function of the character.
#[verifier::external_body]
fn lowercased(c: char) -> (r: String)
    ensures
        r@ == lowercase_of(c),
{
    format!("{}", c.to_lowercase())
}

/// The key that selects a tab of the title `title`: its first character in
/// lower case. A tab without a title has no key.
pub open spec fn hot_key(title: Seq<char>) -> Option<char> {
    if title.len() == 0 {
        None
    } else if lowercase_of(title[0]).len() > 0 {
        Some(lowercase_of(title[0])[0])
    } else {
        Some(title[0])
    }
}

/// One tab.
#[derive(Debug)]
pub struct TabVariant {
    title: String,
    active_state: Option<AppState>,
    on_select: Vec<Action>,
}

impl TabVariant {
    /// The title, in upper case.
    pub closed spec fn title(&self) -> Seq<char> {
        self.title@
    }

    /// The state in which alone the tab can be selected, if it is bound to one.
    pub closed spec fn state(&self) -> Option<AppState> {
        self.active_state
    }

    /// What selecting the tab asks for.
    pub closed spec fn actions(&self) -> Seq<Action> {
        self.on_select@
    }

    /// A tab that can be selected in every state.
    pub fn new(title: &str, on_select: Vec<Action>) -> (r: TabVariant)
        ensures
            r.title() == uppercase_of(title@),
            r.state() is None,
            r.actions() == on_select@,
    {
        TabVariant { title: uppercased(title), on_select, active_state: None }
    }

    /// A tab that can be selected in the state `state` only.
    pub fn contextual(title: &str, on_select: Vec<Action>, state: AppState) -> (r: TabVariant)
        ensures
            r.title() == uppercase_of(title@),
            r.state() == Some(state),
            r.actions() == on_select@,
    {
        TabVariant { title: uppercased(title), on_select, active_state: Some(state) }
    }

    pub fn title_text(&self) -> (r: &str)
        ensures
            r@ == self.title(),
    {
        self.title.as_str()
    }

    pub fn active_state(&self) -> (r: Option<AppState>)
        ensures
            r == self.state(),
    {
        self.active_state
    }

    /// Whether the tab can be selected in the state `state`.
    pub open spec fn open_in(&self, state: AppState) -> bool {
        match self.state() {
            Some(expected) => expected == state,
            None => true,
        }
    }

    #[verifier::when_used_as_spec(open_in)]
    pub fn is_open_in(&self, state: AppState) -> (r: bool)
        ensures
            r == self.open_in(state),
    {
        match self.active_state {
            Some(expected) => expected == state,
            None => true,
        }
    }
}

/// The tab that the key `key` selects among the first `upto` tabs: of
/// several tabs with that key the last one.
pub open spec fn tab_for(tabs: Seq<TabVariant>, key: char, upto: int) -> Option<int>
    decreases upto,
{
    if upto <= 0 || upto > tabs.len() {
        None
    } else if hot_key(tabs[upto - 1].title()) == Some(key) {
        Some(upto - 1)
    } else {
        tab_for(tabs, key, upto - 1)
    }
}

/// The tab that a key selects is one of the tabs.
pub proof fn lemma_tab_in_range(tabs: Seq<TabVariant>, key: char, upto: int)
    ensures
        tab_for(tabs, key, upto) matches Some(i) ==> 0 <= i < tabs.len() && i < upto,
    decreases upto,
{
    if 0 < upto <= tabs.len() && hot_key(tabs[upto - 1].title()) != Some(key) {
        lemma_tab_in_range(tabs, key, upto - 1);
    }
}

/// `keys` holds, for every key, the tab that it selects among the first
/// `upto` tabs.
pub open spec fn keys_of(keys: Map<u32, usize>, tabs: Seq<TabVariant>, upto: int) -> bool {
    forall|key: char|
        match tab_for(tabs, key, upto) {
            Some(i) => keys.contains_key(#[trigger] (key as u32)) && keys[key as u32] == i,
            None => !keys.contains_key(key as u32),
        }
}

/// A row of tabs of which one is active.
///
/// The tab of every key stands in a hash map. The map is keyed by the number
/// of the key's character: what a hash map does is known for integer keys,
/// not for characters.
#[derive(Debug)]
pub struct Tabs {
    name: &'static str,
    title: &'static str,
    tabs: Vec<TabVariant>,
    active_tab: usize,
    /// The tab of every key, by the number of the key's character.
    hot_keys: HashMap<u32, usize>,
}

impl Tabs {
    pub closed spec fn tabs(&self) -> Seq<TabVariant> {
        self.tabs@
    }

    /// The tab that is active, as an index of the tabs.
    pub closed spec fn active(&self) -> usize {
        self.active_tab
    }

    /// The tab of every key, by the number of the key's character.
    pub closed spec fn keys(&self) -> Map<u32, usize> {
        self.hot_keys@
    }

    /// The name under which the window knows the row.
    pub closed spec fn component(&self) -> &'static str {
        self.name
    }

    /// The heading over the row.
    pub closed spec fn heading(&self) -> &'static str {
        self.title
    }

    /// The record of keys holds, for every key, the tab that it selects.
    pub open spec fn wf(&self) -> bool {
        keys_of(self.keys(), self.tabs(), self.tabs().len() as int)
    }

    /// A row of the given tabs; the first one is active.
    pub fn new(name: &'static str, title: &'static str, tabs: Vec<TabVariant>) -> (r: Tabs)
        ensures
            r.wf(),
            r.tabs() == tabs@,
            r.active() == 0,
            r.component() == name,
            r.heading() == title,
    {
        broadcast use vstd::std_specs::hash::group_hash_axioms;

        let mut hot_keys: HashMap<u32, usize> = HashMap::new();
        let mut i: usize = 0;
        while i < tabs.len()
            invariant
                i <= tabs@.len(),
                keys_of(hot_keys@, tabs@, i as int),
            decreases tabs.len() - i,
        {
            let ghost before = hot_keys@;
            let title = tabs[i].title.as_str();
            if title.unicode_len() > 0 {
                let first = title.get_char(0);
                let lower = lowercased(first);
                let key = if lower.as_str().unicode_len() > 0 {
                    lower.as_str().get_char(0)
                } else {
                    first
                };
                assert(hot_key(tabs@[i as int].title()) == Some(key));
                hot_keys.insert(key as u32, i);
                assert forall|c: char|
                    match tab_for(tabs@, c, i + 1) {
                        Some(t) => hot_keys@.contains_key(#[trigger] (c as u32)) && hot_keys@[c as u32]
                            == t,
                        None => !hot_keys@.contains_key(c as u32),
                    } by {
                    assert(before.contains_key(c as u32) || !before.contains_key(c as u32));
                    if c != key {
                        assert(c as u32 != key as u32);
                    }
                }
            } else {
                assert(hot_key(tabs@[i as int].title()) is None);
            }
            i += 1;
        }
        Tabs { name, title, tabs, active_tab: 0, hot_keys }
    }

    /// The name of the component.
    pub fn name(&self) -> (r: &'static str)
        ensures
            r == self.component(),
    {
        self.name
    }

    /// The heading of the row.
    pub fn title(&self) -> (r: &'static str)
        ensures
            r == self.heading(),
    {
        self.title
    }

    pub fn active_tab(&self) -> (r: usize)
        ensures
            r == self.active(),
    {
        self.active_tab
    }

    pub fn len(&self) -> (r: usize)
        ensures
            r == self.tabs().len(),
    {
        self.tabs.len()
    }

    pub fn tab(&self, index: usize) -> (r: &TabVariant)
        requires
            index < self.tabs().len(),
        ensures
            *r == self.tabs()[index as int],
    {
        &self.tabs[index]
    }

    /// The tab that the key `key` selects, if there is one.
    pub fn tab_of_key(&self, key: char) -> (r: Option<usize>)
        requires
            self.wf(),
        ensures
            r is Some == tab_for(self.tabs(), key, self.tabs().len() as int) is Some,
            r matches Some(i) ==> tab_for(self.tabs(), key, self.tabs().len() as int) == Some(
                i as int,
            ) && i < self.tabs().len(),
    {
        broadcast use vstd::std_specs::hash::group_hash_axioms;

        let code = key as u32;
        match self.hot_keys.get(&code) {
            Some(index) => {
                proof {
                    lemma_tab_in_range(self.tabs(), key, self.tabs().len() as int);
                }
                Some(*index)
            },
            None => None,
        }
    }

    /// Takes a key that the user pressed. Where the key selects a tab that
    /// can be selected in the state `state`, that tab becomes active and
    /// what it asks for is given; any other key changes nothing and asks
    /// for nothing.
    pub fn handle_user_event(&mut self, key: char, state: AppState) -> (r: Vec<Action>)
        requires
            old(self).wf(),
        ensures
            final(self).wf(),
            final(self).tabs() == old(self).tabs(),
            final(self).component() == old(self).component(),
            final(self).heading() == old(self).heading(),
            match tab_for(old(self).tabs(), key, old(self).tabs().len() as int) {
                Some(i) => if old(self).tabs()[i].open_in(state) {
                    final(self).active() == i && r@ == old(self).tabs()[i].actions()
                } else {
                    final(self).active() == old(self).active() && r@.len() == 0
                },
                None => final(self).active() == old(self).active() && r@.len() == 0,
            },
    {
        match self.tab_of_key(key) {
            Some(index) => {
                if self.tabs[index].is_open_in(state) {
                    self.active_tab = index;
                    let wanted = &self.tabs[index].on_select;
                    let mut actions: Vec<Action> = Vec::new();
                    let mut k: usize = 0;
                    while k < wanted.len()
                        invariant
                            k <= wanted@.len(),
                            actions@ == wanted@.take(k as int),
                        decreases wanted.len() - k,
                    {
                        actions.push(wanted[k]);
                        assert(wanted@.take(k as int).push(wanted@[k as int]) =~= wanted@.take(
                            k + 1,
                        ));
                        k += 1;
                    }
                    assert(wanted@.take(wanted@.len() as int) =~= wanted@);
                    actions
                } else {
                    Vec::new()
                }
            },
            None => Vec::new(),
        }
    }
}

} // verus!
