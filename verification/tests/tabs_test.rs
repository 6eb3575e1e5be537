use debugger_core::cui::tabs::{tab_switch_action, Action, AppState, TabVariant, Tabs};

fn row() -> Tabs {
    Tabs::new(
        "main-tabs",
        "views",
        vec![
            TabVariant::new("source", tab_switch_action("variables", "source")),
            TabVariant::contextual(
                "variables",
                tab_switch_action("source", "variables"),
                AppState::DebugeeBreak,
            ),
            TabVariant::new("", vec![]),
            TabVariant::new("Ärger", vec![Action::ShowComponent("trouble")]),
        ],
    )
}

#[test]
fn switching_tabs_leaves_one_component_and_enters_the_other() {
    assert_eq!(
        tab_switch_action("left", "right"),
        vec![
            Action::DeActivateComponent("left"),
            Action::HideComponent("left"),
            Action::ActivateComponent("right"),
            Action::ShowComponent("right"),
        ]
    );
}

#[test]
fn the_title_of_a_tab_is_in_upper_case() {
    let tab = TabVariant::new("source", vec![]);
    assert_eq!(tab.title_text(), "SOURCE");
    assert_eq!(tab.active_state(), None);
    let tab = TabVariant::contextual("straße", vec![], AppState::DebugeeRun);
    assert_eq!(tab.title_text(), "STRASSE");
    assert_eq!(tab.active_state(), Some(AppState::DebugeeRun));
}

#[test]
fn a_tab_bound_to_a_state_is_open_in_that_state_only() {
    let free = TabVariant::new("a", vec![]);
    assert!(free.is_open_in(AppState::Initial));
    assert!(free.is_open_in(AppState::DebugeeBreak));
    let bound = TabVariant::contextual("b", vec![], AppState::DebugeeBreak);
    assert!(bound.is_open_in(AppState::DebugeeBreak));
    assert!(!bound.is_open_in(AppState::Initial));
    assert!(!bound.is_open_in(AppState::DebugeeRun));
    assert!(!bound.is_open_in(AppState::UserInput));
}

#[test]
fn a_new_row_has_its_first_tab_active() {
    let tabs = row();
    assert_eq!(tabs.active_tab(), 0);
    assert_eq!(tabs.len(), 4);
    assert_eq!(tabs.name(), "main-tabs");
    assert_eq!(tabs.title(), "views");
    assert_eq!(tabs.tab(1).title_text(), "VARIABLES");
}

#[test]
fn the_first_letter_in_lower_case_selects_a_tab() {
    let tabs = row();
    assert_eq!(tabs.tab_of_key('s'), Some(0));
    assert_eq!(tabs.tab_of_key('v'), Some(1));
    assert_eq!(tabs.tab_of_key('ä'), Some(3));
    assert_eq!(tabs.tab_of_key('S'), None);
    assert_eq!(tabs.tab_of_key('V'), None);
    assert_eq!(tabs.tab_of_key('o'), None);
    assert_eq!(tabs.tab_of_key(' '), None);
}

#[test]
fn of_two_tabs_with_one_key_the_later_is_selected() {
    let tabs = Tabs::new(
        "t",
        "t",
        vec![
            TabVariant::new("source", vec![]),
            TabVariant::new("symbols", vec![]),
            TabVariant::new("other", vec![]),
        ],
    );
    assert_eq!(tabs.tab_of_key('s'), Some(1));
    assert_eq!(tabs.tab_of_key('o'), Some(2));
}

#[test]
fn a_key_selects_its_tab_and_gives_what_the_tab_asks_for() {
    let mut tabs = row();
    let actions = tabs.handle_user_event('ä', AppState::Initial);
    assert_eq!(actions, vec![Action::ShowComponent("trouble")]);
    assert_eq!(tabs.active_tab(), 3);
    let actions = tabs.handle_user_event('s', AppState::Initial);
    assert_eq!(actions, tab_switch_action("variables", "source"));
    assert_eq!(tabs.active_tab(), 0);
}

#[test]
fn a_tab_bound_to_another_state_is_not_selected() {
    let mut tabs = row();
    assert!(tabs.handle_user_event('v', AppState::DebugeeRun).is_empty());
    assert_eq!(tabs.active_tab(), 0);
    let actions = tabs.handle_user_event('v', AppState::DebugeeBreak);
    assert_eq!(actions, tab_switch_action("source", "variables"));
    assert_eq!(tabs.active_tab(), 1);
}

#[test]
fn a_key_of_no_tab_changes_nothing() {
    let mut tabs = row();
    tabs.handle_user_event('v', AppState::DebugeeBreak);
    assert!(tabs.handle_user_event('x', AppState::DebugeeBreak).is_empty());
    assert!(tabs.handle_user_event('S', AppState::DebugeeBreak).is_empty());
    assert_eq!(tabs.active_tab(), 1);
    let mut none = Tabs::new("t", "t", vec![]);
    assert!(none.handle_user_event('a', AppState::Initial).is_empty());
    assert_eq!(none.active_tab(), 0);
}
