use rayday::app_state::{Input, InputMode, TabsState};

#[test]
fn input_stack_starts_in_normal_mode() {
    let input = Input::new();
    assert_eq!(input.get(), Some(InputMode::Normal));
}

#[test]
fn store_and_restore_nest_modes() {
    let mut input = Input::new();
    input.store(InputMode::Select);
    assert_eq!(input.get(), Some(InputMode::Select));
    input.store(InputMode::Input);
    assert_eq!(input.get(), Some(InputMode::Input));
    input.restore();
    assert_eq!(input.get(), Some(InputMode::Select));
    input.restore();
    assert_eq!(input.get(), Some(InputMode::Normal));
}

#[test]
fn restore_below_the_bottom_leaves_the_stack_empty() {
    let mut input = Input::new();
    input.restore();
    assert_eq!(input.get(), None);
    input.restore();
    assert_eq!(input.get(), None);
}

#[test]
fn tabs_next_wraps_past_the_last_title() {
    let mut tabs = TabsState::new(vec![String::from("Calendar"), String::from("Todos")]);
    assert_eq!(tabs.index, 0);
    tabs.next();
    assert_eq!(tabs.index, 1);
    tabs.next();
    assert_eq!(tabs.index, 0);
}

#[test]
fn tabs_previous_wraps_before_the_first_title() {
    let mut tabs = TabsState::new(vec![String::from("Calendar"), String::from("Todos")]);
    tabs.previous();
    assert_eq!(tabs.index, 1);
    tabs.previous();
    assert_eq!(tabs.index, 0);
}
