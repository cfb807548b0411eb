use breadboard::app::{App, Selection};
use breadboard::dispatch::{
    handle_action, handle_back, handle_delete, handle_edit, handle_enter_connect_mode,
    handle_enter_edit_mode, handle_enter_open_mode, handle_filter, handle_new_affordance,
    handle_new_place, handle_remove_connection, handle_save, handle_select, navigate_down,
    navigate_left, navigate_right, navigate_up, selection_above, selection_below, selection_left,
    selection_right, Effect,
};
use breadboard::input::{Action, Mode};
use breadboard::picker::Pick;

fn is_nothing(effect: &Effect) -> bool {
    matches!(effect, Effect::Nothing)
}

fn act(app: &mut App, action: Action) {
    let effect = handle_action(app, action);
    assert!(is_nothing(&effect));
}

fn type_text(app: &mut App, text: &str) {
    act(app, Action::Edit(text.to_string()));
}

/// Places A(1), B(2), C(3); A holds affordance 1, which leads to B.
fn abc() -> App {
    let mut app = App::new();
    app.new_place("A".to_string());
    app.new_place("B".to_string());
    app.new_place("C".to_string());
    app.breadboard.create_affordance(1, "go".to_string());
    app.breadboard.set_connection(1, 1, Some(2));
    app
}

fn place_ids(app: &App) -> Vec<u32> {
    app.breadboard.places.iter().map(|p| p.id).collect()
}

#[test]
fn select_follows_a_connection_and_back_returns() {
    let mut app = abc();
    app.state.selection = Some(Selection::Affordance { place_id: 1, affordance_id: 1 });
    act(&mut app, Action::Select);
    assert_eq!(app.state.selection, Some(Selection::Place(2)));
    assert_eq!(app.state.navigation_trail, vec![1]);
    act(&mut app, Action::Back);
    assert_eq!(app.state.selection, Some(Selection::Place(1)));
    assert!(app.state.navigation_trail.is_empty());
    act(&mut app, Action::Back);
    assert_eq!(app.state.selection, Some(Selection::Place(1)));
    assert!(app.state.navigation_trail.is_empty());
}

#[test]
fn deleting_a_place_leaves_connections_into_it() {
    let mut app = abc();
    app.state.selection = Some(Selection::Place(2));
    app.state.navigation_trail.push(2);
    act(&mut app, Action::Delete);
    assert_eq!(place_ids(&app), vec![1, 3]);
    assert_eq!(app.breadboard.places[0].affordances[0].connects_to, Some(2));
    assert_eq!(app.state.selection, None);
    assert_eq!(app.state.navigation_trail, vec![2]);
    assert!(app.breadboard.find_place(&2).is_none());
}

#[test]
fn the_connection_pick_keeps_the_sentinel_under_every_query() {
    let mut app = abc();
    app.state.selection = Some(Selection::Affordance { place_id: 1, affordance_id: 1 });
    act(&mut app, Action::EnterConnectMode);
    assert_eq!(app.state.mode, Mode::Connect);
    assert_eq!(app.state.connection_picker.query, "");
    assert_eq!(
        app.state.connection_picker.results,
        vec![Pick::Sentinel, Pick::Item(1), Pick::Item(2), Pick::Item(3)]
    );
    assert_eq!(app.state.connection_picker.selected_index, Some(0));
    type_text(&mut app, "b");
    assert_eq!(app.state.connection_picker.results, vec![Pick::Sentinel, Pick::Item(2)]);
    assert_eq!(app.state.connection_picker.selected_index, Some(0));
}

#[test]
fn following_a_dangling_connection_selects_the_missing_place() {
    let mut app = abc();
    app.breadboard.remove_place(2);
    app.state.selection = Some(Selection::Affordance { place_id: 1, affordance_id: 1 });
    act(&mut app, Action::Select);
    assert_eq!(app.state.selection, Some(Selection::Place(2)));
    assert_eq!(app.state.navigation_trail, vec![1]);
    assert!(app.get_selected_place().is_none());
}

#[test]
fn select_on_a_place_or_on_nothing_does_nothing() {
    let mut app = abc();
    app.state.selection = Some(Selection::Place(1));
    act(&mut app, Action::Select);
    assert_eq!(app.state.selection, Some(Selection::Place(1)));
    app.state.selection = None;
    act(&mut app, Action::Select);
    assert_eq!(app.state.selection, None);
    app.breadboard.create_affordance(1, "nowhere".to_string());
    app.state.selection = Some(Selection::Affordance { place_id: 1, affordance_id: 2 });
    act(&mut app, Action::Select);
    assert_eq!(app.state.selection, Some(Selection::Affordance { place_id: 1, affordance_id: 2 }));
    assert!(app.state.navigation_trail.is_empty());
}

#[test]
fn vertical_movement_walks_the_hierarchy() {
    let mut app = abc();
    app.breadboard.create_affordance(1, "second".to_string());
    act(&mut app, Action::NavigateDown);
    assert_eq!(app.state.selection, Some(Selection::Place(1)));
    act(&mut app, Action::NavigateDown);
    assert_eq!(app.state.selection, Some(Selection::Affordance { place_id: 1, affordance_id: 1 }));
    act(&mut app, Action::NavigateDown);
    assert_eq!(app.state.selection, Some(Selection::Affordance { place_id: 1, affordance_id: 2 }));
    act(&mut app, Action::NavigateDown);
    assert_eq!(app.state.selection, Some(Selection::Affordance { place_id: 1, affordance_id: 2 }));
    act(&mut app, Action::NavigateUp);
    assert_eq!(app.state.selection, Some(Selection::Affordance { place_id: 1, affordance_id: 1 }));
    act(&mut app, Action::NavigateUp);
    assert_eq!(app.state.selection, Some(Selection::Place(1)));
    act(&mut app, Action::NavigateUp);
    assert_eq!(app.state.selection, Some(Selection::Place(1)));
}

#[test]
fn vertical_movement_falls_back_to_the_list_of_places() {
    let mut app = abc();
    app.state.selection = Some(Selection::Place(2));
    act(&mut app, Action::NavigateDown);
    assert_eq!(app.state.selection, Some(Selection::Place(3)));
    act(&mut app, Action::NavigateDown);
    assert_eq!(app.state.selection, Some(Selection::Place(3)));
    act(&mut app, Action::NavigateUp);
    assert_eq!(app.state.selection, Some(Selection::Place(2)));
    act(&mut app, Action::NavigateUp);
    assert_eq!(app.state.selection, Some(Selection::Place(1)));
}

#[test]
fn movement_from_nothing_selects_the_first_place() {
    for action in [
        Action::NavigateUp,
        Action::NavigateDown,
        Action::NavigateLeft,
        Action::NavigateRight,
    ] {
        let mut app = abc();
        handle_action(&mut app, action.clone());
        assert_eq!(app.state.selection, Some(Selection::Place(1)));
        let mut empty = App::new();
        handle_action(&mut empty, action);
        assert_eq!(empty.state.selection, None);
    }
}

#[test]
fn movement_from_a_selection_that_is_gone_stays() {
    let app = abc();
    let gone = Some(Selection::Place(9));
    assert_eq!(selection_above(&app.breadboard, gone), gone);
    assert_eq!(selection_below(&app.breadboard, gone), gone);
    assert_eq!(selection_left(&app.breadboard, gone), gone);
    assert_eq!(selection_right(&app.breadboard, gone), gone);
    let lost = Some(Selection::Affordance { place_id: 1, affordance_id: 9 });
    assert_eq!(selection_above(&app.breadboard, lost), lost);
    assert_eq!(selection_below(&app.breadboard, lost), lost);
    assert_eq!(selection_right(&app.breadboard, lost), Some(Selection::Place(2)));
}

#[test]
fn horizontal_movement_stops_at_the_ends() {
    let mut app = abc();
    app.state.selection = Some(Selection::Affordance { place_id: 1, affordance_id: 1 });
    navigate_left(&mut app);
    assert_eq!(app.state.selection, Some(Selection::Affordance { place_id: 1, affordance_id: 1 }));
    navigate_right(&mut app);
    assert_eq!(app.state.selection, Some(Selection::Place(2)));
    navigate_right(&mut app);
    assert_eq!(app.state.selection, Some(Selection::Place(3)));
    navigate_right(&mut app);
    assert_eq!(app.state.selection, Some(Selection::Place(3)));
    navigate_left(&mut app);
    navigate_left(&mut app);
    navigate_left(&mut app);
    assert_eq!(app.state.selection, Some(Selection::Place(1)));
}

#[test]
fn movement_in_a_pick_moves_its_cursor() {
    let mut app = abc();
    app.state.selection = Some(Selection::Affordance { place_id: 1, affordance_id: 1 });
    handle_enter_connect_mode(&mut app);
    navigate_up(&mut app);
    assert_eq!(app.state.connection_picker.selected_index, Some(0));
    for expected in [1, 2, 3, 3] {
        navigate_down(&mut app);
        assert_eq!(app.state.connection_picker.selected_index, Some(expected));
    }
    navigate_up(&mut app);
    assert_eq!(app.state.connection_picker.selected_index, Some(2));
    assert_eq!(app.state.selection, Some(Selection::Affordance { place_id: 1, affordance_id: 1 }));
}

#[test]
fn committing_a_connection_sets_it_and_leaves_the_mode() {
    let mut app = abc();
    app.state.selection = Some(Selection::Affordance { place_id: 1, affordance_id: 1 });
    act(&mut app, Action::EnterConnectMode);
    type_text(&mut app, "c");
    act(&mut app, Action::NavigateDown);
    act(&mut app, Action::Select);
    assert_eq!(app.state.mode, Mode::Navigate);
    assert_eq!(app.breadboard.places[0].affordances[0].connects_to, Some(3));
    assert!(app.state.connection_picker.results.is_empty());
    assert_eq!(app.state.connection_picker.query, "");
    assert_eq!(app.state.connection_picker.selected_index, None);
}

#[test]
fn committing_the_sentinel_removes_the_connection() {
    let mut app = abc();
    app.state.selection = Some(Selection::Affordance { place_id: 1, affordance_id: 1 });
    act(&mut app, Action::EnterConnectMode);
    act(&mut app, Action::Select);
    assert_eq!(app.state.mode, Mode::Navigate);
    assert_eq!(app.breadboard.places[0].affordances[0].connects_to, None);
}

#[test]
fn cancelling_a_connection_changes_nothing() {
    let mut app = abc();
    app.state.selection = Some(Selection::Affordance { place_id: 1, affordance_id: 1 });
    act(&mut app, Action::EnterConnectMode);
    act(&mut app, Action::NavigateDown);
    act(&mut app, Action::Back);
    assert_eq!(app.state.mode, Mode::Navigate);
    assert_eq!(app.breadboard.places[0].affordances[0].connects_to, Some(2));
    assert!(app.state.connection_picker.results.is_empty());
}

#[test]
fn connect_mode_needs_a_selected_affordance() {
    let mut app = abc();
    act(&mut app, Action::EnterConnectMode);
    assert_eq!(app.state.mode, Mode::Navigate);
    app.state.selection = Some(Selection::Place(1));
    act(&mut app, Action::EnterConnectMode);
    assert_eq!(app.state.mode, Mode::Navigate);
    assert!(app.state.connection_picker.results.is_empty());
}

#[test]
fn editing_renames_the_selected_place() {
    let mut app = abc();
    app.state.selection = Some(Selection::Place(2));
    act(&mut app, Action::EnterEditMode);
    assert_eq!(app.state.mode, Mode::Edit);
    assert_eq!(app.state.edit_buffer, "B");
    type_text(&mut app, "e");
    type_text(&mut app, "x");
    type_text(&mut app, "backspace");
    type_text(&mut app, "left");
    type_text(&mut app, "home");
    type_text(&mut app, "");
    type_text(&mut app, "e");
    assert_eq!(app.state.edit_buffer, "Bee");
    act(&mut app, Action::Select);
    assert_eq!(app.state.mode, Mode::Navigate);
    assert_eq!(app.state.edit_buffer, "");
    assert_eq!(app.breadboard.places[1].name, "Bee");
    assert_eq!(app.breadboard.places[0].name, "A");
}

#[test]
fn editing_renames_the_selected_affordance() {
    let mut app = abc();
    app.state.selection = Some(Selection::Affordance { place_id: 1, affordance_id: 1 });
    act(&mut app, Action::EnterEditMode);
    assert_eq!(app.state.edit_buffer, "go");
    type_text(&mut app, "delete");
    type_text(&mut app, "delete");
    type_text(&mut app, "delete");
    type_text(&mut app, "backspace");
    assert_eq!(app.state.edit_buffer, "");
    type_text(&mut app, "run");
    act(&mut app, Action::Select);
    assert_eq!(app.breadboard.places[0].affordances[0].name, "run");
    assert_eq!(app.breadboard.places[0].affordances[0].connects_to, Some(2));
    assert_eq!(app.breadboard.places[0].name, "A");
}

#[test]
fn cancelling_an_edit_keeps_the_name() {
    let mut app = abc();
    app.state.selection = Some(Selection::Place(2));
    act(&mut app, Action::EnterEditMode);
    type_text(&mut app, "zzz");
    act(&mut app, Action::Back);
    assert_eq!(app.state.mode, Mode::Navigate);
    assert_eq!(app.state.edit_buffer, "");
    assert_eq!(app.breadboard.places[1].name, "B");
}

#[test]
fn edit_mode_needs_a_selection() {
    let mut app = abc();
    handle_enter_edit_mode(&mut app);
    assert_eq!(app.state.mode, Mode::Navigate);
    app.state.selection = Some(Selection::Place(77));
    handle_enter_edit_mode(&mut app);
    assert_eq!(app.state.mode, Mode::Edit);
    assert_eq!(app.state.edit_buffer, "");
}

#[test]
fn typing_in_navigate_mode_starts_the_place_search() {
    let mut app = abc();
    app.state.selection = Some(Selection::Place(1));
    type_text(&mut app, "left");
    type_text(&mut app, "backspace");
    type_text(&mut app, "");
    assert!(!app.state.is_searching_places);
    type_text(&mut app, "C");
    assert!(app.state.is_searching_places);
    assert_eq!(app.state.mode, Mode::Navigate);
    assert_eq!(app.state.place_picker.query, "C");
    assert_eq!(app.state.place_picker.results, vec![Pick::Item(3)]);
    assert_eq!(app.state.place_picker.selected_index, Some(0));
    act(&mut app, Action::Select);
    assert!(!app.state.is_searching_places);
    assert_eq!(app.state.selection, Some(Selection::Place(3)));
    assert!(app.state.navigation_trail.is_empty());
    assert!(app.state.place_picker.results.is_empty());
}

#[test]
fn the_place_search_moves_filters_and_cancels() {
    let mut app = abc();
    app.state.selection = Some(Selection::Place(1));
    type_text(&mut app, "x");
    assert!(app.state.place_picker.results.is_empty());
    act(&mut app, Action::Select);
    assert!(app.state.is_searching_places);
    type_text(&mut app, "backspace");
    assert_eq!(
        app.state.place_picker.results,
        vec![Pick::Item(1), Pick::Item(2), Pick::Item(3)]
    );
    act(&mut app, Action::NavigateDown);
    act(&mut app, Action::NavigateDown);
    act(&mut app, Action::NavigateDown);
    act(&mut app, Action::NavigateUp);
    assert_eq!(app.state.place_picker.selected_index, Some(1));
    assert_eq!(app.state.selection, Some(Selection::Place(1)));
    act(&mut app, Action::Back);
    assert!(!app.state.is_searching_places);
    assert_eq!(app.state.selection, Some(Selection::Place(1)));
    assert_eq!(app.state.place_picker.query, "");
}

#[test]
fn opening_a_file_goes_through_the_caller() {
    let mut app = abc();
    assert!(matches!(handle_action(&mut app, Action::Open), Effect::ListFiles));
    assert_eq!(app.state.mode, Mode::OpenFile);
    app.start_file_opening(vec!["a.toml".to_string(), "b.toml".to_string()]);
    type_text(&mut app, "b");
    assert_eq!(app.state.file_picker.results.len(), 2);
    act(&mut app, Action::NavigateDown);
    act(&mut app, Action::NavigateDown);
    match handle_action(&mut app, Action::Select) {
        Effect::LoadFile(name) => assert_eq!(name, "b.toml"),
        other => panic!("unexpected effect {:?}", other),
    }
    assert_eq!(app.state.mode, Mode::Navigate);
    assert!(app.state.file_list.is_empty());
    assert_eq!(app.state.file_picker.selected_index, None);
    assert_eq!(place_ids(&app), vec![1, 2, 3]);
}

#[test]
fn opening_with_no_file_loads_nothing() {
    let mut app = abc();
    assert!(matches!(handle_enter_open_mode(&mut app), Effect::ListFiles));
    app.start_file_opening(Vec::new());
    assert!(is_nothing(&handle_select(&mut app)));
    assert_eq!(app.state.mode, Mode::Navigate);
    assert!(matches!(handle_enter_open_mode(&mut app), Effect::ListFiles));
    handle_back(&mut app);
    assert_eq!(app.state.mode, Mode::Navigate);
}

#[test]
fn modes_are_entered_from_navigate_only() {
    let mut app = abc();
    app.state.selection = Some(Selection::Affordance { place_id: 1, affordance_id: 1 });
    act(&mut app, Action::EnterEditMode);
    act(&mut app, Action::EnterConnectMode);
    assert_eq!(app.state.mode, Mode::Edit);
    assert!(is_nothing(&handle_action(&mut app, Action::Open)));
    assert_eq!(app.state.mode, Mode::Edit);
    act(&mut app, Action::Back);
    act(&mut app, Action::EnterConnectMode);
    act(&mut app, Action::EnterEditMode);
    assert_eq!(app.state.mode, Mode::Connect);
}

#[test]
fn reserved_modes_ignore_select_back_and_text() {
    for mode in [Mode::SaveFile, Mode::ConfirmDelete] {
        let mut app = abc();
        app.state.selection = Some(Selection::Affordance { place_id: 1, affordance_id: 1 });
        app.state.mode = mode;
        act(&mut app, Action::Select);
        act(&mut app, Action::Back);
        type_text(&mut app, "x");
        act(&mut app, Action::NavigateUp);
        act(&mut app, Action::NavigateDown);
        act(&mut app, Action::SaveAs);
        act(&mut app, Action::Noop);
        assert_eq!(app.state.mode, mode);
        assert_eq!(app.state.selection, Some(Selection::Affordance { place_id: 1, affordance_id: 1 }));
        assert!(app.state.navigation_trail.is_empty());
        assert_eq!(app.state.edit_buffer, "");
        assert!(!app.state.is_searching_places);
    }
}

#[test]
fn new_places_and_affordances_are_numbered() {
    let mut app = App::new();
    handle_new_place(&mut app);
    handle_new_place(&mut app);
    let names: Vec<&str> = app.breadboard.places.iter().map(|p| p.name.as_str()).collect();
    assert_eq!(names, vec!["Place 1", "Place 2"]);
    assert_eq!(place_ids(&app), vec![1, 2]);
    handle_new_affordance(&mut app);
    assert!(app.breadboard.places[0].affordances.is_empty());
    app.state.selection = Some(Selection::Place(2));
    handle_new_affordance(&mut app);
    app.state.selection = Some(Selection::Affordance { place_id: 2, affordance_id: 1 });
    handle_new_affordance(&mut app);
    let place = &app.breadboard.places[1];
    let listed: Vec<(u32, &str)> = place.affordances.iter().map(|a| (a.id, a.name.as_str())).collect();
    assert_eq!(listed, vec![(1, "Action 1"), (2, "Action 2")]);
    assert!(place.affordances.iter().all(|a| a.connects_to.is_none()));
    app.state.selection = Some(Selection::Place(99));
    handle_new_affordance(&mut app);
    assert_eq!(app.breadboard.next_affordance_id, 3);
    handle_delete(&mut app);
    handle_new_place(&mut app);
    assert_eq!(app.breadboard.places[2].name, "Place 3");
    assert_eq!(app.breadboard.places[2].id, 3);
}

#[test]
fn the_tenth_place_is_named_place_10() {
    let mut app = App::new();
    for _ in 0..10 {
        handle_new_place(&mut app);
    }
    assert_eq!(app.breadboard.places[9].name, "Place 10");
    assert_eq!(app.breadboard.places[9].id, 10);
}

#[test]
fn nothing_is_created_once_the_ids_are_used_up() {
    let mut app = abc();
    app.breadboard.next_place_id = u32::MAX;
    app.breadboard.next_affordance_id = u32::MAX;
    app.state.selection = Some(Selection::Place(1));
    handle_new_place(&mut app);
    handle_new_affordance(&mut app);
    assert_eq!(place_ids(&app), vec![1, 2, 3]);
    assert_eq!(app.breadboard.places[0].affordances.len(), 1);
    assert_eq!(app.breadboard.next_place_id, u32::MAX);
}

#[test]
fn deleting_an_affordance_selects_its_place() {
    let mut app = abc();
    app.breadboard.create_affordance(1, "second".to_string());
    app.state.selection = Some(Selection::Affordance { place_id: 1, affordance_id: 1 });
    app.state.navigation_trail.push(3);
    act(&mut app, Action::Delete);
    assert_eq!(app.state.selection, Some(Selection::Place(1)));
    let ids: Vec<u32> = app.breadboard.places[0].affordances.iter().map(|a| a.id).collect();
    assert_eq!(ids, vec![2]);
    assert_eq!(app.state.navigation_trail, vec![3]);
    app.state.selection = None;
    act(&mut app, Action::Delete);
    assert_eq!(place_ids(&app), vec![1, 2, 3]);
}

#[test]
fn deleting_something_that_is_gone_changes_no_place() {
    let mut app = abc();
    app.state.selection = Some(Selection::Place(42));
    handle_delete(&mut app);
    assert_eq!(place_ids(&app), vec![1, 2, 3]);
    assert_eq!(app.state.selection, None);
    app.state.selection = Some(Selection::Affordance { place_id: 42, affordance_id: 1 });
    handle_delete(&mut app);
    assert_eq!(app.state.selection, Some(Selection::Place(42)));
    assert_eq!(app.breadboard.places[0].affordances.len(), 1);
}

#[test]
fn remove_connection_touches_the_selected_affordance_only() {
    let mut app = abc();
    app.breadboard.create_affordance(1, "other".to_string());
    app.breadboard.set_connection(1, 2, Some(3));
    app.state.selection = Some(Selection::Place(1));
    handle_remove_connection(&mut app);
    assert_eq!(app.breadboard.places[0].affordances[0].connects_to, Some(2));
    app.state.selection = Some(Selection::Affordance { place_id: 1, affordance_id: 1 });
    act(&mut app, Action::RemoveConnection);
    assert_eq!(app.breadboard.places[0].affordances[0].connects_to, None);
    assert_eq!(app.breadboard.places[0].affordances[1].connects_to, Some(3));
}

#[test]
fn the_filter_toggles_between_off_and_connected() {
    let mut app = App::new();
    act(&mut app, Action::Filter);
    assert_eq!(app.state.filter, Some("connected".to_string()));
    act(&mut app, Action::Filter);
    assert_eq!(app.state.filter, None);
    app.state.filter = Some("other".to_string());
    handle_filter(&mut app);
    assert_eq!(app.state.filter, Some("connected".to_string()));
}

#[test]
fn save_asks_for_the_default_file() {
    let mut app = abc();
    match handle_action(&mut app, Action::Save) {
        Effect::SaveFile(name) => assert_eq!(name, "breadboard.toml"),
        other => panic!("unexpected effect {:?}", other),
    }
    assert!(matches!(handle_save(&app), Effect::SaveFile(_)));
    assert_eq!(place_ids(&app), vec![1, 2, 3]);
}

#[test]
fn only_quit_sets_the_quit_flag() {
    let mut app = abc();
    act(&mut app, Action::ToggleCollapsed);
    assert!(app.state.collapsed);
    act(&mut app, Action::Noop);
    act(&mut app, Action::SaveAs);
    assert!(!app.should_quit);
    act(&mut app, Action::Quit);
    assert!(app.should_quit);
    assert!(app.state.collapsed);
}

#[test]
fn text_is_ignored_while_a_file_is_picked() {
    let mut app = abc();
    handle_enter_open_mode(&mut app);
    app.start_file_opening(vec!["a.toml".to_string()]);
    handle_edit(&mut app, "a".to_string());
    handle_edit(&mut app, "backspace".to_string());
    assert_eq!(app.state.file_picker.query, "");
    assert_eq!(app.state.edit_buffer, "");
    assert!(!app.state.is_searching_places);
}

#[test]
fn ids_stay_unique_through_a_session() {
    let mut app = App::new();
    let script = [
        Action::NewPlace,
        Action::NewPlace,
        Action::NavigateDown,
        Action::NewAffordance,
        Action::NewAffordance,
        Action::NavigateDown,
        Action::Delete,
        Action::NewAffordance,
        Action::NavigateRight,
        Action::Delete,
        Action::NewPlace,
        Action::NewPlace,
        Action::NavigateDown,
        Action::NewAffordance,
    ];
    for action in script {
        handle_action(&mut app, action);
        let mut ids = place_ids(&app);
        ids.sort();
        ids.dedup();
        assert_eq!(ids.len(), app.breadboard.places.len());
        assert!(ids.iter().all(|id| *id < app.breadboard.next_place_id));
        for place in &app.breadboard.places {
            let mut inner: Vec<u32> = place.affordances.iter().map(|a| a.id).collect();
            inner.sort();
            inner.dedup();
            assert_eq!(inner.len(), place.affordances.len());
            assert!(inner.iter().all(|id| *id < app.breadboard.next_affordance_id));
        }
    }
    assert_eq!(place_ids(&app), vec![1, 3, 4]);
    let inner: Vec<u32> = app.breadboard.places[0].affordances.iter().map(|a| a.id).collect();
    assert_eq!(inner, vec![2, 3, 4]);
}
