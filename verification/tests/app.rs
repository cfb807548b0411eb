use breadboard::app::{file_candidates, place_candidates, App, Selection};
use breadboard::input::Mode;
use breadboard::models::{Affordance, Breadboard, Place};
use breadboard::picker::Pick;

#[test]
fn test_app_new() {
    let app = App::new();
    assert_eq!(app.breadboard.name, "New Breadboard");
    assert_eq!(app.breadboard.places.len(), 0);
    assert!(!app.should_quit);
    assert_eq!(app.state.mode, Mode::Navigate);
    assert!(app.state.selection.is_none());
}

#[test]
fn test_new_place() {
    let mut app = App::new();
    app.new_place("Test Place".to_string());
    assert_eq!(app.breadboard.places.len(), 1);
    assert_eq!(app.breadboard.places[0].name, "Test Place");
}

#[test]
fn app_test_add_affordance_to_place() {
    let mut app = App::new();
    app.new_place("Test Place".to_string());

    let place_id = app.breadboard.places[0].id;
    let affordance = Affordance::new(app.breadboard.generate_affordance_id(), "Test Action".to_string());
    app.add_affordance_to_place(&place_id, affordance);

    assert_eq!(app.breadboard.places[0].affordances.len(), 1);
    assert_eq!(app.breadboard.places[0].affordances[0].name, "Test Action");
}

#[test]
fn test_get_selected_place() {
    let mut app = App::new();
    app.new_place("Test Place".to_string());

    assert!(app.get_selected_place().is_none());

    let place_id = app.breadboard.places[0].id;
    app.state.selection = Some(Selection::Place(place_id));

    let selected = app.get_selected_place();
    assert!(selected.is_some());
    assert_eq!(selected.unwrap().name, "Test Place");
}

#[test]
fn test_navigate_to_place() {
    let mut app = App::new();
    app.new_place("Place 1".to_string());
    app.new_place("Place 2".to_string());

    let place1_id = app.breadboard.places[0].id;
    let place2_id = app.breadboard.places[1].id;

    app.state.selection = Some(Selection::Place(place1_id));
    assert_eq!(app.state.navigation_trail.len(), 0);

    app.navigate_to_place(place2_id);

    assert_eq!(app.state.selection, Some(Selection::Place(place2_id)));
    assert_eq!(app.state.navigation_trail.len(), 1);
    assert_eq!(app.state.navigation_trail[0], place1_id);
}

#[test]
fn test_navigate_back() {
    let mut app = App::new();
    app.new_place("Place 1".to_string());
    app.new_place("Place 2".to_string());

    let place1_id = app.breadboard.places[0].id;
    let place2_id = app.breadboard.places[1].id;

    app.state.selection = Some(Selection::Place(place1_id));
    app.navigate_to_place(place2_id);

    assert_eq!(app.state.selection, Some(Selection::Place(place2_id)));
    assert_eq!(app.state.navigation_trail.len(), 1);

    app.navigate_back();

    assert_eq!(app.state.selection, Some(Selection::Place(place1_id)));
    assert_eq!(app.state.navigation_trail.len(), 0);
}

#[test]
fn test_navigate_back_empty_trail() {
    let mut app = App::new();
    app.new_place("Place 1".to_string());

    let place1_id = app.breadboard.places[0].id;
    app.state.selection = Some(Selection::Place(place1_id));

    app.navigate_back();

    assert_eq!(app.state.selection, Some(Selection::Place(place1_id)));
    assert_eq!(app.state.navigation_trail.len(), 0);
}

#[test]
fn test_toggle_collapsed() {
    let mut app = App::new();
    assert!(!app.state.collapsed);

    app.toggle_collapsed();
    assert!(app.state.collapsed);

    app.toggle_collapsed();
    assert!(!app.state.collapsed);
}

#[test]
fn test_selection_with_affordance() {
    let mut app = App::new();
    app.new_place("Test Place".to_string());

    let place_id = app.breadboard.places[0].id;
    let affordance = Affordance::new(app.breadboard.generate_affordance_id(), "Test Action".to_string());
    let affordance_id = affordance.id;
    app.add_affordance_to_place(&place_id, affordance);

    app.state.selection = Some(Selection::Affordance { place_id, affordance_id });

    let selected = app.get_selected_place();
    assert!(selected.is_some());
    assert_eq!(selected.unwrap().name, "Test Place");
}

fn three_places() -> App {
    let mut app = App::new();
    app.new_place("Alpha".to_string());
    app.new_place("Beta".to_string());
    app.new_place("Cabin".to_string());
    app
}

#[test]
fn new_places_get_the_ids_one_two_three() {
    let app = three_places();
    let ids: Vec<u32> = app.breadboard.places.iter().map(|p| p.id).collect();
    assert_eq!(ids, vec![1, 2, 3]);
    assert_eq!(app.breadboard.next_place_id, 4);
}

#[test]
fn a_jump_from_a_dangling_selection_leaves_the_trail() {
    let mut app = three_places();
    app.state.selection = Some(Selection::Place(77));
    app.navigate_to_place(2);
    assert_eq!(app.state.selection, Some(Selection::Place(2)));
    assert!(app.state.navigation_trail.is_empty());
    app.state.selection = None;
    app.navigate_to_place(3);
    assert!(app.state.navigation_trail.is_empty());
}

#[test]
fn a_jump_from_an_affordance_puts_its_place_on_the_trail() {
    let mut app = three_places();
    app.breadboard.create_affordance(2, "go".to_string());
    app.state.selection = Some(Selection::Affordance { place_id: 2, affordance_id: 1 });
    app.navigate_to_place(3);
    assert_eq!(app.state.navigation_trail, vec![2]);
    app.navigate_back();
    assert_eq!(app.state.selection, Some(Selection::Place(2)));
    assert!(app.state.navigation_trail.is_empty());
}

#[test]
fn get_selected_place_mut_reaches_the_selected_place() {
    let mut app = three_places();
    assert!(app.get_selected_place_mut().is_none());
    app.state.selection = Some(Selection::Place(2));
    app.get_selected_place_mut().unwrap().name = "Changed".to_string();
    assert_eq!(app.breadboard.places[1].name, "Changed");
    app.state.selection = Some(Selection::Place(9));
    assert!(app.get_selected_place_mut().is_none());
}

#[test]
fn candidates_follow_the_order_of_their_source() {
    let app = three_places();
    let domain = place_candidates(&app.breadboard);
    let keys: Vec<(u32, String)> = domain.iter().map(|c| (c.key, c.name.clone())).collect();
    assert_eq!(
        keys,
        vec![(1, "Alpha".to_string()), (2, "Beta".to_string()), (3, "Cabin".to_string())]
    );
    let files = vec!["x.toml".to_string(), "y.toml".to_string()];
    let domain = file_candidates(&files);
    let keys: Vec<(usize, String)> = domain.iter().map(|c| (c.key, c.name.clone())).collect();
    assert_eq!(keys, vec![(0, "x.toml".to_string()), (1, "y.toml".to_string())]);
}

#[test]
fn connection_search_lists_the_sentinel_then_every_place() {
    let mut app = three_places();
    app.start_connection_search();
    assert_eq!(app.state.connection_picker.query, "");
    assert_eq!(
        app.state.connection_picker.results,
        vec![Pick::Sentinel, Pick::Item(1), Pick::Item(2), Pick::Item(3)]
    );
    assert_eq!(app.state.connection_picker.selected_index, Some(0));
    assert!(app.is_remove_connection_selected());
    assert!(app.get_selected_connection_place().is_none());
}

#[test]
fn connection_search_filters_without_regard_to_case() {
    let mut app = three_places();
    app.start_connection_search();
    app.state.connection_picker.selected_index = Some(3);
    app.state.connection_picker.query.push_str("B");
    app.update_connection_search();
    assert_eq!(
        app.state.connection_picker.results,
        vec![Pick::Sentinel, Pick::Item(2), Pick::Item(3)]
    );
    assert_eq!(app.state.connection_picker.selected_index, Some(0));
    app.state.connection_picker.query.push_str("E");
    app.update_connection_search();
    assert_eq!(app.state.connection_picker.results, vec![Pick::Sentinel, Pick::Item(2)]);
    app.state.connection_picker.selected_index = Some(1);
    assert!(!app.is_remove_connection_selected());
    assert_eq!(app.get_selected_connection_place().unwrap().name, "Beta");
    app.state.connection_picker.query.push_str("zz");
    app.update_connection_search();
    assert_eq!(app.state.connection_picker.results, vec![Pick::Sentinel]);
    app.clear_connection_search();
    assert!(app.state.connection_picker.results.is_empty());
    assert_eq!(app.state.connection_picker.selected_index, None);
    assert_eq!(app.state.connection_picker.query, "");
    assert!(!app.is_remove_connection_selected());
}

#[test]
fn a_picked_place_that_was_deleted_is_not_found() {
    let mut app = three_places();
    app.start_connection_search();
    app.state.connection_picker.selected_index = Some(2);
    assert_eq!(app.get_selected_connection_place().unwrap().id, 2);
    app.breadboard.remove_place(2);
    assert!(app.get_selected_connection_place().is_none());
    app.state.connection_picker.selected_index = Some(17);
    assert!(app.get_selected_connection_place().is_none());
    assert!(!app.is_remove_connection_selected());
}

#[test]
fn file_opening_selects_the_first_file() {
    let mut app = App::new();
    app.start_file_opening(vec!["a.toml".to_string(), "b.toml".to_string()]);
    assert_eq!(app.state.file_list, vec!["a.toml".to_string(), "b.toml".to_string()]);
    assert_eq!(app.state.file_picker.results, vec![Pick::Item(0), Pick::Item(1)]);
    assert_eq!(app.state.file_picker.selected_index, Some(0));
    assert_eq!(app.get_selected_file(), Some(&"a.toml".to_string()));
    app.state.file_picker.move_down();
    assert_eq!(app.get_selected_file(), Some(&"b.toml".to_string()));
    app.clear_file_selection();
    assert!(app.state.file_list.is_empty());
    assert_eq!(app.get_selected_file(), None);
}

#[test]
fn file_opening_with_no_file_selects_nothing() {
    let mut app = App::new();
    app.start_file_opening(Vec::new());
    assert_eq!(app.state.file_picker.selected_index, None);
    assert!(app.state.file_picker.results.is_empty());
    assert_eq!(app.get_selected_file(), None);
}

#[test]
fn place_search_lists_every_place_and_filters() {
    let mut app = three_places();
    app.start_place_search();
    assert!(app.state.is_searching_places);
    assert_eq!(
        app.state.place_picker.results,
        vec![Pick::Item(1), Pick::Item(2), Pick::Item(3)]
    );
    assert_eq!(app.state.place_picker.selected_index, Some(0));
    assert_eq!(app.get_selected_search_place().unwrap().name, "Alpha");
    app.state.place_picker.query.push_str("CAB");
    app.update_place_search();
    assert_eq!(app.state.place_picker.results, vec![Pick::Item(3)]);
    assert_eq!(app.get_selected_search_place().unwrap().name, "Cabin");
    app.state.place_picker.query.push_str("x");
    app.update_place_search();
    assert!(app.state.place_picker.results.is_empty());
    assert_eq!(app.state.place_picker.selected_index, Some(0));
    assert!(app.get_selected_search_place().is_none());
    app.clear_place_search();
    assert!(!app.state.is_searching_places);
    assert_eq!(app.state.place_picker.selected_index, None);
}

#[test]
fn place_search_on_an_empty_board_selects_nothing() {
    let mut app = App::new();
    app.start_place_search();
    assert_eq!(app.state.place_picker.selected_index, None);
}

fn loaded_board() -> Breadboard {
    let mut board = Breadboard::with_created("Loaded".to_string(), "2025-01-15T10:00:00Z".to_string());
    let mut p = Place::new(40, "Forty".to_string());
    p.add_affordance(Affordance::new(9, "nine".to_string()).with_connection(12));
    board.add_place(p);
    board.add_place(Place::new(12, "Twelve".to_string()));
    board
}

#[test]
fn opening_a_breadboard_resets_the_counters_whatever_was_saved() {
    for (saved_place, saved_affordance) in [(1, 1), (3, 900), (41, 10), (4000, 0)] {
        let mut app = three_places();
        app.state.selection = Some(Selection::Place(3));
        app.state.navigation_trail.push(1);
        let mut board = loaded_board();
        board.next_place_id = saved_place;
        board.next_affordance_id = saved_affordance;
        assert!(app.open_breadboard(board));
        assert_eq!(app.breadboard.name, "Loaded");
        assert_eq!(app.breadboard.created, "2025-01-15T10:00:00Z");
        assert_eq!(app.breadboard.next_place_id, 41);
        assert_eq!(app.breadboard.next_affordance_id, 10);
        let ids: Vec<u32> = app.breadboard.places.iter().map(|p| p.id).collect();
        assert_eq!(ids, vec![40, 12]);
        assert_eq!(app.breadboard.places[0].affordances[0].connects_to, Some(12));
        assert_eq!(app.state.selection, Some(Selection::Place(40)));
        assert_eq!(app.state.navigation_trail, vec![1]);
        app.new_place("fresh".to_string());
        assert_eq!(app.breadboard.places[2].id, 41);
    }
}

#[test]
fn opening_an_empty_breadboard_selects_nothing() {
    let mut app = three_places();
    app.state.selection = Some(Selection::Place(1));
    assert!(app.open_breadboard(Breadboard::new("Blank".to_string())));
    assert_eq!(app.state.selection, None);
    assert_eq!(app.breadboard.next_place_id, 1);
    assert_eq!(app.breadboard.next_affordance_id, 1);
}

#[test]
fn a_breadboard_with_the_largest_id_is_refused() {
    let mut app = three_places();
    let mut board = loaded_board();
    board.add_place(Place::new(u32::MAX, "last".to_string()));
    assert!(!app.open_breadboard(board));
    assert_eq!(app.breadboard.name, "New Breadboard");
    assert_eq!(app.breadboard.places.len(), 3);
    let mut board = loaded_board();
    board.add_affordance_to(12, Affordance::new(u32::MAX, "last".to_string()));
    assert!(!app.open_breadboard(board));
    assert_eq!(app.breadboard.places.len(), 3);
}
