use breadboard::app::{App, Selection};
use breadboard::dispatch::{handle_action, handle_enter_connect_mode};
use breadboard::input::{Action, Mode};
use breadboard::view::{
    affordance_line, collapsed_line, collapsed_title, collapsed_view, current_screen,
    expanded_view, file_pick_view, first_selected_row, incoming_names,
    is_connected_to, join_text, mode_name, place_header, place_pick_view, place_search_title,
    status_kind, status_line, view_name, Row, RowKind, Screen, StatusKind,
};

/// Invoice(1) -> Setup(2) -> Confirm(3), Setup -> Invoice, and a lone
/// place Help(4).
fn sample() -> App {
    let mut app = App::new();
    for name in ["Invoice", "Setup Autopay", "Confirm", "Help"] {
        app.new_place(name.to_string());
    }
    app.breadboard.create_affordance(1, "Turn on Autopay".to_string());
    app.breadboard.create_affordance(1, "View Details".to_string());
    app.breadboard.create_affordance(2, "CC Fields".to_string());
    app.breadboard.create_affordance(2, "Cancel".to_string());
    app.breadboard.create_affordance(3, "Thank You Message".to_string());
    app.breadboard.set_connection(1, 1, Some(2));
    app.breadboard.set_connection(2, 3, Some(3));
    app.breadboard.set_connection(2, 4, Some(1));
    app
}

fn texts(rows: &[Row]) -> Vec<&str> {
    rows.iter().map(|r| r.text.as_str()).collect()
}

#[test]
fn a_dangling_connection_reads_unknown() {
    let mut app = sample();
    app.breadboard.remove_place(2);
    let affordance = &app.breadboard.places[0].affordances[0];
    assert_eq!(affordance.connects_to, Some(2));
    assert_eq!(affordance_line(&app.breadboard, affordance), "├─ Turn on Autopay → [Unknown]");
}

#[test]
fn affordance_lines() {
    let app = sample();
    let place = &app.breadboard.places[0];
    assert_eq!(
        affordance_line(&app.breadboard, &place.affordances[0]),
        "├─ Turn on Autopay → Setup Autopay"
    );
    assert_eq!(affordance_line(&app.breadboard, &place.affordances[1]), "├─ View Details");
}

#[test]
fn place_headers_name_the_sources() {
    let mut app = sample();
    assert_eq!(place_header(&app.breadboard, &app.breadboard.places[0]), "┌─ Invoice (← Setup Autopay)");
    assert_eq!(place_header(&app.breadboard, &app.breadboard.places[3]), "┌─ Help");
    app.breadboard.set_connection(1, 2, Some(3));
    app.breadboard.set_connection(3, 5, Some(3));
    assert_eq!(
        place_header(&app.breadboard, &app.breadboard.places[2]),
        "┌─ Confirm (← Invoice, Setup Autopay, Confirm)"
    );
    assert_eq!(
        incoming_names(&app.breadboard, 3),
        vec!["Invoice".to_string(), "Setup Autopay".to_string(), "Confirm".to_string()]
    );
}

#[test]
fn joining_puts_the_separator_between() {
    let parts = vec!["a".to_string(), "b".to_string(), "".to_string(), "c".to_string()];
    assert_eq!(join_text(&parts, ", "), "a, b, , c");
    assert_eq!(join_text(&parts[..1].to_vec(), ", "), "a");
    assert_eq!(join_text(&Vec::new(), ", "), "");
}

#[test]
fn the_expanded_view_lists_places_and_affordances() {
    let mut app = sample();
    app.state.selection = Some(Selection::Affordance { place_id: 2, affordance_id: 4 });
    let rows = expanded_view(&app.breadboard, app.state.selection);
    assert_eq!(
        texts(&rows),
        vec![
            "┌─ Invoice (← Setup Autopay)",
            "├─ Turn on Autopay → Setup Autopay",
            "├─ View Details",
            "",
            "┌─ Setup Autopay (← Invoice)",
            "├─ CC Fields → Confirm",
            "├─ Cancel → Invoice",
            "",
            "┌─ Confirm (← Setup Autopay)",
            "├─ Thank You Message",
            "",
            "┌─ Help",
        ]
    );
    let kinds: Vec<RowKind> = rows.iter().map(|r| r.kind).collect();
    assert_eq!(kinds[0], RowKind::Place);
    assert_eq!(kinds[1], RowKind::Affordance);
    assert_eq!(kinds[3], RowKind::Spacer);
    assert_eq!(kinds[11], RowKind::Place);
    let marked: Vec<usize> = rows.iter().enumerate().filter(|(_, r)| r.selected).map(|(i, _)| i).collect();
    assert_eq!(marked, vec![6]);
    assert_eq!(first_selected_row(&rows), Some(6));
    assert_eq!(app.get_selected_item_index(), Some(6));
    app.state.selection = Some(Selection::Place(3));
    assert_eq!(app.get_selected_item_index(), Some(8));
    app.state.selection = Some(Selection::Place(1));
    assert_eq!(app.get_selected_item_index(), Some(0));
    app.state.selection = Some(Selection::Place(99));
    assert_eq!(app.get_selected_item_index(), None);
    app.state.selection = None;
    assert_eq!(app.get_selected_item_index(), None);
}

#[test]
fn the_expanded_view_of_nothing_is_empty() {
    let app = App::new();
    assert!(expanded_view(&app.breadboard, None).is_empty());
    assert!(collapsed_view(&app).is_empty());
}

#[test]
fn collapsed_lines_count_and_name_the_neighbours() {
    let mut app = sample();
    assert_eq!(collapsed_line(&app.breadboard, &app.breadboard.places[0]), "Invoice (2) ← Setup Autopay → Setup Autopay");
    assert_eq!(
        collapsed_line(&app.breadboard, &app.breadboard.places[1]),
        "Setup Autopay (2) ← Invoice → Confirm, Invoice"
    );
    assert_eq!(collapsed_line(&app.breadboard, &app.breadboard.places[2]), "Confirm (1) ← Setup Autopay");
    assert_eq!(collapsed_line(&app.breadboard, &app.breadboard.places[3]), "Help (0)");
    app.breadboard.remove_place(3);
    assert_eq!(collapsed_line(&app.breadboard, &app.breadboard.places[1]), "Setup Autopay (2) ← Invoice → Invoice");
}

#[test]
fn the_collapsed_view_shows_every_place_without_a_filter() {
    let mut app = sample();
    app.state.selection = Some(Selection::Place(2));
    let rows = collapsed_view(&app);
    assert_eq!(rows.len(), 4);
    let marked: Vec<bool> = rows.iter().map(|r| r.selected).collect();
    assert_eq!(marked, vec![false, true, false, false]);
    assert_eq!(collapsed_title(&app), "Breadboard (Collapsed)");
    app.state.filter = Some("other".to_string());
    assert_eq!(collapsed_view(&app).len(), 4);
    assert_eq!(collapsed_title(&app), "Breadboard (Filtered)");
    app.state.filter = Some("connected".to_string());
    app.state.selection = None;
    assert_eq!(collapsed_view(&app).len(), 4);
}

#[test]
fn the_connected_filter_keeps_the_neighbours_of_the_selection() {
    let mut app = sample();
    app.state.filter = Some("connected".to_string());
    app.state.selection = Some(Selection::Place(3));
    let rows = collapsed_view(&app);
    assert_eq!(
        texts(&rows),
        vec!["Setup Autopay (2) ← Invoice → Confirm, Invoice", "Confirm (1) ← Setup Autopay"]
    );
    app.state.selection = Some(Selection::Affordance { place_id: 1, affordance_id: 2 });
    let rows = collapsed_view(&app);
    assert_eq!(rows.len(), 2);
    assert!(rows[0].text.starts_with("Invoice"));
    assert!(rows[1].text.starts_with("Setup Autopay"));
    assert!(!rows[0].selected);
    app.state.selection = Some(Selection::Place(4));
    assert_eq!(texts(&collapsed_view(&app)), vec!["Help (0)"]);
    app.state.selection = Some(Selection::Place(77));
    assert!(collapsed_view(&app).is_empty());
}

#[test]
fn connected_means_the_same_place_or_a_connection_either_way() {
    let app = sample();
    let places = &app.breadboard.places;
    assert!(is_connected_to(&app.breadboard, 1, &places[0]));
    assert!(is_connected_to(&app.breadboard, 1, &places[1]));
    assert!(!is_connected_to(&app.breadboard, 1, &places[2]));
    assert!(is_connected_to(&app.breadboard, 3, &places[1]));
    assert!(is_connected_to(&app.breadboard, 2, &places[2]));
    assert!(!is_connected_to(&app.breadboard, 4, &places[0]));
}

#[test]
fn the_connection_pick_reads_its_results() {
    let mut app = sample();
    app.state.selection = Some(Selection::Affordance { place_id: 1, affordance_id: 1 });
    handle_enter_connect_mode(&mut app);
    handle_action(&mut app, Action::Edit("o".to_string()));
    handle_action(&mut app, Action::NavigateDown);
    let rows = place_pick_view(&app.breadboard, &app.state.connection_picker);
    assert_eq!(texts(&rows), vec!["Remove connection", "Invoice", "Setup Autopay", "Confirm"]);
    let kinds: Vec<RowKind> = rows.iter().map(|r| r.kind).collect();
    assert_eq!(
        kinds,
        vec![RowKind::RemoveConnection, RowKind::Candidate, RowKind::Candidate, RowKind::Candidate]
    );
    let marked: Vec<bool> = rows.iter().map(|r| r.selected).collect();
    assert_eq!(marked, vec![false, true, false, false]);
    app.breadboard.remove_place(1);
    let rows = place_pick_view(&app.breadboard, &app.state.connection_picker);
    assert_eq!(texts(&rows), vec!["Remove connection", "Setup Autopay", "Confirm"]);
    assert!(rows.iter().all(|r| !r.selected));
}

#[test]
fn an_empty_pick_reads_a_notice() {
    let mut app = sample();
    let rows = place_pick_view(&app.breadboard, &app.state.place_picker);
    assert_eq!(texts(&rows), vec!["No places found"]);
    assert_eq!(rows[0].kind, RowKind::Notice);
    let rows = file_pick_view(&app.state.file_list, &app.state.file_picker);
    assert_eq!(texts(&rows), vec!["No TOML files found in current directory"]);
    app.start_file_opening(vec!["a.toml".to_string(), "b.toml".to_string()]);
    app.state.file_picker.move_down();
    let rows = file_pick_view(&app.state.file_list, &app.state.file_picker);
    assert_eq!(texts(&rows), vec!["a.toml", "b.toml"]);
    assert!(!rows[0].selected && rows[1].selected);
}

#[test]
fn the_screen_follows_mode_and_switches() {
    let mut app = App::new();
    app.state.mode = Mode::Connect;
    assert_eq!(current_screen(&app), Screen::Empty);
    let mut app = sample();
    assert_eq!(current_screen(&app), Screen::Expanded);
    app.state.collapsed = true;
    assert_eq!(current_screen(&app), Screen::Collapsed);
    app.state.is_searching_places = true;
    assert_eq!(current_screen(&app), Screen::PlaceSearch);
    app.state.mode = Mode::OpenFile;
    assert_eq!(current_screen(&app), Screen::FileSelection);
    app.state.mode = Mode::Connect;
    assert_eq!(current_screen(&app), Screen::ConnectionSearch);
    app.state.mode = Mode::Edit;
    assert_eq!(current_screen(&app), Screen::PlaceSearch);
}

#[test]
fn the_status_bar_follows_the_mode() {
    let mut app = sample();
    assert_eq!(status_kind(&app), StatusKind::Board);
    assert_eq!(
        status_line(&app),
        vec!["Board: New Breadboard ".to_string(), "Places: 4 ".to_string(), "(type to search) ".to_string()]
    );
    app.state.mode = Mode::Edit;
    app.state.edit_buffer = "abc".to_string();
    assert_eq!(
        status_line(&app),
        vec!["Editing: ".to_string(), "abc".to_string(), " (Enter to save, Esc to cancel)".to_string()]
    );
    app.state.mode = Mode::Connect;
    app.state.connection_picker.query = "q".to_string();
    let line = status_line(&app);
    assert_eq!(line[0], "Connect to: ");
    assert_eq!(line[1], "q");
    assert_eq!(line[2], " (↑/↓ to select, Enter to connect, Esc to cancel)");
    app.state.mode = Mode::OpenFile;
    assert_eq!(
        status_line(&app),
        vec![
            "Select file to open: ".to_string(),
            " (↑/↓ to select, Enter to open, Esc to cancel)".to_string()
        ]
    );
    app.state.is_searching_places = true;
    app.state.place_picker.query = "inv".to_string();
    assert_eq!(status_kind(&app), StatusKind::Jump);
    let line = status_line(&app);
    assert_eq!(line[0], "Jump to: ");
    assert_eq!(line[1], "inv");
    assert_eq!(line[2], " (type to filter, ↑/↓ to select, Enter to jump, Esc to cancel)");
    assert_eq!(place_search_title(&app), "Jump to place: inv");
    app.state.is_searching_places = false;
    app.state.mode = Mode::SaveFile;
    assert_eq!(status_kind(&app), StatusKind::Board);
}

#[test]
fn the_mode_line_names_mode_and_view() {
    assert_eq!(mode_name(Mode::Navigate), "NAVIGATE");
    assert_eq!(mode_name(Mode::Edit), "EDIT");
    assert_eq!(mode_name(Mode::Connect), "CONNECT");
    assert_eq!(mode_name(Mode::OpenFile), "OPEN FILE");
    assert_eq!(mode_name(Mode::SaveFile), "SAVE FILE");
    assert_eq!(mode_name(Mode::ConfirmDelete), "CONFIRM DELETE");
    assert_eq!(view_name(true), "Collapsed");
    assert_eq!(view_name(false), "Expanded");
}
