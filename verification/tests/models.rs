use breadboard::models::{
    default_next_affordance_id, default_next_place_id, Affordance, Breadboard, Place,
};

#[test]
fn test_place_creation() {
    let place = Place::new(1, "Test Place".to_string());
    assert_eq!(place.id, 1);
    assert_eq!(place.name, "Test Place");
    assert_eq!(place.affordances.len(), 0);
    assert!(place.group.is_none());
}

#[test]
fn test_place_with_group() {
    let place = Place::new(1, "Test Place".to_string()).with_group("web".to_string());
    assert_eq!(place.group, Some("web".to_string()));
}

#[test]
fn test_affordance_creation() {
    let affordance = Affordance::new(1, "Click Me".to_string());
    assert_eq!(affordance.id, 1);
    assert_eq!(affordance.name, "Click Me");
    assert!(affordance.connects_to.is_none());
}

#[test]
fn test_affordance_with_connection() {
    let dest_id = 2;
    let affordance = Affordance::new(1, "Click Me".to_string()).with_connection(dest_id);
    assert_eq!(affordance.connects_to, Some(dest_id));
}

#[test]
fn models_test_add_affordance_to_place() {
    let mut place = Place::new(1, "Test Place".to_string());
    let affordance = Affordance::new(1, "Action".to_string());
    place.add_affordance(affordance);
    assert_eq!(place.affordances.len(), 1);
    assert_eq!(place.affordances[0].name, "Action");
}

#[test]
fn test_breadboard_creation() {
    let breadboard = Breadboard::new("Test Board".to_string());
    assert_eq!(breadboard.name, "Test Board");
    assert_eq!(breadboard.places.len(), 0);
    assert_eq!(breadboard.next_place_id, 1);
    assert_eq!(breadboard.next_affordance_id, 1);
}

#[test]
fn test_breadboard_add_place() {
    let mut breadboard = Breadboard::new("Test Board".to_string());
    let place = Place::new(1, "Test Place".to_string());
    let place_id = place.id;
    breadboard.add_place(place);
    assert_eq!(breadboard.places.len(), 1);
    assert_eq!(breadboard.places[0].id, place_id);
}

#[test]
fn test_breadboard_find_place() {
    let mut breadboard = Breadboard::new("Test Board".to_string());
    let place = Place::new(1, "Test Place".to_string());
    let place_id = place.id;
    breadboard.add_place(place);

    let found = breadboard.find_place(&place_id);
    assert!(found.is_some());
    assert_eq!(found.unwrap().name, "Test Place");

    let not_found = breadboard.find_place(&999);
    assert!(not_found.is_none());
}

#[test]
fn test_get_incoming_connections() {
    let mut breadboard = Breadboard::new("Test Board".to_string());

    let mut place1 = Place::new(1, "Place 1".to_string());
    let place2 = Place::new(2, "Place 2".to_string());
    let place2_id = place2.id;

    let affordance = Affordance::new(1, "Go to Place 2".to_string()).with_connection(place2_id);
    place1.add_affordance(affordance);

    breadboard.add_place(place1);
    breadboard.add_place(place2);

    let incoming = breadboard.get_incoming_connections(&place2_id);
    assert_eq!(incoming.len(), 1);
    assert_eq!(incoming[0].0.name, "Place 1");
    assert_eq!(incoming[0].1.name, "Go to Place 2");
}

fn sample_board() -> Breadboard {
    let mut board = Breadboard::with_created("Sample".to_string(), "2025-01-15T10:00:00Z".to_string());
    let a = board.create_place("A".to_string());
    let b = board.create_place("B".to_string());
    let c = board.create_place("C".to_string());
    board.create_affordance(a, "to b".to_string());
    board.create_affordance(a, "nowhere".to_string());
    board.create_affordance(b, "to c".to_string());
    board.create_affordance(c, "to b too".to_string());
    board.create_affordance(c, "to b again".to_string());
    board.set_connection(a, 1, Some(b));
    board.set_connection(b, 3, Some(c));
    board.set_connection(c, 4, Some(b));
    board.set_connection(c, 5, Some(b));
    board
}

#[test]
fn default_counters_start_at_one() {
    assert_eq!(default_next_place_id(), 1);
    assert_eq!(default_next_affordance_id(), 1);
}

#[test]
fn new_breadboard_records_a_creation_time() {
    let board = Breadboard::new("Timed".to_string());
    assert!(!board.created.is_empty());
    assert!(board.created.contains('T'));
}

#[test]
fn with_created_keeps_the_given_time() {
    let board = Breadboard::with_created("B".to_string(), "2025-01-15T10:00:00Z".to_string());
    assert_eq!(board.created, "2025-01-15T10:00:00Z");
    assert_eq!(board.name, "B");
    assert_eq!(board.next_place_id, 1);
    assert_eq!(board.next_affordance_id, 1);
}

#[test]
fn generated_ids_count_up_and_are_never_reused() {
    let mut board = Breadboard::new("Ids".to_string());
    assert_eq!(board.generate_place_id(), 1);
    assert_eq!(board.generate_place_id(), 2);
    assert_eq!(board.generate_affordance_id(), 1);
    assert_eq!(board.generate_place_id(), 3);
    assert_eq!(board.generate_affordance_id(), 2);
    assert_eq!(board.next_place_id, 4);
    assert_eq!(board.next_affordance_id, 3);
}

#[test]
fn created_entities_get_distinct_ids_in_order() {
    let board = sample_board();
    let place_ids: Vec<u32> = board.places.iter().map(|p| p.id).collect();
    assert_eq!(place_ids, vec![1, 2, 3]);
    let a_ids: Vec<u32> = board.places[0].affordances.iter().map(|a| a.id).collect();
    assert_eq!(a_ids, vec![1, 2]);
    let c_ids: Vec<u32> = board.places[2].affordances.iter().map(|a| a.id).collect();
    assert_eq!(c_ids, vec![4, 5]);
    assert_eq!(board.next_place_id, 4);
    assert_eq!(board.next_affordance_id, 6);
}

#[test]
fn incoming_connections_come_in_place_then_affordance_order() {
    let board = sample_board();
    let incoming = board.get_incoming_connections(&2);
    let pairs: Vec<(u32, u32)> = incoming.iter().map(|(p, a)| (p.id, a.id)).collect();
    assert_eq!(pairs, vec![(1, 1), (3, 4), (3, 5)]);
    assert!(board.get_incoming_connections(&1).is_empty());
    assert!(board.get_incoming_connections(&77).is_empty());
}

#[test]
fn find_place_index_gives_the_first_match() {
    let mut board = Breadboard::new("Dup".to_string());
    board.add_place(Place::new(7, "first".to_string()));
    board.add_place(Place::new(8, "other".to_string()));
    board.add_place(Place::new(7, "second".to_string()));
    assert_eq!(board.find_place_index(7), Some(0));
    assert_eq!(board.find_place_index(8), Some(1));
    assert_eq!(board.find_place_index(9), None);
    assert_eq!(board.find_place(&7).unwrap().name, "first");
}

#[test]
fn find_place_mut_changes_the_place_in_the_board() {
    let mut board = sample_board();
    board.find_place_mut(&2).unwrap().name = "Renamed".to_string();
    assert_eq!(board.places[1].name, "Renamed");
    assert_eq!(board.places[0].name, "A");
    assert!(board.find_place_mut(&42).is_none());
}

#[test]
fn find_affordance_index_in_a_place() {
    let board = sample_board();
    assert_eq!(board.places[2].find_affordance_index(5), Some(1));
    assert_eq!(board.places[2].find_affordance_index(1), None);
}

#[test]
fn add_affordance_to_an_unknown_place_changes_nothing() {
    let mut board = sample_board();
    board.add_affordance_to(99, Affordance::new(50, "lost".to_string()));
    let counts: Vec<usize> = board.places.iter().map(|p| p.affordances.len()).collect();
    assert_eq!(counts, vec![2, 1, 2]);
    board.add_affordance_to(2, Affordance::new(50, "kept".to_string()));
    assert_eq!(board.places[1].affordances[1].name, "kept");
    assert_eq!(board.places[1].affordances[1].id, 50);
}

#[test]
fn sync_id_counters_takes_the_largest_ids_plus_one() {
    let mut board = Breadboard::new("Loaded".to_string());
    let mut p = Place::new(10, "ten".to_string());
    p.add_affordance(Affordance::new(7, "seven".to_string()));
    p.add_affordance(Affordance::new(3, "three".to_string()));
    board.add_place(p);
    let mut q = Place::new(4, "four".to_string());
    q.add_affordance(Affordance::new(21, "twenty-one".to_string()));
    board.add_place(q);
    board.next_place_id = 900;
    board.next_affordance_id = 2;
    assert_eq!(board.largest_place_id(), 10);
    assert_eq!(board.largest_affordance_id(), 21);
    board.sync_id_counters();
    assert_eq!(board.next_place_id, 11);
    assert_eq!(board.next_affordance_id, 22);
}

#[test]
fn sync_id_counters_of_an_empty_board_gives_one() {
    let mut board = Breadboard::new("Empty".to_string());
    board.next_place_id = 55;
    board.next_affordance_id = 66;
    board.sync_id_counters();
    assert_eq!(board.next_place_id, 1);
    assert_eq!(board.next_affordance_id, 1);
}

#[test]
fn remove_place_keeps_the_others_and_their_connections() {
    let mut board = sample_board();
    board.remove_place(2);
    let ids: Vec<u32> = board.places.iter().map(|p| p.id).collect();
    assert_eq!(ids, vec![1, 3]);
    assert_eq!(board.places[0].affordances[0].connects_to, Some(2));
    assert_eq!(board.places[1].affordances[0].connects_to, Some(2));
    assert!(board.find_place(&2).is_none());
    assert_eq!(board.next_place_id, 4);
}

#[test]
fn remove_place_with_an_unknown_id_changes_nothing() {
    let mut board = sample_board();
    board.remove_place(99);
    let ids: Vec<u32> = board.places.iter().map(|p| p.id).collect();
    assert_eq!(ids, vec![1, 2, 3]);
}

#[test]
fn remove_affordance_keeps_the_order_of_the_rest() {
    let mut board = sample_board();
    board.create_affordance(3, "third".to_string());
    board.remove_affordance_from(3, 5);
    let ids: Vec<u32> = board.places[2].affordances.iter().map(|a| a.id).collect();
    assert_eq!(ids, vec![4, 6]);
    board.remove_affordance_from(3, 77);
    board.remove_affordance_from(77, 4);
    let ids: Vec<u32> = board.places[2].affordances.iter().map(|a| a.id).collect();
    assert_eq!(ids, vec![4, 6]);
    let mut place = Place::new(1, "p".to_string());
    place.add_affordance(Affordance::new(1, "x".to_string()));
    place.add_affordance(Affordance::new(2, "y".to_string()));
    place.remove_affordance(1);
    assert_eq!(place.affordances.len(), 1);
    assert_eq!(place.affordances[0].id, 2);
}

#[test]
fn rename_and_connect_touch_only_their_target() {
    let mut board = sample_board();
    board.rename_place(2, "Bee".to_string());
    board.rename_affordance(3, 5, "renamed".to_string());
    board.set_connection(1, 2, Some(3));
    board.set_connection(1, 1, None);
    board.rename_place(99, "nobody".to_string());
    board.rename_affordance(1, 99, "nobody".to_string());
    board.set_connection(99, 1, Some(1));
    let names: Vec<&str> = board.places.iter().map(|p| p.name.as_str()).collect();
    assert_eq!(names, vec!["A", "Bee", "C"]);
    assert_eq!(board.places[2].affordances[1].name, "renamed");
    assert_eq!(board.places[2].affordances[0].name, "to b too");
    assert_eq!(board.places[0].affordances[1].connects_to, Some(3));
    assert_eq!(board.places[0].affordances[0].connects_to, None);
    assert_eq!(board.places[1].affordances[0].connects_to, Some(3));
}

#[test]
fn a_connection_may_name_a_place_that_does_not_exist() {
    let mut board = sample_board();
    board.set_connection(1, 2, Some(4000));
    assert_eq!(board.places[0].affordances[1].connects_to, Some(4000));
    assert!(board.find_place(&4000).is_none());
}
