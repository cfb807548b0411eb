//! The dispatcher: what each abstract action does to the application, given
//! the mode it arrives in.
//!
//! The dispatcher reads no file and draws nothing. Where an action needs the
//! outside world, the dispatcher returns an `Effect` that says what to do,
//! and the caller reports back through `App::start_file_opening` or
//! `App::open_breadboard`.

use vstd::prelude::*;
use vstd::string::*;
use crate::app::{
    App, AppState, Selection, navigated_back, navigated_to, place_candidates, place_domain,
    selected_place_id,
};
use crate::input::{Action, ActionView, Mode, TextDelta, classify_delta, delta_of};
use crate::models::{
    Breadboard, lemma_first_index, affordance_created, affordance_removed, affordance_renamed,
    connection_set, place_created, place_removed, place_renamed,
};
use crate::picker::{
    Pick, Picker, all_items, cursor_down, cursor_up, edited_query, picker_edited, results_for,
    sentinel_prefix,
};
use crate::text::{decimal, numbered_name, pop_char, same_text};

verus! {

/// What the caller has to do after an action.
#[derive(Debug, Clone)]
pub enum Effect {
    /// Nothing.
    Nothing,
    /// List the files that can be opened, and hand them to
    /// `App::start_file_opening`.
    ListFiles,
    /// Read the breadboard in the file of this name, and hand it to
    /// `App::open_breadboard`.
    LoadFile(String),
    /// Write the breadboard to the file of this name.
    SaveFile(String),
}

/// An effect with its file name seen as a sequence of characters.
pub ghost enum EffectView {
    Nothing,
    ListFiles,
    LoadFile(Seq<char>),
    SaveFile(Seq<char>),
}

impl View for Effect {
    type V = EffectView;

    open spec fn view(&self) -> EffectView {
        match *self {
            Effect::Nothing => EffectView::Nothing,
            Effect::ListFiles => EffectView::ListFiles,
            Effect::LoadFile(name) => EffectView::LoadFile(name@),
            Effect::SaveFile(name) => EffectView::SaveFile(name@),
        }
    }
}

/// The first place as a selection; `None` where there is no place.
pub open spec fn first_place(board: Breadboard) -> Option<Selection> {
    if board.places@.len() > 0 {
        Some(Selection::Place(board.places@[0].id))
    } else {
        None
    }
}

/// The selection one step up.
///
/// From an affordance: the affordance before it in its place, or the place
/// itself from the first affordance. From a place: the place before it.
/// From nothing: the first place. Where there is nowhere to go, or where the
/// selected entity is not in the breadboard, the selection stays.
pub open spec fn moved_up(board: Breadboard, selection: Option<Selection>) -> Option<Selection> {
    match selection {
        Some(Selection::Affordance { place_id, affordance_id }) => match board.affordance_position(
            place_id,
            affordance_id,
        ) {
            Some((i, j)) => if j > 0 {
                Some(
                    Selection::Affordance {
                        place_id,
                        affordance_id: board.places@[i].affordances@[j - 1].id,
                    },
                )
            } else {
                Some(Selection::Place(place_id))
            },
            None => selection,
        },
        Some(Selection::Place(id)) => match board.place_index(id) {
            Some(i) => if i > 0 {
                Some(Selection::Place(board.places@[i - 1].id))
            } else {
                selection
            },
            None => selection,
        },
        None => first_place(board),
    }
}

/// The selection one step down.
///
/// From a place: its first affordance, or the place after it where it has
/// no affordance. From an affordance: the affordance after it in its place.
/// From nothing: the first place. Where there is nowhere to go, or where the
/// selected entity is not in the breadboard, the selection stays.
pub open spec fn moved_down(board: Breadboard, selection: Option<Selection>) -> Option<Selection> {
    match selection {
        Some(Selection::Place(id)) => match board.place_index(id) {
            Some(i) => if board.places@[i].affordances@.len() > 0 {
                Some(
                    Selection::Affordance {
                        place_id: id,
                        affordance_id: board.places@[i].affordances@[0].id,
                    },
                )
            } else if i + 1 < board.places@.len() {
                Some(Selection::Place(board.places@[i + 1].id))
            } else {
                selection
            },
            None => selection,
        },
        Some(Selection::Affordance { place_id, affordance_id }) => match board.affordance_position(
            place_id,
            affordance_id,
        ) {
            Some((i, j)) => if j + 1 < board.places@[i].affordances@.len() {
                Some(
                    Selection::Affordance {
                        place_id,
                        affordance_id: board.places@[i].affordances@[j + 1].id,
                    },
                )
            } else {
                selection
            },
            None => selection,
        },
        None => first_place(board),
    }
}

/// The selection one place to the right: the place after the one that the
/// selection lies in. At the last place, or where that place is not in the
/// breadboard, the selection stays; from nothing it is the first place.
pub open spec fn moved_right(board: Breadboard, selection: Option<Selection>) -> Option<Selection> {
    match selected_place_id(selection) {
        Some(id) => match board.place_index(id) {
            Some(i) => if i + 1 < board.places@.len() {
                Some(Selection::Place(board.places@[i + 1].id))
            } else {
                selection
            },
            None => selection,
        },
        None => first_place(board),
    }
}

/// The selection one place to the left: the place before the one that the
/// selection lies in. At the first place, or where that place is not in the
/// breadboard, the selection stays; from nothing it is the first place.
pub open spec fn moved_left(board: Breadboard, selection: Option<Selection>) -> Option<Selection> {
    match selected_place_id(selection) {
        Some(id) => match board.place_index(id) {
            Some(i) => if i > 0 {
                Some(Selection::Place(board.places@[i - 1].id))
            } else {
                selection
            },
            None => selection,
        },
        None => first_place(board),
    }
}

/// The application after `NavigateUp`: in a mode that picks, the cursor of
/// its picker goes up; in `Navigate` mode the cursor of the place search
/// goes up while the search is on, and the selection otherwise; in the
/// other modes nothing changes.
pub open spec fn navigated_up(before: App, after: App) -> bool {
    &&& after.breadboard == before.breadboard
    &&& after.should_quit == before.should_quit
    &&& after.state == match before.state.mode {
        Mode::Connect => AppState {
            connection_picker: Picker {
                selected_index: cursor_up(
                    before.state.connection_picker.selected_index,
                    before.state.connection_picker.results@.len(),
                ),
                ..before.state.connection_picker
            },
            ..before.state
        },
        Mode::OpenFile => AppState {
            file_picker: Picker {
                selected_index: cursor_up(
                    before.state.file_picker.selected_index,
                    before.state.file_picker.results@.len(),
                ),
                ..before.state.file_picker
            },
            ..before.state
        },
        Mode::Navigate => if before.state.is_searching_places {
            AppState {
                place_picker: Picker {
                    selected_index: cursor_up(
                    before.state.place_picker.selected_index,
                    before.state.place_picker.results@.len(),
                ),
                    ..before.state.place_picker
                },
                ..before.state
            }
        } else {
            AppState {
                selection: moved_up(before.breadboard, before.state.selection),
                ..before.state
            }
        },
        _ => before.state,
    }
}

/// The application after `NavigateDown`: as after `NavigateUp`, downwards.
pub open spec fn navigated_down(before: App, after: App) -> bool {
    &&& after.breadboard == before.breadboard
    &&& after.should_quit == before.should_quit
    &&& after.state == match before.state.mode {
        Mode::Connect => AppState {
            connection_picker: Picker {
                selected_index: cursor_down(
                    before.state.connection_picker.selected_index,
                    before.state.connection_picker.results@.len(),
                ),
                ..before.state.connection_picker
            },
            ..before.state
        },
        Mode::OpenFile => AppState {
            file_picker: Picker {
                selected_index: cursor_down(
                    before.state.file_picker.selected_index,
                    before.state.file_picker.results@.len(),
                ),
                ..before.state.file_picker
            },
            ..before.state
        },
        Mode::Navigate => if before.state.is_searching_places {
            AppState {
                place_picker: Picker {
                    selected_index: cursor_down(
                        before.state.place_picker.selected_index,
                        before.state.place_picker.results@.len(),
                    ),
                    ..before.state.place_picker
                },
                ..before.state
            }
        } else {
            AppState {
                selection: moved_down(before.breadboard, before.state.selection),
                ..before.state
            }
        },
        _ => before.state,
    }
}

/// The application with another selection and nothing else changed.
pub open spec fn reselected(before: App, after: App, selection: Option<Selection>) -> bool {
    &&& after.breadboard == before.breadboard
    &&& after.should_quit == before.should_quit
    &&& after.state == AppState { selection, ..before.state }
}

/// The first place of `board` as a selection.
pub fn select_first_place(board: &Breadboard) -> (selection: Option<Selection>)
    ensures
        selection == first_place(*board),
{
    if board.places.len() > 0 {
        Some(Selection::Place(board.places[0].id))
    } else {
        None
    }
}

/// Where the affordance `affordance_id` of the place `place_id` stands.
pub fn find_affordance_position(board: &Breadboard, place_id: u32, affordance_id: u32) -> (res:
    Option<(usize, usize)>)
    ensures
        match res {
            Some((i, j)) => board.affordance_position(place_id, affordance_id) == Some(
                (i as int, j as int),
            ) && i < board.places@.len() && j < board.places@[i as int].affordances@.len(),
            None => board.affordance_position(place_id, affordance_id).is_none(),
        },
{
    match board.find_place_index(place_id) {
        Some(i) => match board.places[i].find_affordance_index(affordance_id) {
            Some(j) => Some((i, j)),
            None => None,
        },
        None => None,
    }
}

/// The selection one step up from `selection`.
pub fn selection_above(board: &Breadboard, selection: Option<Selection>) -> (res: Option<Selection>)
    ensures
        res == moved_up(*board, selection),
{
    match selection {
        Some(Selection::Affordance { place_id, affordance_id }) => {
            match find_affordance_position(board, place_id, affordance_id) {
                Some((i, j)) => {
                    if j > 0 {
                        Some(
                            Selection::Affordance {
                                place_id,
                                affordance_id: board.places[i].affordances[j - 1].id,
                            },
                        )
                    } else {
                        Some(Selection::Place(place_id))
                    }
                },
                None => selection,
            }
        },
        Some(Selection::Place(id)) => {
            match board.find_place_index(id) {
                Some(i) => {
                    if i > 0 {
                        Some(Selection::Place(board.places[i - 1].id))
                    } else {
                        selection
                    }
                },
                None => selection,
            }
        },
        None => select_first_place(board),
    }
}

/// The selection one step down from `selection`.
pub fn selection_below(board: &Breadboard, selection: Option<Selection>) -> (res: Option<Selection>)
    ensures
        res == moved_down(*board, selection),
{
    match selection {
        Some(Selection::Place(id)) => {
            match board.find_place_index(id) {
                Some(i) => {
                    if board.places[i].affordances.len() > 0 {
                        Some(
                            Selection::Affordance {
                                place_id: id,
                                affordance_id: board.places[i].affordances[0].id,
                            },
                        )
                    } else if i < board.places.len() - 1 {
                        Some(Selection::Place(board.places[i + 1].id))
                    } else {
                        selection
                    }
                },
                None => selection,
            }
        },
        Some(Selection::Affordance { place_id, affordance_id }) => {
            match find_affordance_position(board, place_id, affordance_id) {
                Some((i, j)) => {
                    if j < board.places[i].affordances.len() - 1 {
                        Some(
                            Selection::Affordance {
                                place_id,
                                affordance_id: board.places[i].affordances[j + 1].id,
                            },
                        )
                    } else {
                        selection
                    }
                },
                None => selection,
            }
        },
        None => select_first_place(board),
    }
}

/// The id of the place that `selection` lies in.
pub fn selection_place_id(selection: Option<Selection>) -> (id: Option<u32>)
    ensures
        id == selected_place_id(selection),
{
    match selection {
        Some(Selection::Place(id)) => Some(id),
        Some(Selection::Affordance { place_id, affordance_id }) => Some(place_id),
        None => None,
    }
}

/// The selection one place to the right of `selection`.
pub fn selection_right(board: &Breadboard, selection: Option<Selection>) -> (res: Option<Selection>)
    ensures
        res == moved_right(*board, selection),
{
    match selection_place_id(selection) {
        Some(id) => {
            match board.find_place_index(id) {
                Some(i) => {
                    if i < board.places.len() - 1 {
                        Some(Selection::Place(board.places[i + 1].id))
                    } else {
                        selection
                    }
                },
                None => selection,
            }
        },
        None => select_first_place(board),
    }
}

/// The selection one place to the left of `selection`.
pub fn selection_left(board: &Breadboard, selection: Option<Selection>) -> (res: Option<Selection>)
    ensures
        res == moved_left(*board, selection),
{
    match selection_place_id(selection) {
        Some(id) => {
            match board.find_place_index(id) {
                Some(i) => {
                    if i > 0 {
                        Some(Selection::Place(board.places[i - 1].id))
                    } else {
                        selection
                    }
                },
                None => selection,
            }
        },
        None => select_first_place(board),
    }
}

/// Moves up: the cursor of the pick that is under way, or else the
/// selection.
pub fn navigate_up(app: &mut App)
    ensures
        navigated_up(*old(app), *final(app)),
{
    match app.state.mode {
        Mode::Connect => {
            app.state.connection_picker.move_up();
        },
        Mode::OpenFile => {
            app.state.file_picker.move_up();
        },
        Mode::Navigate => {
            if app.state.is_searching_places {
                app.state.place_picker.move_up();
            } else {
                app.state.selection = selection_above(&app.breadboard, app.state.selection);
            }
        },
        _ => {},
    }
}

/// Moves down: the cursor of the pick that is under way, or else the
/// selection.
pub fn navigate_down(app: &mut App)
    ensures
        navigated_down(*old(app), *final(app)),
{
    match app.state.mode {
        Mode::Connect => {
            app.state.connection_picker.move_down();
        },
        Mode::OpenFile => {
            app.state.file_picker.move_down();
        },
        Mode::Navigate => {
            if app.state.is_searching_places {
                app.state.place_picker.move_down();
            } else {
                app.state.selection = selection_below(&app.breadboard, app.state.selection);
            }
        },
        _ => {},
    }
}

/// Selects the place after the one that the selection lies in.
pub fn navigate_right(app: &mut App)
    ensures
        reselected(*old(app), *final(app), moved_right(old(app).breadboard, old(app).state.selection)),
{
    app.state.selection = selection_right(&app.breadboard, app.state.selection);
}

/// Selects the place before the one that the selection lies in.
pub fn navigate_left(app: &mut App)
    ensures
        reselected(*old(app), *final(app), moved_left(old(app).breadboard, old(app).state.selection)),
{
    app.state.selection = selection_left(&app.breadboard, app.state.selection);
}

/// The destination of the selected affordance: `None` where no affordance
/// is selected, where the selected affordance is not in the breadboard, or
/// where it leads nowhere.
pub open spec fn followed_connection(board: Breadboard, selection: Option<Selection>) -> Option<u32> {
    match selection {
        Some(Selection::Affordance { place_id, affordance_id }) => match board.affordance_position(
            place_id,
            affordance_id,
        ) {
            Some((i, j)) => board.places@[i].affordances@[j].connects_to,
            None => None,
        },
        _ => None,
    }
}

/// The name of the selected entity; `None` where nothing is selected or
/// where the selected entity is not in the breadboard.
pub open spec fn selected_name(board: Breadboard, selection: Option<Selection>) -> Option<String> {
    match selection {
        Some(Selection::Place(id)) => match board.place_index(id) {
            Some(i) => Some(board.places@[i].name),
            None => None,
        },
        Some(Selection::Affordance { place_id, affordance_id }) => match board.affordance_position(
            place_id,
            affordance_id,
        ) {
            Some((i, j)) => Some(board.places@[i].affordances@[j].name),
            None => None,
        },
        None => None,
    }
}

/// What the connection pick asks for: `Some(None)` to remove the
/// connection, where the cursor stands on the sentinel; `Some(Some(id))` to
/// connect to the place `id`, where the cursor stands on a place that the
/// breadboard holds; `None` to do nothing.
pub open spec fn connection_choice(app: App) -> Option<Option<u32>> {
    match app.state.connection_picker.selected() {
        Some(Pick::Sentinel) => Some(None),
        Some(Pick::Item(id)) => if app.breadboard.has_place(id) {
            Some(Some(id))
        } else {
            None
        },
        None => None,
    }
}

/// `Select` in the place search: the place under the cursor is selected
/// and the search ends. Without such a place nothing changes.
pub open spec fn jump_committed(before: App, after: App) -> bool {
    &&& after.breadboard == before.breadboard
    &&& after.should_quit == before.should_quit
    &&& match before.picked_place_index(before.state.place_picker) {
        Some(i) => {
            &&& after.state == AppState {
                selection: Some(Selection::Place(before.breadboard.places@[i].id)),
                is_searching_places: false,
                place_picker: after.state.place_picker,
                ..before.state
            }
            &&& after.state.place_picker.is_idle()
        },
        None => after.state == before.state,
    }
}

/// `Select` in `Navigate` mode outside the place search: the connection of
/// the selected affordance is followed. Without one nothing changes.
pub open spec fn connection_followed(before: App, after: App) -> bool {
    &&& after.breadboard == before.breadboard
    &&& after.should_quit == before.should_quit
    &&& match followed_connection(before.breadboard, before.state.selection) {
        Some(destination) => {
            &&& (after.state.selection, after.state.navigation_trail@) == navigated_to(
                before.breadboard,
                before.state.selection,
                before.state.navigation_trail@,
                destination,
            )
            &&& after.state == AppState {
                selection: after.state.selection,
                navigation_trail: after.state.navigation_trail,
                ..before.state
            }
        },
        None => after.state == before.state,
    }
}

/// `Select` in `Edit` mode: the selected entity gets the edit buffer as its
/// name, the buffer is emptied, and the mode is `Navigate` again.
pub open spec fn edit_committed(before: App, after: App) -> bool {
    &&& after.should_quit == before.should_quit
    &&& after.state == AppState {
        mode: Mode::Navigate,
        edit_buffer: after.state.edit_buffer,
        ..before.state
    }
    &&& after.state.edit_buffer@.len() == 0
    &&& match before.state.selection {
        Some(Selection::Place(id)) => place_renamed(
            before.breadboard,
            after.breadboard,
            id,
            before.state.edit_buffer,
        ),
        Some(Selection::Affordance { place_id, affordance_id }) => affordance_renamed(
            before.breadboard,
            after.breadboard,
            place_id,
            affordance_id,
            before.state.edit_buffer,
        ),
        None => after.breadboard == before.breadboard,
    }
}

/// `Select` in `Connect` mode: the selected affordance gets the connection
/// that the pick asks for, the pick ends, and the mode is `Navigate` again.
pub open spec fn connect_committed(before: App, after: App) -> bool {
    &&& after.should_quit == before.should_quit
    &&& after.state == AppState {
        mode: Mode::Navigate,
        connection_picker: after.state.connection_picker,
        ..before.state
    }
    &&& after.state.connection_picker.is_idle()
    &&& match (before.state.selection, connection_choice(before)) {
        (Some(Selection::Affordance { place_id, affordance_id }), Some(choice)) => connection_set(
            before.breadboard,
            after.breadboard,
            place_id,
            affordance_id,
            choice,
        ),
        _ => after.breadboard == before.breadboard,
    }
}

/// `Select` in `OpenFile` mode: the file under the cursor is to be loaded,
/// the pick ends, and the mode is `Navigate` again.
pub open spec fn open_committed(before: App, after: App, effect: EffectView) -> bool {
    &&& after.breadboard == before.breadboard
    &&& after.should_quit == before.should_quit
    &&& after.state == AppState {
        mode: Mode::Navigate,
        file_list: after.state.file_list,
        file_picker: after.state.file_picker,
        ..before.state
    }
    &&& after.state.file_list@.len() == 0
    &&& after.state.file_picker.is_idle()
    &&& effect == match before.selected_file_index() {
        Some(i) => EffectView::LoadFile(before.state.file_list@[i]@),
        None => EffectView::Nothing,
    }
}

/// The application after `Select`, and what it asks of the caller.
pub open spec fn selected(before: App, after: App, effect: EffectView) -> bool {
    match before.state.mode {
        Mode::Navigate => effect == EffectView::Nothing && if before.state.is_searching_places {
            jump_committed(before, after)
        } else {
            connection_followed(before, after)
        },
        Mode::Edit => effect == EffectView::Nothing && edit_committed(before, after),
        Mode::Connect => effect == EffectView::Nothing && connect_committed(before, after),
        Mode::OpenFile => open_committed(before, after, effect),
        _ => effect == EffectView::Nothing && after == before,
    }
}

/// The application after `Back`: a mode other than `Navigate` is left and
/// what was pending in it is dropped; in `Navigate` mode the place search
/// ends where it is on, and otherwise the selection steps back along the
/// trail. In the reserved modes nothing changes.
pub open spec fn backed(before: App, after: App) -> bool {
    &&& after.breadboard == before.breadboard
    &&& after.should_quit == before.should_quit
    &&& match before.state.mode {
        Mode::Edit => {
            &&& after.state == AppState {
                mode: Mode::Navigate,
                edit_buffer: after.state.edit_buffer,
                ..before.state
            }
            &&& after.state.edit_buffer@.len() == 0
        },
        Mode::Connect => {
            &&& after.state == AppState {
                mode: Mode::Navigate,
                connection_picker: after.state.connection_picker,
                ..before.state
            }
            &&& after.state.connection_picker.is_idle()
        },
        Mode::OpenFile => {
            &&& after.state == AppState {
                mode: Mode::Navigate,
                file_list: after.state.file_list,
                file_picker: after.state.file_picker,
                ..before.state
            }
            &&& after.state.file_list@.len() == 0
            &&& after.state.file_picker.is_idle()
        },
        Mode::Navigate => if before.state.is_searching_places {
            &&& after.state == AppState {
                is_searching_places: false,
                place_picker: after.state.place_picker,
                ..before.state
            }
            &&& after.state.place_picker.is_idle()
        } else {
            &&& (after.state.selection, after.state.navigation_trail@) == navigated_back(
                before.state.selection,
                before.state.navigation_trail@,
            )
            &&& after.state == AppState {
                selection: after.state.selection,
                navigation_trail: after.state.navigation_trail,
                ..before.state
            }
        },
        _ => after.state == before.state,
    }
}

/// The application after the text delta `text`.
///
/// In `Edit` mode the delta edits the edit buffer. In `Connect` mode it
/// edits the query of the connection pick, and in the place search that of
/// the search. In `Navigate` mode outside the search, text to insert turns
/// the search on with that text as its query. Everywhere else nothing
/// changes.
pub open spec fn edited(before: App, after: App, text: Seq<char>) -> bool {
    &&& after.breadboard == before.breadboard
    &&& after.should_quit == before.should_quit
    &&& match before.state.mode {
        Mode::Edit => {
            &&& after.state == AppState { edit_buffer: after.state.edit_buffer, ..before.state }
            &&& after.state.edit_buffer@ == edited_query(
                before.state.edit_buffer@,
                delta_of(text),
                text,
            )
        },
        Mode::Connect => {
            &&& after.state == AppState {
                connection_picker: after.state.connection_picker,
                ..before.state
            }
            &&& picker_edited(
                before.state.connection_picker,
                after.state.connection_picker,
                delta_of(text),
                text,
                place_domain(before.breadboard.places@),
                true,
            )
        },
        Mode::Navigate => if before.state.is_searching_places {
            &&& after.state == AppState { place_picker: after.state.place_picker, ..before.state }
            &&& picker_edited(
                before.state.place_picker,
                after.state.place_picker,
                delta_of(text),
                text,
                place_domain(before.breadboard.places@),
                false,
            )
        } else if delta_of(text) == TextDelta::Insert {
            &&& after.state == AppState {
                is_searching_places: true,
                place_picker: after.state.place_picker,
                ..before.state
            }
            &&& after.state.place_picker.query@ == text
            &&& after.state.place_picker.results@ == results_for(
                place_domain(before.breadboard.places@),
                text,
                false,
            )
            &&& after.state.place_picker.selected_index == Some(0usize)
        } else {
            after.state == before.state
        },
        _ => after.state == before.state,
    }
}

/// The application after `NewPlace`: one more place, named `Place` and its
/// number in the list. Where the place ids are used up nothing changes.
pub open spec fn place_added(before: App, after: App) -> bool {
    &&& after.state == before.state
    &&& after.should_quit == before.should_quit
    &&& if before.breadboard.next_place_id < u32::MAX {
        place_created(
            before.breadboard,
            after.breadboard,
            "Place"@ + seq![' '] + decimal((before.breadboard.places@.len() + 1) as nat),
        )
    } else {
        after.breadboard == before.breadboard
    }
}

/// The application after `NewAffordance`: one more affordance in the place
/// that the selection lies in, named `Action` and its number in the list.
/// Without such a place, or where the affordance ids are used up, nothing
/// changes.
pub open spec fn affordance_added_to_selected(before: App, after: App) -> bool {
    &&& after.state == before.state
    &&& after.should_quit == before.should_quit
    &&& match before.selected_place_index() {
        Some(i) => if before.breadboard.next_affordance_id < u32::MAX {
            affordance_created(
                before.breadboard,
                after.breadboard,
                selected_place_id(before.state.selection).unwrap(),
                "Action"@ + seq![' '] + decimal(
                    (before.breadboard.places@[i].affordances@.len() + 1) as nat,
                ),
            )
        } else {
            after.breadboard == before.breadboard
        },
        None => after.breadboard == before.breadboard,
    }
}

/// The application after `RemoveConnection`: the selected affordance leads
/// nowhere. Without a selected affordance nothing changes.
pub open spec fn connection_removed(before: App, after: App) -> bool {
    &&& after.state == before.state
    &&& after.should_quit == before.should_quit
    &&& match before.state.selection {
        Some(Selection::Affordance { place_id, affordance_id }) => connection_set(
            before.breadboard,
            after.breadboard,
            place_id,
            affordance_id,
            None,
        ),
        _ => after.breadboard == before.breadboard,
    }
}

/// The application after `EnterEditMode`: from `Navigate` mode with a
/// selection, the mode is `Edit` and the edit buffer holds the name of the
/// selected entity (it keeps what it held where that entity is not in the
/// breadboard). Otherwise nothing changes.
pub open spec fn edit_entered(before: App, after: App) -> bool {
    &&& after.breadboard == before.breadboard
    &&& after.should_quit == before.should_quit
    &&& if before.state.mode == Mode::Navigate && before.state.selection.is_some() {
        &&& after.state == AppState {
            mode: Mode::Edit,
            edit_buffer: after.state.edit_buffer,
            ..before.state
        }
        &&& after.state.edit_buffer == match selected_name(
            before.breadboard,
            before.state.selection,
        ) {
            Some(name) => name,
            None => before.state.edit_buffer,
        }
    } else {
        after.state == before.state
    }
}

/// The application after `EnterConnectMode`: from `Navigate` mode with an
/// affordance selected, the mode is `Connect` and the connection pick
/// begins. Otherwise nothing changes.
pub open spec fn connect_entered(before: App, after: App) -> bool {
    &&& after.breadboard == before.breadboard
    &&& after.should_quit == before.should_quit
    &&& if before.state.mode == Mode::Navigate && before.state.selection matches Some(
        Selection::Affordance { .. },
    ) {
        &&& after.state == AppState {
            mode: Mode::Connect,
            connection_picker: after.state.connection_picker,
            ..before.state
        }
        &&& after.state.connection_picker.query@.len() == 0
        &&& after.state.connection_picker.results@ == sentinel_prefix::<u32>(true) + all_items(
            place_domain(before.breadboard.places@),
        )
        &&& after.state.connection_picker.selected_index == Some(0usize)
    } else {
        after.state == before.state
    }
}

/// The application after `Open`, and what it asks of the caller: from
/// `Navigate` mode, the mode is `OpenFile` and the files are to be listed.
/// Otherwise nothing changes.
pub open spec fn open_entered(before: App, after: App, effect: EffectView) -> bool {
    &&& after.breadboard == before.breadboard
    &&& after.should_quit == before.should_quit
    &&& if before.state.mode == Mode::Navigate {
        &&& after.state == AppState { mode: Mode::OpenFile, ..before.state }
        &&& effect == EffectView::ListFiles
    } else {
        &&& after.state == before.state
        &&& effect == EffectView::Nothing
    }
}

/// The application after `Delete`: a selected place is removed and nothing
/// is selected; a selected affordance is removed and its place is selected.
/// The trail stays, and so does every connection into a removed place.
pub open spec fn deleted(before: App, after: App) -> bool {
    &&& after.should_quit == before.should_quit
    &&& match before.state.selection {
        Some(Selection::Place(id)) => {
            &&& place_removed(before.breadboard, after.breadboard, id)
            &&& after.state == AppState { selection: None, ..before.state }
        },
        Some(Selection::Affordance { place_id, affordance_id }) => {
            &&& affordance_removed(before.breadboard, after.breadboard, place_id, affordance_id)
            &&& after.state == AppState {
                selection: Some(Selection::Place(place_id)),
                ..before.state
            }
        },
        None => after.breadboard == before.breadboard && after.state == before.state,
    }
}

/// The application after `Filter`: the filter `connected` is taken off
/// where it was on, and put on otherwise.
pub open spec fn filter_toggled(before: App, after: App) -> bool {
    &&& after.breadboard == before.breadboard
    &&& after.should_quit == before.should_quit
    &&& after.state == AppState { filter: after.state.filter, ..before.state }
    &&& match before.state.filter {
        Some(filter) => if filter@ == "connected"@ {
            after.state.filter.is_none()
        } else {
            after.state.filter.is_some() && after.state.filter.unwrap()@ == "connected"@
        },
        None => after.state.filter.is_some() && after.state.filter.unwrap()@ == "connected"@,
    }
}

/// Applies `Select` in the current mode.
pub fn handle_select(app: &mut App) -> (effect: Effect)
    ensures
        selected(*old(app), *final(app), effect@),
        old(app).breadboard.wf() ==> final(app).breadboard.wf(),
{
    match app.state.mode {
        Mode::Navigate => {
            if app.state.is_searching_places {
                let target = match app.get_selected_search_place() {
                    Some(place) => Some(place.id),
                    None => None,
                };
                match target {
                    Some(id) => {
                        app.state.selection = Some(Selection::Place(id));
                        app.clear_place_search();
                    },
                    None => {},
                }
            } else {
                let destination = match app.state.selection {
                    Some(Selection::Affordance { place_id, affordance_id }) => {
                        match find_affordance_position(&app.breadboard, place_id, affordance_id) {
                            Some((i, j)) => app.breadboard.places[i].affordances[j].connects_to,
                            None => None,
                        }
                    },
                    _ => None,
                };
                match destination {
                    Some(id) => {
                        app.navigate_to_place(id);
                    },
                    None => {},
                }
            }
            Effect::Nothing
        },
        Mode::Edit => {
            let new_name = app.state.edit_buffer.clone();
            match app.state.selection {
                Some(Selection::Place(id)) => {
                    app.breadboard.rename_place(id, new_name);
                },
                Some(Selection::Affordance { place_id, affordance_id }) => {
                    app.breadboard.rename_affordance(place_id, affordance_id, new_name);
                },
                None => {},
            }
            app.state.mode = Mode::Navigate;
            app.state.edit_buffer = String::new();
            Effect::Nothing
        },
        Mode::Connect => {
            let remove = app.is_remove_connection_selected();
            let picked = if remove {
                None
            } else {
                match app.get_selected_connection_place() {
                    Some(place) => Some(place.id),
                    None => None,
                }
            };
            proof {
                match app.state.connection_picker.selected() {
                    Some(Pick::Item(id)) => {
                        app.breadboard.lemma_place_index(id);
                    },
                    _ => {},
                }
            }
            match app.state.selection {
                Some(Selection::Affordance { place_id, affordance_id }) => {
                    if remove {
                        app.breadboard.set_connection(place_id, affordance_id, None);
                    } else {
                        match picked {
                            Some(id) => {
                                app.breadboard.set_connection(place_id, affordance_id, Some(id));
                            },
                            None => {},
                        }
                    }
                },
                _ => {},
            }
            app.state.mode = Mode::Navigate;
            app.clear_connection_search();
            Effect::Nothing
        },
        Mode::OpenFile => {
            let effect = match app.get_selected_file() {
                Some(name) => Effect::LoadFile(name.clone()),
                None => Effect::Nothing,
            };
            app.state.mode = Mode::Navigate;
            app.clear_file_selection();
            effect
        },
        _ => Effect::Nothing,
    }
}

/// Applies `Back` in the current mode.
pub fn handle_back(app: &mut App)
    ensures
        backed(*old(app), *final(app)),
{
    match app.state.mode {
        Mode::Edit => {
            app.state.mode = Mode::Navigate;
            app.state.edit_buffer = String::new();
        },
        Mode::Connect => {
            app.state.mode = Mode::Navigate;
            app.clear_connection_search();
        },
        Mode::OpenFile => {
            app.state.mode = Mode::Navigate;
            app.clear_file_selection();
        },
        Mode::Navigate => {
            if app.state.is_searching_places {
                app.clear_place_search();
            } else {
                app.navigate_back();
            }
        },
        _ => {},
    }
}

/// Creates a place with the next free name.
pub fn handle_new_place(app: &mut App)
    ensures
        place_added(*old(app), *final(app)),
        old(app).breadboard.wf() ==> final(app).breadboard.wf(),
{
    if app.breadboard.next_place_id < u32::MAX {
        let number = app.breadboard.places.len() as u128 + 1;
        let name = numbered_name("Place", number);
        app.new_place(name);
    }
}

/// Creates an affordance with the next free name in the place that the
/// selection lies in.
pub fn handle_new_affordance(app: &mut App)
    ensures
        affordance_added_to_selected(*old(app), *final(app)),
        old(app).breadboard.wf() ==> final(app).breadboard.wf(),
{
    match selection_place_id(app.state.selection) {
        Some(place_id) => {
            match app.breadboard.find_place_index(place_id) {
                Some(i) => {
                    if app.breadboard.next_affordance_id < u32::MAX {
                        let number = app.breadboard.places[i].affordances.len() as u128 + 1;
                        let name = numbered_name("Action", number);
                        app.breadboard.create_affordance(place_id, name);
                    }
                },
                None => {},
            }
        },
        None => {},
    }
}

/// Removes the connection of the selected affordance.
pub fn handle_remove_connection(app: &mut App)
    ensures
        connection_removed(*old(app), *final(app)),
        old(app).breadboard.wf() ==> final(app).breadboard.wf(),
{
    match app.state.selection {
        Some(Selection::Affordance { place_id, affordance_id }) => {
            app.breadboard.set_connection(place_id, affordance_id, None);
        },
        _ => {},
    }
}

/// Asks for the breadboard to be written to `breadboard.toml`. Nothing
/// changes.
pub fn handle_save(app: &App) -> (effect: Effect)
    ensures
        effect@ == EffectView::SaveFile("breadboard.toml"@),
{
    Effect::SaveFile("breadboard.toml".to_owned())
}

/// Enters `Edit` mode for the selected entity.
pub fn handle_enter_edit_mode(app: &mut App)
    ensures
        edit_entered(*old(app), *final(app)),
{
    if app.state.mode == Mode::Navigate {
        match app.state.selection {
            Some(Selection::Place(id)) => {
                app.state.mode = Mode::Edit;
                match app.breadboard.find_place_index(id) {
                    Some(i) => {
                        app.state.edit_buffer = app.breadboard.places[i].name.clone();
                    },
                    None => {},
                }
            },
            Some(Selection::Affordance { place_id, affordance_id }) => {
                app.state.mode = Mode::Edit;
                match find_affordance_position(&app.breadboard, place_id, affordance_id) {
                    Some((i, j)) => {
                        app.state.edit_buffer = app.breadboard.places[i].affordances[j].name.clone();
                    },
                    None => {},
                }
            },
            None => {},
        }
    }
}

/// Deletes the selected entity.
pub fn handle_delete(app: &mut App)
    ensures
        deleted(*old(app), *final(app)),
        old(app).breadboard.wf() ==> final(app).breadboard.wf(),
{
    match app.state.selection {
        Some(Selection::Place(id)) => {
            app.breadboard.remove_place(id);
            app.state.selection = None;
        },
        Some(Selection::Affordance { place_id, affordance_id }) => {
            app.breadboard.remove_affordance_from(place_id, affordance_id);
            app.state.selection = Some(Selection::Place(place_id));
        },
        None => {},
    }
}

/// Applies the text delta `text` in the current mode.
pub fn handle_edit(app: &mut App, text: String)
    ensures
        edited(*old(app), *final(app), text@),
{
    let delta = classify_delta(text.as_str());
    match app.state.mode {
        Mode::Edit => {
            match delta {
                TextDelta::Backspace => {
                    pop_char(&mut app.state.edit_buffer);
                },
                TextDelta::Delete => {
                    pop_char(&mut app.state.edit_buffer);
                },
                TextDelta::Insert => {
                    app.state.edit_buffer.append(text.as_str());
                },
                _ => {},
            }
        },
        Mode::Connect => {
            let domain = place_candidates(&app.breadboard);
            app.state.connection_picker.apply_delta(delta, text.as_str(), &domain, true);
        },
        Mode::Navigate => {
            if app.state.is_searching_places {
                let domain = place_candidates(&app.breadboard);
                app.state.place_picker.apply_delta(delta, text.as_str(), &domain, false);
            } else {
                match delta {
                    TextDelta::Insert => {
                        app.start_place_search();
                        let domain = place_candidates(&app.breadboard);
                        app.state.place_picker.type_text(text.as_str(), &domain, false);
                        assert(app.state.place_picker.query@ =~= text@);
                    },
                    _ => {},
                }
            }
        },
        _ => {},
    }
}

/// Enters `Connect` mode for the selected affordance.
pub fn handle_enter_connect_mode(app: &mut App)
    ensures
        connect_entered(*old(app), *final(app)),
{
    if app.state.mode == Mode::Navigate {
        match app.state.selection {
            Some(Selection::Affordance { place_id, affordance_id }) => {
                app.state.mode = Mode::Connect;
                app.start_connection_search();
            },
            _ => {},
        }
    }
}

/// Enters `OpenFile` mode and asks for the files to be listed.
pub fn handle_enter_open_mode(app: &mut App) -> (effect: Effect)
    ensures
        open_entered(*old(app), *final(app), effect@),
{
    if app.state.mode == Mode::Navigate {
        app.state.mode = Mode::OpenFile;
        Effect::ListFiles
    } else {
        Effect::Nothing
    }
}

/// Switches the filter `connected` on or off.
pub fn handle_filter(app: &mut App)
    ensures
        filter_toggled(*old(app), *final(app)),
{
    let on = match &app.state.filter {
        Some(filter) => same_text(filter.as_str(), "connected"),
        None => false,
    };
    if on {
        app.state.filter = None;
    } else {
        app.state.filter = Some("connected".to_owned());
    }
}

/// What `action` does to the application, and what it asks of the caller.
///
/// `SaveAs` is reserved: like `Noop`, it does nothing.
pub open spec fn handled(before: App, action: ActionView, after: App, effect: EffectView) -> bool {
    match action {
        ActionView::Quit => after == (App { should_quit: true, ..before }) && effect
            == EffectView::Nothing,
        ActionView::NavigateUp => navigated_up(before, after) && effect == EffectView::Nothing,
        ActionView::NavigateDown => navigated_down(before, after) && effect == EffectView::Nothing,
        ActionView::NavigateRight => reselected(
            before,
            after,
            moved_right(before.breadboard, before.state.selection),
        ) && effect == EffectView::Nothing,
        ActionView::NavigateLeft => reselected(
            before,
            after,
            moved_left(before.breadboard, before.state.selection),
        ) && effect == EffectView::Nothing,
        ActionView::Select => selected(before, after, effect),
        ActionView::Back => backed(before, after) && effect == EffectView::Nothing,
        ActionView::NewPlace => place_added(before, after) && effect == EffectView::Nothing,
        ActionView::NewAffordance => affordance_added_to_selected(before, after) && effect
            == EffectView::Nothing,
        ActionView::RemoveConnection => connection_removed(before, after) && effect
            == EffectView::Nothing,
        ActionView::ToggleCollapsed => after == (App {
            state: AppState { collapsed: !before.state.collapsed, ..before.state },
            ..before
        }) && effect == EffectView::Nothing,
        ActionView::Filter => filter_toggled(before, after) && effect == EffectView::Nothing,
        ActionView::Save => after == before && effect == EffectView::SaveFile("breadboard.toml"@),
        ActionView::Open => open_entered(before, after, effect),
        ActionView::EnterEditMode => edit_entered(before, after) && effect == EffectView::Nothing,
        ActionView::EnterConnectMode => connect_entered(before, after) && effect
            == EffectView::Nothing,
        ActionView::Delete => deleted(before, after) && effect == EffectView::Nothing,
        ActionView::Edit(text) => edited(before, after, text) && effect == EffectView::Nothing,
        ActionView::SaveAs => after == before && effect == EffectView::Nothing,
        ActionView::Noop => after == before && effect == EffectView::Nothing,
    }
}

/// Applies `action` to the application and says what the caller has to do.
/// A breadboard that is well-formed stays so.
pub fn handle_action(app: &mut App, action: Action) -> (effect: Effect)
    ensures
        handled(*old(app), action@, *final(app), effect@),
        old(app).breadboard.wf() ==> final(app).breadboard.wf(),
{
    match action {
        Action::Quit => {
            app.should_quit = true;
            Effect::Nothing
        },
        Action::NavigateUp => {
            navigate_up(app);
            Effect::Nothing
        },
        Action::NavigateDown => {
            navigate_down(app);
            Effect::Nothing
        },
        Action::NavigateRight => {
            navigate_right(app);
            Effect::Nothing
        },
        Action::NavigateLeft => {
            navigate_left(app);
            Effect::Nothing
        },
        Action::Select => handle_select(app),
        Action::Back => {
            handle_back(app);
            Effect::Nothing
        },
        Action::NewPlace => {
            handle_new_place(app);
            Effect::Nothing
        },
        Action::NewAffordance => {
            handle_new_affordance(app);
            Effect::Nothing
        },
        Action::RemoveConnection => {
            handle_remove_connection(app);
            Effect::Nothing
        },
        Action::ToggleCollapsed => {
            app.toggle_collapsed();
            Effect::Nothing
        },
        Action::Filter => {
            handle_filter(app);
            Effect::Nothing
        },
        Action::Save => handle_save(app),
        Action::Open => handle_enter_open_mode(app),
        Action::EnterEditMode => {
            handle_enter_edit_mode(app);
            Effect::Nothing
        },
        Action::EnterConnectMode => {
            handle_enter_connect_mode(app);
            Effect::Nothing
        },
        Action::Delete => {
            handle_delete(app);
            Effect::Nothing
        },
        Action::Edit(text) => {
            handle_edit(app, text);
            Effect::Nothing
        },
        Action::SaveAs => Effect::Nothing,
        Action::Noop => Effect::Nothing,
    }
}

/// The modes change along these lines and no others: from `Navigate` into
/// `Edit` with something selected, into `Connect` with an affordance
/// selected, and into `OpenFile`; from each of the three back to `Navigate`,
/// with nothing pending in the mode that was left. No action leads into a
/// reserved mode or out of one.
pub proof fn lemma_mode_transitions(before: App, action: ActionView, after: App, effect: EffectView)
    requires
        handled(before, action, after, effect),
    ensures
        after.state.mode != before.state.mode ==> {
            ||| {
                &&& before.state.mode == Mode::Navigate
                &&& after.state.mode == Mode::Edit
                &&& before.state.selection.is_some()
            }
            ||| {
                &&& before.state.mode == Mode::Navigate
                &&& after.state.mode == Mode::Connect
                &&& before.state.selection matches Some(Selection::Affordance { .. })
            }
            ||| {
                &&& before.state.mode == Mode::Navigate
                &&& after.state.mode == Mode::OpenFile
                &&& effect == EffectView::ListFiles
            }
            ||| {
                &&& before.state.mode == Mode::Edit
                &&& after.state.mode == Mode::Navigate
                &&& after.state.edit_buffer@.len() == 0
            }
            ||| {
                &&& before.state.mode == Mode::Connect
                &&& after.state.mode == Mode::Navigate
                &&& after.state.connection_picker.is_idle()
            }
            ||| {
                &&& before.state.mode == Mode::OpenFile
                &&& after.state.mode == Mode::Navigate
                &&& after.state.file_picker.is_idle()
                &&& after.state.file_list@.len() == 0
            }
        },
{
}

/// Only `Quit` ends the loop.
pub proof fn lemma_only_quit_quits(before: App, action: ActionView, after: App, effect: EffectView)
    requires
        handled(before, action, after, effect),
    ensures
        after.should_quit == (before.should_quit || action == ActionView::Quit),
{
}

/// After a place is deleted, no place has its id; every other place is
/// still there, and every place that is there was there before, with the
/// affordances and the connections that it had: one that led to the
/// deleted place still names it.
pub proof fn lemma_deleted_place_leaves_connections(
    before: Breadboard,
    after: Breadboard,
    id: u32,
)
    requires
        place_removed(before, after, id),
    ensures
        !after.has_place(id),
        forall|k: int| 0 <= k < after.places@.len() ==> before.places@.contains(
            #[trigger] after.places@[k],
        ),
        forall|i: int|
            0 <= i < before.places@.len() && (#[trigger] before.places@[i]).id != id
                ==> after.places@.contains(before.places@[i]),
        before.ids_unique() ==> after.ids_unique(),
{
    crate::models::lemma_places_without(before.places@, id);
    assert forall|k: int| 0 <= k < after.places@.len() implies after.place_ids()[k] != id by {
        assert(after.places@[k].id != id);
    }
    if before.ids_unique() {
        assert forall|k: int| 0 <= k < after.places@.len() implies (
        #[trigger] after.places@[k]).ids_unique() by {
            assert(before.places@.contains(after.places@[k]));
        }
    }
}

/// The selection names nothing, or an entity that the breadboard holds.
pub open spec fn selection_resolves(board: Breadboard, selection: Option<Selection>) -> bool {
    match selection {
        Some(Selection::Place(id)) => board.place_index(id).is_some(),
        Some(Selection::Affordance { place_id, affordance_id }) => board.affordance_position(
            place_id,
            affordance_id,
        ).is_some(),
        None => true,
    }
}

/// Movement never leaves the breadboard: from a selection that names
/// nothing or an entity of the breadboard, a step up, down, left or right
/// leads to such a selection again.
pub proof fn lemma_movement_keeps_selection(board: Breadboard, selection: Option<Selection>)
    requires
        selection_resolves(board, selection),
    ensures
        selection_resolves(board, moved_up(board, selection)),
        selection_resolves(board, moved_down(board, selection)),
        selection_resolves(board, moved_right(board, selection)),
        selection_resolves(board, moved_left(board, selection)),
{
    let ids = board.place_ids();
    assert forall|i: int| 0 <= i < board.places@.len() implies board.place_index(
        (#[trigger] board.places@[i]).id,
    ).is_some() by {
        assert(ids[i] == board.places@[i].id);
        lemma_first_index(ids, board.places@[i].id);
    }
    match selection {
        Some(Selection::Affordance { place_id, affordance_id }) => {
            let (i, j) = board.affordance_position(place_id, affordance_id).unwrap();
            let inner = board.places@[i].affordance_ids();
            assert forall|k: int| 0 <= k < inner.len() implies board.places@[i].affordance_index(
                #[trigger] inner[k],
            ).is_some() by {
                lemma_first_index(inner, inner[k]);
            }
            if j > 0 {
                assert(inner[j - 1] == board.places@[i].affordances@[j - 1].id);
            }
            if j + 1 < inner.len() {
                assert(inner[j + 1] == board.places@[i].affordances@[j + 1].id);
            }
        },
        Some(Selection::Place(id)) => {
            let i = board.place_index(id).unwrap();
            let inner = board.places@[i].affordance_ids();
            if inner.len() > 0 {
                assert(inner[0] == board.places@[i].affordances@[0].id);
                lemma_first_index(inner, inner[0]);
            }
        },
        None => {},
    }
}

/// A deletion leaves the selection in the breadboard: after `Delete` from a
/// selection that names an entity of the breadboard, the selection names
/// nothing or a place that the breadboard still holds.
pub proof fn lemma_delete_keeps_selection(before: App, after: App)
    requires
        deleted(before, after),
        selection_resolves(before.breadboard, before.state.selection),
    ensures
        selection_resolves(after.breadboard, after.state.selection),
{
    match before.state.selection {
        Some(Selection::Affordance { place_id, affordance_id }) => {
            let i = before.breadboard.place_index(place_id).unwrap();
            assert(after.breadboard.place_ids() =~= before.breadboard.place_ids()) by {
                assert forall|k: int| 0 <= k < before.breadboard.places@.len() implies (
                #[trigger] after.breadboard.places@[k]).id == before.breadboard.places@[k].id by {}
            }
        },
        _ => {},
    }
}

/// Nothing is pending outside the mode that it belongs to: the edit buffer
/// is empty outside `Edit` mode, the connection pick is idle outside
/// `Connect` mode, the file pick is idle and no file is listed outside
/// `OpenFile` mode, and the place pick is idle while the place search is
/// off.
pub open spec fn nothing_pending_elsewhere(app: App) -> bool {
    &&& app.state.mode != Mode::Edit ==> app.state.edit_buffer@.len() == 0
    &&& app.state.mode != Mode::Connect ==> app.state.connection_picker.is_idle()
    &&& app.state.mode != Mode::OpenFile ==> app.state.file_picker.is_idle()
        && app.state.file_list@.len() == 0
    &&& !app.state.is_searching_places ==> app.state.place_picker.is_idle()
}

/// What is pending ends with its mode: no action leaves an edit buffer, a
/// query or a list of results behind in a mode that does not use it.
pub proof fn lemma_pending_work_ends_with_its_mode(
    before: App,
    action: ActionView,
    after: App,
    effect: EffectView,
)
    requires
        handled(before, action, after, effect),
        nothing_pending_elsewhere(before),
    ensures
        nothing_pending_elsewhere(after),
{
}

/// The id counters never go back: no action lowers one of them, so that an
/// id that was handed out is never handed out again.
pub proof fn lemma_counters_never_go_back(
    before: App,
    action: ActionView,
    after: App,
    effect: EffectView,
)
    requires
        handled(before, action, after, effect),
    ensures
        after.breadboard.next_place_id >= before.breadboard.next_place_id,
        after.breadboard.next_affordance_id >= before.breadboard.next_affordance_id,
{
}

} // verus!
