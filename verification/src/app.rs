//! The application context: the breadboard, what is selected in it, the
//! trail of places to go back to, and the state of each pick flow.

use vstd::prelude::*;
use crate::input::Mode;
use crate::models::{Affordance, Breadboard, Place, affordance_added, place_created, same_content};
use crate::picker::{Candidate, Pick, Picker, all_items, results_for, sentinel_prefix};

verus! {

/// What is focused: a place, or an affordance within a place.
#[derive(Debug, Clone, Copy, PartialEq, Eq, Structural)]
pub enum Selection {
    Place(u32),
    Affordance { place_id: u32, affordance_id: u32 },
}

/// Everything of the application but the breadboard itself.
///
/// `connection_picker` picks the destination of a connection among all
/// places, after the sentinel that stands for removing the connection.
/// `file_picker` picks a position in `file_list`. `place_picker` picks the
/// place to jump to, while `is_searching_places` holds.
#[derive(Debug)]
pub struct AppState {
    pub mode: Mode,
    pub selection: Option<Selection>,
    pub collapsed: bool,
    pub filter: Option<String>,
    pub navigation_trail: Vec<u32>,
    pub edit_buffer: String,
    pub connection_picker: Picker<u32>,
    pub file_list: Vec<String>,
    pub file_picker: Picker<usize>,
    pub is_searching_places: bool,
    pub place_picker: Picker<u32>,
}

/// The application: the breadboard, the state around it, and whether the
/// user asked to leave.
pub struct App {
    pub breadboard: Breadboard,
    pub state: AppState,
    pub should_quit: bool,
}

/// The id of the place that a selection lies in: the place itself, or the
/// place that owns the selected affordance.
pub open spec fn selected_place_id(selection: Option<Selection>) -> Option<u32> {
    match selection {
        Some(Selection::Place(id)) => Some(id),
        Some(Selection::Affordance { place_id, affordance_id }) => Some(place_id),
        None => None,
    }
}

/// The places as candidates of a pick: each with its id as key, in order.
pub open spec fn place_domain(places: Seq<Place>) -> Seq<Candidate<u32>> {
    Seq::new(places.len(), |i: int| Candidate { key: places[i].id, name: places[i].name })
}

/// The files as candidates of a pick: each with its position as key.
pub open spec fn file_domain(files: Seq<String>) -> Seq<Candidate<usize>> {
    Seq::new(files.len(), |i: int| Candidate { key: i as usize, name: files[i] })
}

/// Selection and trail after a jump to the place `target`: where the
/// selection lay in a place of `board`, that place's id is put on the trail.
pub open spec fn navigated_to(
    board: Breadboard,
    selection: Option<Selection>,
    trail: Seq<u32>,
    target: u32,
) -> (Option<Selection>, Seq<u32>) {
    let source = selected_place_id(selection);
    (
        Some(Selection::Place(target)),
        if source.is_some() && board.has_place(source.unwrap()) {
            trail.push(source.unwrap())
        } else {
            trail
        },
    )
}

/// Selection and trail after a step back: the last place of the trail is
/// taken off and selected; with an empty trail nothing changes.
pub open spec fn navigated_back(selection: Option<Selection>, trail: Seq<u32>) -> (
    Option<Selection>,
    Seq<u32>,
) {
    if trail.len() == 0 {
        (selection, trail)
    } else {
        (Some(Selection::Place(trail.last())), trail.drop_last())
    }
}

/// A step back undoes the jump before it, as far as the place goes: after
/// a jump from a selection that lay in the place `source` of the
/// breadboard, a step back selects `source` and leaves the trail as it was
/// before the jump.
pub proof fn lemma_back_undoes_jump(
    board: Breadboard,
    selection: Option<Selection>,
    trail: Seq<u32>,
    target: u32,
)
    requires
        selected_place_id(selection).is_some(),
        board.has_place(selected_place_id(selection).unwrap()),
    ensures
        ({
            let jumped = navigated_to(board, selection, trail, target);
            navigated_back(jumped.0, jumped.1) == (
                Some(Selection::Place(selected_place_id(selection).unwrap())),
                trail,
            )
        }),
{
    let source = selected_place_id(selection).unwrap();
    assert(trail.push(source).drop_last() =~= trail);
}

/// A jump from a selection that lies in no place of the breadboard leaves
/// the trail as it was, so that the step back after it undoes the jump
/// before it.
pub proof fn lemma_jump_without_source_keeps_trail(
    board: Breadboard,
    selection: Option<Selection>,
    trail: Seq<u32>,
    target: u32,
)
    requires
        selected_place_id(selection).is_none() || !board.has_place(
            selected_place_id(selection).unwrap(),
        ),
    ensures
        navigated_to(board, selection, trail, target) == (Some(Selection::Place(target)), trail),
{
}

/// A step back with an empty trail changes nothing.
pub proof fn lemma_back_on_empty_trail(selection: Option<Selection>)
    ensures
        navigated_back(selection, Seq::empty()) == (selection, Seq::<u32>::empty()),
{
}

/// The places of `board` as candidates of a pick.
pub fn place_candidates(board: &Breadboard) -> (domain: Vec<Candidate<u32>>)
    ensures
        domain@ == place_domain(board.places@),
{
    let mut domain: Vec<Candidate<u32>> = Vec::new();
    let mut i: usize = 0;
    while i < board.places.len()
        invariant
            i <= board.places@.len(),
            domain@ == place_domain(board.places@.take(i as int)),
        decreases board.places@.len() - i,
    {
        domain.push(Candidate { key: board.places[i].id, name: board.places[i].name.clone() });
        assert(domain@ =~= place_domain(board.places@.take(i + 1)));
        i += 1;
    }
    assert(board.places@.take(i as int) =~= board.places@);
    domain
}

/// The names of `files` as candidates of a pick.
pub fn file_candidates(files: &Vec<String>) -> (domain: Vec<Candidate<usize>>)
    ensures
        domain@ == file_domain(files@),
{
    let mut domain: Vec<Candidate<usize>> = Vec::new();
    let mut i: usize = 0;
    while i < files.len()
        invariant
            i <= files@.len(),
            domain@ == file_domain(files@.take(i as int)),
        decreases files@.len() - i,
    {
        domain.push(Candidate { key: i, name: files[i].clone() });
        assert(domain@ =~= file_domain(files@.take(i + 1)));
        i += 1;
    }
    assert(files@.take(i as int) =~= files@);
    domain
}

impl AppState {
    /// No pick is under way: the three pickers are idle, no file is listed,
    /// and the place search is off.
    pub open spec fn pickers_idle(&self) -> bool {
        &&& self.connection_picker.is_idle()
        &&& self.file_picker.is_idle()
        &&& self.place_picker.is_idle()
        &&& self.file_list@.len() == 0
        &&& !self.is_searching_places
    }
}

impl Default for AppState {
    /// The state at start: `Navigate` mode, nothing selected, expanded view,
    /// no filter, an empty trail and no pick under way.
    fn default() -> (state: Self)
        ensures
            state.mode == Mode::Navigate,
            state.selection.is_none(),
            !state.collapsed,
            state.filter.is_none(),
            state.navigation_trail@.len() == 0,
            state.edit_buffer@.len() == 0,
            state.pickers_idle(),
    {
        AppState {
            mode: Mode::Navigate,
            selection: None,
            collapsed: false,
            filter: None,
            navigation_trail: Vec::new(),
            edit_buffer: String::new(),
            connection_picker: Picker::new(),
            file_list: Vec::new(),
            file_picker: Picker::new(),
            is_searching_places: false,
            place_picker: Picker::new(),
        }
    }
}

impl App {
    /// The position of the place that the selection lies in.
    pub open spec fn selected_place_index(&self) -> Option<int> {
        match selected_place_id(self.state.selection) {
            Some(id) => self.breadboard.place_index(id),
            None => None,
        }
    }

    /// The file under the cursor of the file picker.
    pub open spec fn selected_file_index(&self) -> Option<int> {
        match self.state.file_picker.selected() {
            Some(Pick::Item(i)) => if i < self.state.file_list@.len() {
                Some(i as int)
            } else {
                None
            },
            _ => None,
        }
    }

    /// An application with an empty breadboard named `New Breadboard`.
    pub fn new() -> (app: Self)
        ensures
            app.breadboard.name@ == "New Breadboard"@,
            app.breadboard.places@.len() == 0,
            app.breadboard.next_place_id == 1,
            app.breadboard.next_affordance_id == 1,
            app.breadboard.wf(),
            !app.should_quit,
            app.state.mode == Mode::Navigate,
            app.state.selection.is_none(),
            !app.state.collapsed,
            app.state.filter.is_none(),
            app.state.navigation_trail@.len() == 0,
            app.state.edit_buffer@.len() == 0,
            app.state.pickers_idle(),
    {
        let breadboard = Breadboard::new("New Breadboard".to_owned());
        let state = AppState::default();
        App { breadboard, state, should_quit: false }
    }

    /// Creates a place named `name`, with the next place id, and appends it.
    pub fn new_place(&mut self, name: String)
        requires
            old(self).breadboard.next_place_id < u32::MAX,
        ensures
            place_created(old(self).breadboard, final(self).breadboard, name@),
            final(self).breadboard.places@.last().name == name,
            final(self).state == old(self).state,
            final(self).should_quit == old(self).should_quit,
            old(self).breadboard.wf() ==> final(self).breadboard.wf(),
    {
        self.breadboard.create_place(name);
    }

    /// Appends `affordance` to the place `place_id`; nothing changes where
    /// there is no such place.
    pub fn add_affordance_to_place(&mut self, place_id: &u32, affordance: Affordance)
        ensures
            affordance_added(old(self).breadboard, final(self).breadboard, *place_id, affordance),
            final(self).state == old(self).state,
            final(self).should_quit == old(self).should_quit,
    {
        self.breadboard.add_affordance_to(*place_id, affordance);
    }

    /// The place that the selection lies in; `None` without a selection,
    /// or where no place has the selected id.
    pub fn get_selected_place(&self) -> (place: Option<&Place>)
        ensures
            match place {
                Some(p) => self.selected_place_index().is_some() && *p
                    == self.breadboard.places@[self.selected_place_index().unwrap()],
                None => self.selected_place_index().is_none(),
            },
    {
        match self.state.selection {
            Some(Selection::Place(id)) => self.breadboard.find_place(&id),
            Some(Selection::Affordance { place_id, affordance_id }) => self.breadboard.find_place(
                &place_id,
            ),
            None => None,
        }
    }

    /// The place that the selection lies in, to be changed in place.
    pub fn get_selected_place_mut(&mut self) -> (place: Option<&mut Place>)
        ensures
            match place {
                Some(p) => old(self).selected_place_index().is_some() && *p == old(self).breadboard.places@[old(self).selected_place_index().unwrap()] && final(self).breadboard.places@ == old(self).breadboard.places@.update(
                    old(self).selected_place_index().unwrap(),
                    *final(p),
                ),
                None => old(self).selected_place_index().is_none() && final(self).breadboard.places@
                    == old(self).breadboard.places@,
            },
            final(self).state == old(self).state,
            final(self).should_quit == old(self).should_quit,
            final(self).breadboard.name == old(self).breadboard.name,
            final(self).breadboard.created == old(self).breadboard.created,
            final(self).breadboard.next_place_id == old(self).breadboard.next_place_id,
            final(self).breadboard.next_affordance_id == old(self).breadboard.next_affordance_id,
    {
        let id = match self.state.selection {
            Some(Selection::Place(id)) => id,
            Some(Selection::Affordance { place_id, affordance_id }) => place_id,
            None => {
                return None;
            },
        };
        self.breadboard.find_place_mut(&id)
    }

    /// Jumps to the place `place_id`. Where the selection lay in a place of
    /// the breadboard, that place goes on the trail first. Whether
    /// `place_id` names a place is not looked at.
    pub fn navigate_to_place(&mut self, place_id: u32)
        ensures
            (final(self).state.selection, final(self).state.navigation_trail@) == navigated_to(
                old(self).breadboard,
                old(self).state.selection,
                old(self).state.navigation_trail@,
                place_id,
            ),
            final(self).state == (AppState {
                selection: final(self).state.selection,
                navigation_trail: final(self).state.navigation_trail,
                ..old(self).state
            }),
            final(self).breadboard == old(self).breadboard,
            final(self).should_quit == old(self).should_quit,
    {
        let source = match self.get_selected_place() {
            Some(place) => Some(place.id),
            None => None,
        };
        proof {
            self.breadboard.lemma_place_index(selected_place_id(self.state.selection).unwrap_or(0));
        }
        match source {
            Some(id) => {
                self.state.navigation_trail.push(id);
            },
            None => {},
        }
        self.state.selection = Some(Selection::Place(place_id));
    }

    /// Steps back to the last place of the trail; with an empty trail
    /// nothing changes.
    pub fn navigate_back(&mut self)
        ensures
            (final(self).state.selection, final(self).state.navigation_trail@) == navigated_back(
                old(self).state.selection,
                old(self).state.navigation_trail@,
            ),
            final(self).state == (AppState {
                selection: final(self).state.selection,
                navigation_trail: final(self).state.navigation_trail,
                ..old(self).state
            }),
            final(self).breadboard == old(self).breadboard,
            final(self).should_quit == old(self).should_quit,
    {
        match self.state.navigation_trail.pop() {
            Some(previous) => {
                self.state.selection = Some(Selection::Place(previous));
            },
            None => {
                assert(self.state.navigation_trail@ =~= old(self).state.navigation_trail@);
            },
        }
    }

    /// Switches between the collapsed and the expanded view.
    pub fn toggle_collapsed(&mut self)
        ensures
            final(self).state == (AppState {
                collapsed: !old(self).state.collapsed,
                ..old(self).state
            }),
            final(self).breadboard == old(self).breadboard,
            final(self).should_quit == old(self).should_quit,
    {
        self.state.collapsed = !self.state.collapsed;
    }
    /// The position of the place under the cursor of `picker`; `None`
    /// where the cursor stands on the sentinel, on no entry, or on a place
    /// that the breadboard no longer holds.
    pub open spec fn picked_place_index(&self, picker: Picker<u32>) -> Option<int> {
        match picker.selected() {
            Some(Pick::Item(id)) => self.breadboard.place_index(id),
            _ => None,
        }
    }

    /// The place under the cursor of `picker`.
    fn picked_place(&self, picker: &Picker<u32>) -> (place: Option<&Place>)
        ensures
            match place {
                Some(p) => self.picked_place_index(*picker).is_some() && *p
                    == self.breadboard.places@[self.picked_place_index(*picker).unwrap()],
                None => self.picked_place_index(*picker).is_none(),
            },
    {
        match picker.commit() {
            Some(Pick::Item(id)) => self.breadboard.find_place(&id),
            _ => None,
        }
    }

    /// Recomputes the results of the connection pick from its query and the
    /// places as they are now: the sentinel first, then the places that the
    /// query keeps. The cursor goes to the sentinel.
    pub fn update_connection_search(&mut self)
        ensures
            final(self).state.connection_picker.results@ == results_for(
                place_domain(old(self).breadboard.places@),
                old(self).state.connection_picker.query@,
                true,
            ),
            final(self).state.connection_picker.results@[0] == Pick::<u32>::Sentinel,
            final(self).state.connection_picker.selected_index == Some(0usize),
            final(self).state.connection_picker.query == old(self).state.connection_picker.query,
            final(self).state == (AppState {
                connection_picker: final(self).state.connection_picker,
                ..old(self).state
            }),
            final(self).breadboard == old(self).breadboard,
            final(self).should_quit == old(self).should_quit,
    {
        let domain = place_candidates(&self.breadboard);
        self.state.connection_picker.on_query_changed(&domain, true);
    }

    /// Begins the connection pick: an empty query, and as results the
    /// sentinel followed by every place in order, the cursor on the
    /// sentinel.
    pub fn start_connection_search(&mut self)
        ensures
            final(self).state.connection_picker.query@.len() == 0,
            final(self).state.connection_picker.results@ == sentinel_prefix::<u32>(true)
                + all_items(place_domain(old(self).breadboard.places@)),
            final(self).state.connection_picker.selected_index == Some(0usize),
            final(self).state == (AppState {
                connection_picker: final(self).state.connection_picker,
                ..old(self).state
            }),
            final(self).breadboard == old(self).breadboard,
            final(self).should_quit == old(self).should_quit,
    {
        let domain = place_candidates(&self.breadboard);
        self.state.connection_picker.start(&domain, true);
    }

    /// Ends the connection pick.
    pub fn clear_connection_search(&mut self)
        ensures
            final(self).state.connection_picker.is_idle(),
            final(self).state == (AppState {
                connection_picker: final(self).state.connection_picker,
                ..old(self).state
            }),
            final(self).breadboard == old(self).breadboard,
            final(self).should_quit == old(self).should_quit,
    {
        self.state.connection_picker.cancel();
    }

    /// The place under the cursor of the connection pick; `None` where the
    /// cursor stands on the sentinel, on no entry, or on a place that the
    /// breadboard no longer holds.
    pub fn get_selected_connection_place(&self) -> (place: Option<&Place>)
        ensures
            match place {
                Some(p) => self.picked_place_index(self.state.connection_picker).is_some() && *p
                    == self.breadboard.places@[self.picked_place_index(
                    self.state.connection_picker,
                ).unwrap()],
                None => self.picked_place_index(self.state.connection_picker).is_none(),
            },
    {
        self.picked_place(&self.state.connection_picker)
    }

    /// Whether the cursor of the connection pick stands on the sentinel,
    /// which asks to remove the connection.
    pub fn is_remove_connection_selected(&self) -> (remove: bool)
        ensures
            remove == (self.state.connection_picker.selected() == Some(Pick::<u32>::Sentinel)),
    {
        match self.state.connection_picker.commit() {
            Some(Pick::Sentinel) => true,
            _ => false,
        }
    }

    /// Begins the pick of a file to open among `files`, which are listed
    /// in the order given. The cursor stands on the first file, or nowhere
    /// where there is none.
    pub fn start_file_opening(&mut self, files: Vec<String>)
        ensures
            final(self).state.file_list == files,
            final(self).state.file_picker.query@.len() == 0,
            final(self).state.file_picker.results@ == all_items(file_domain(files@)),
            final(self).state.file_picker.selected_index == if files@.len() > 0 {
                Some(0usize)
            } else {
                None
            },
            final(self).state == (AppState {
                file_list: final(self).state.file_list,
                file_picker: final(self).state.file_picker,
                ..old(self).state
            }),
            final(self).breadboard == old(self).breadboard,
            final(self).should_quit == old(self).should_quit,
    {
        let domain = file_candidates(&files);
        self.state.file_list = files;
        self.state.file_picker.start(&domain, false);
        proof {
            assert(self.state.file_picker.results@ =~= all_items(file_domain(files@)));
        }
    }

    /// The file under the cursor of the file pick.
    pub fn get_selected_file(&self) -> (file: Option<&String>)
        ensures
            match file {
                Some(name) => self.selected_file_index().is_some() && *name
                    == self.state.file_list@[self.selected_file_index().unwrap()],
                None => self.selected_file_index().is_none(),
            },
    {
        match self.state.file_picker.commit() {
            Some(Pick::Item(i)) => {
                if i < self.state.file_list.len() {
                    Some(&self.state.file_list[i])
                } else {
                    None
                }
            },
            _ => None,
        }
    }

    /// Ends the file pick and forgets the listed files.
    pub fn clear_file_selection(&mut self)
        ensures
            final(self).state.file_list@.len() == 0,
            final(self).state.file_picker.is_idle(),
            final(self).state == (AppState {
                file_list: final(self).state.file_list,
                file_picker: final(self).state.file_picker,
                ..old(self).state
            }),
            final(self).breadboard == old(self).breadboard,
            final(self).should_quit == old(self).should_quit,
    {
        self.state.file_list = Vec::new();
        self.state.file_picker.cancel();
    }

    /// Turns the place search on, with an empty query and every place as a
    /// result. The cursor stands on the first place, or nowhere where there
    /// is none.
    pub fn start_place_search(&mut self)
        ensures
            final(self).state.is_searching_places,
            final(self).state.place_picker.query@.len() == 0,
            final(self).state.place_picker.results@ == all_items(
                place_domain(old(self).breadboard.places@),
            ),
            final(self).state.place_picker.selected_index == if old(self).breadboard.places@.len()
                > 0 {
                Some(0usize)
            } else {
                None
            },
            final(self).state == (AppState {
                is_searching_places: true,
                place_picker: final(self).state.place_picker,
                ..old(self).state
            }),
            final(self).breadboard == old(self).breadboard,
            final(self).should_quit == old(self).should_quit,
    {
        let domain = place_candidates(&self.breadboard);
        self.state.is_searching_places = true;
        self.state.place_picker.start(&domain, false);
        proof {
            assert(self.state.place_picker.results@ =~= all_items(
                place_domain(self.breadboard.places@),
            ));
        }
    }

    /// Recomputes the results of the place search from its query and the
    /// places as they are now. The cursor goes to the first result.
    pub fn update_place_search(&mut self)
        ensures
            final(self).state.place_picker.results@ == results_for(
                place_domain(old(self).breadboard.places@),
                old(self).state.place_picker.query@,
                false,
            ),
            final(self).state.place_picker.selected_index == Some(0usize),
            final(self).state.place_picker.query == old(self).state.place_picker.query,
            final(self).state == (AppState {
                place_picker: final(self).state.place_picker,
                ..old(self).state
            }),
            final(self).breadboard == old(self).breadboard,
            final(self).should_quit == old(self).should_quit,
    {
        let domain = place_candidates(&self.breadboard);
        self.state.place_picker.on_query_changed(&domain, false);
    }

    /// Turns the place search off.
    pub fn clear_place_search(&mut self)
        ensures
            !final(self).state.is_searching_places,
            final(self).state.place_picker.is_idle(),
            final(self).state == (AppState {
                is_searching_places: false,
                place_picker: final(self).state.place_picker,
                ..old(self).state
            }),
            final(self).breadboard == old(self).breadboard,
            final(self).should_quit == old(self).should_quit,
    {
        self.state.is_searching_places = false;
        self.state.place_picker.cancel();
    }

    /// The place under the cursor of the place search; `None` where the
    /// cursor stands on no entry, or on a place that the breadboard no
    /// longer holds.
    pub fn get_selected_search_place(&self) -> (place: Option<&Place>)
        ensures
            match place {
                Some(p) => self.picked_place_index(self.state.place_picker).is_some() && *p
                    == self.breadboard.places@[self.picked_place_index(
                    self.state.place_picker,
                ).unwrap()],
                None => self.picked_place_index(self.state.place_picker).is_none(),
            },
    {
        self.picked_place(&self.state.place_picker)
    }
    /// Takes `loaded`, a breadboard read from storage, in place of the
    /// current one, and selects its first place. Both id counters are set
    /// anew from the ids that `loaded` holds, whatever it recorded.
    ///
    /// A breadboard that holds the largest id that there is leaves no id
    /// for a new entity; it is refused, and nothing changes.
    pub fn open_breadboard(&mut self, loaded: Breadboard) -> (accepted: bool)
        ensures
            accepted == (loaded.max_place_id() < u32::MAX && loaded.max_affordance_id()
                < u32::MAX),
            accepted ==> {
                &&& same_content(final(self).breadboard, loaded)
                &&& final(self).breadboard.name == loaded.name
                &&& final(self).breadboard.created == loaded.created
                &&& final(self).breadboard.places == loaded.places
                &&& final(self).breadboard.next_place_id == loaded.max_place_id() + 1
                &&& final(self).breadboard.next_affordance_id == loaded.max_affordance_id() + 1
                &&& final(self).breadboard.counters_ahead()
                &&& loaded.ids_unique() ==> final(self).breadboard.wf()
                &&& final(self).state == (AppState {
                    selection: if loaded.places@.len() > 0 {
                        Some(Selection::Place(loaded.places@[0].id))
                    } else {
                        None
                    },
                    ..old(self).state
                })
                &&& final(self).should_quit == old(self).should_quit
            },
            !accepted ==> *final(self) == *old(self),
    {
        let mut board = loaded;
        if board.largest_place_id() == u32::MAX || board.largest_affordance_id() == u32::MAX {
            return false;
        }
        board.sync_id_counters();
        self.breadboard = board;
        self.state.selection = if self.breadboard.places.len() > 0 {
            Some(Selection::Place(self.breadboard.places[0].id))
        } else {
            None
        };
        true
    }
}

} // verus!
