//! What the views show: the text of each line, computed from the
//! breadboard and the application state. Drawing the lines is the caller's
//! part.

use vstd::prelude::*;
use vstd::string::*;
use crate::app::{App, Selection, selected_place_id};
use crate::input::Mode;
use crate::models::{Affordance, Breadboard, Place};
use crate::picker::{Pick, Picker};
use crate::text::{append_decimal, decimal, same_text};

verus! {

/// `parts` written one after the other with `separator` between each two.
pub open spec fn joined(parts: Seq<Seq<char>>, separator: Seq<char>) -> Seq<char>
    decreases parts.len(),
{
    if parts.len() == 0 {
        Seq::empty()
    } else if parts.len() == 1 {
        parts[0]
    } else {
        joined(parts.drop_last(), separator) + separator + parts.last()
    }
}

/// The names of the places that the connections of `pairs` start in.
pub open spec fn source_names(pairs: Seq<(Place, Affordance)>) -> Seq<Seq<char>> {
    Seq::new(pairs.len(), |k: int| pairs[k].0.name@)
}

/// The line of an affordance in the expanded view: its name, and where it
/// leads somewhere an arrow and the name of that place, or `[Unknown]`
/// where no place has the id that it names.
pub open spec fn affordance_text(board: Breadboard, affordance: Affordance) -> Seq<char> {
    match affordance.connects_to {
        Some(destination) => match board.place_index(destination) {
            Some(i) => "├─ "@ + affordance.name@ + " → "@ + board.places@[i].name@,
            None => "├─ "@ + affordance.name@ + " → [Unknown]"@,
        },
        None => "├─ "@ + affordance.name@,
    }
}

/// The header line of a place in the expanded view: its name, and where
/// connections lead into it the names of the places that they start in,
/// one for each connection.
pub open spec fn place_header_text(board: Breadboard, place: Place) -> Seq<char> {
    let sources = source_names(board.incoming(place.id));
    if sources.len() == 0 {
        "┌─ "@ + place.name@
    } else {
        "┌─ "@ + place.name@ + " (← "@ + joined(sources, ", "@) + ")"@
    }
}

/// `parts` written one after the other with `separator` between each two.
pub fn join_text(parts: &Vec<String>, separator: &str) -> (text: String)
    ensures
        text@ == joined(Seq::new(parts@.len(), |k: int| parts@[k]@), separator@),
{
    let ghost all = Seq::new(parts@.len(), |k: int| parts@[k]@);
    let mut text = String::new();
    let mut i: usize = 0;
    while i < parts.len()
        invariant
            i <= parts@.len(),
            all == Seq::new(parts@.len(), |k: int| parts@[k]@),
            text@ == joined(all.take(i as int), separator@),
        decreases parts@.len() - i,
    {
        assert(all.take(i + 1).drop_last() =~= all.take(i as int));
        if i > 0 {
            text.append(separator);
        }
        text.append(parts[i].as_str());
        proof {
            if i == 0 {
                assert(text@ =~= all.take(1)[0]);
            }
        }
        i += 1;
    }
    assert(all.take(i as int) =~= all);
    text
}

/// The names of the places that the connections into `place_id` start in,
/// one for each connection, in place-then-affordance order.
pub fn incoming_names(board: &Breadboard, place_id: u32) -> (names: Vec<String>)
    ensures
        Seq::new(names@.len(), |k: int| names@[k]@) == source_names(board.incoming(place_id)),
{
    let pairs = board.get_incoming_connections(&place_id);
    let mut names: Vec<String> = Vec::new();
    let mut k: usize = 0;
    while k < pairs.len()
        invariant
            k <= pairs@.len(),
            names@.len() == k,
            pairs@.len() == board.incoming(place_id).len(),
            forall|m: int|
                0 <= m < pairs@.len() ==> *(#[trigger] pairs@[m]).0 == board.incoming(place_id)[m].0,
            forall|m: int| 0 <= m < k ==> (#[trigger] names@[m])@ == board.incoming(place_id)[m].0.name@,
        decreases pairs@.len() - k,
    {
        names.push(pairs[k].0.name.clone());
        k += 1;
    }
    assert(Seq::new(names@.len(), |m: int| names@[m]@) =~= source_names(
        board.incoming(place_id),
    ));
    names
}

/// The line of `affordance` in the expanded view.
pub fn affordance_line(board: &Breadboard, affordance: &Affordance) -> (text: String)
    ensures
        text@ == affordance_text(*board, *affordance),
{
    let mut text = "├─ ".to_owned();
    text.append(affordance.name.as_str());
    match affordance.connects_to {
        Some(destination) => {
            match board.find_place(&destination) {
                Some(place) => {
                    text.append(" → ");
                    text.append(place.name.as_str());
                },
                None => {
                    text.append(" → [Unknown]");
                },
            }
        },
        None => {},
    }
    text
}

/// The header line of `place` in the expanded view.
pub fn place_header(board: &Breadboard, place: &Place) -> (text: String)
    ensures
        text@ == place_header_text(*board, *place),
{
    let names = incoming_names(board, place.id);
    let mut text = "┌─ ".to_owned();
    text.append(place.name.as_str());
    if names.len() > 0 {
        text.append(" (← ");
        let list = join_text(&names, ", ");
        text.append(list.as_str());
        text.append(")");
    }
    text
}

/// What a line of a view is.
#[derive(Debug, Clone, Copy, PartialEq, Eq, Structural)]
pub enum RowKind {
    /// A place.
    Place,
    /// An affordance.
    Affordance,
    /// An empty line between two places.
    Spacer,
    /// The entry of the connection pick that removes the connection.
    RemoveConnection,
    /// An entry of a pick: a place or a file.
    Candidate,
    /// A notice in place of a list that is empty.
    Notice,
}

/// One line of a view: its text, what it is, and whether the cursor or the
/// selection stands on it.
#[derive(Debug, Clone)]
pub struct Row {
    pub text: String,
    pub kind: RowKind,
    pub selected: bool,
}

/// A line with its text seen as a sequence of characters.
pub ghost struct RowView {
    pub text: Seq<char>,
    pub kind: RowKind,
    pub selected: bool,
}

impl View for Row {
    type V = RowView;

    open spec fn view(&self) -> RowView {
        RowView { text: self.text@, kind: self.kind, selected: self.selected }
    }
}

/// The lines of `rows`, each with its text as a sequence of characters.
pub open spec fn row_views(rows: Seq<Row>) -> Seq<RowView> {
    Seq::new(rows.len(), |k: int| rows[k]@)
}

/// The empty line between two places.
pub open spec fn spacer_row() -> RowView {
    RowView { text: Seq::empty(), kind: RowKind::Spacer, selected: false }
}

/// The lines of a place in the expanded view, as far as its first `n`
/// affordances: the header, then one line for each affordance. A line is
/// marked where the selection names its entity.
pub open spec fn place_rows(
    board: Breadboard,
    selection: Option<Selection>,
    place: Place,
    n: int,
) -> Seq<RowView>
    decreases n,
{
    if n <= 0 {
        seq![
            RowView {
                text: place_header_text(board, place),
                kind: RowKind::Place,
                selected: selection == Some(Selection::Place(place.id)),
            },
        ]
    } else {
        let affordance = place.affordances@[n - 1];
        place_rows(board, selection, place, n - 1).push(
            RowView {
                text: affordance_text(board, affordance),
                kind: RowKind::Affordance,
                selected: selection == Some(
                    Selection::Affordance { place_id: place.id, affordance_id: affordance.id },
                ),
            },
        )
    }
}

/// The lines of the expanded view for the first `n` places: the lines of
/// each place, and an empty line between two places.
pub open spec fn expanded_rows_upto(board: Breadboard, selection: Option<Selection>, n: int) -> Seq<
    RowView,
>
    decreases n,
{
    if n <= 0 {
        Seq::empty()
    } else {
        let earlier = expanded_rows_upto(board, selection, n - 1);
        let spaced = if n > 1 {
            earlier.push(spacer_row())
        } else {
            earlier
        };
        spaced + place_rows(
            board,
            selection,
            board.places@[n - 1],
            board.places@[n - 1].affordances@.len() as int,
        )
    }
}

/// The lines of the expanded view.
pub open spec fn expanded_rows(board: Breadboard, selection: Option<Selection>) -> Seq<RowView> {
    expanded_rows_upto(board, selection, board.places@.len() as int)
}

/// `i` is the position of the first marked line.
pub open spec fn is_first_selected(rows: Seq<RowView>, i: int) -> bool {
    &&& 0 <= i < rows.len()
    &&& rows[i].selected
    &&& forall|k: int| 0 <= k < i ==> !rows[k].selected
}

/// Whether two selections are the same.
fn same_selection(a: Option<Selection>, b: Selection) -> (same: bool)
    ensures
        same == (a == Some(b)),
{
    match a {
        Some(selection) => selection == b,
        None => false,
    }
}

/// The lines of the expanded view: for each place its header and its
/// affordances, with an empty line between two places.
pub fn expanded_view(board: &Breadboard, selection: Option<Selection>) -> (rows: Vec<Row>)
    ensures
        row_views(rows@) == expanded_rows(*board, selection),
{
    let mut rows: Vec<Row> = Vec::new();
    let mut i: usize = 0;
    while i < board.places.len()
        invariant
            i <= board.places@.len(),
            row_views(rows@) == expanded_rows_upto(*board, selection, i as int),
        decreases board.places@.len() - i,
    {
        let place = &board.places[i];
        if i > 0 {
            rows.push(Row { text: String::new(), kind: RowKind::Spacer, selected: false });
        }
        let ghost spaced = row_views(rows@);
        assert(spaced =~= if i > 0 {
            expanded_rows_upto(*board, selection, i as int).push(spacer_row())
        } else {
            expanded_rows_upto(*board, selection, i as int)
        });
        rows.push(
            Row {
                text: place_header(board, place),
                kind: RowKind::Place,
                selected: same_selection(selection, Selection::Place(place.id)),
            },
        );
        assert(row_views(rows@) =~= spaced + place_rows(*board, selection, *place, 0));
        let mut j: usize = 0;
        while j < place.affordances.len()
            invariant
                j <= place.affordances@.len(),
                row_views(rows@) == spaced + place_rows(*board, selection, *place, j as int),
            decreases place.affordances@.len() - j,
        {
            let affordance = &place.affordances[j];
            let ghost listed = row_views(rows@);
            rows.push(
                Row {
                    text: affordance_line(board, affordance),
                    kind: RowKind::Affordance,
                    selected: same_selection(
                        selection,
                        Selection::Affordance { place_id: place.id, affordance_id: affordance.id },
                    ),
                },
            );
            proof {
                let added = rows@[rows@.len() - 1]@;
                assert(row_views(rows@) =~= listed.push(added));
                assert(place_rows(*board, selection, *place, j + 1) =~= place_rows(
                    *board,
                    selection,
                    *place,
                    j as int,
                ).push(added));
                assert(row_views(rows@) =~= spaced + place_rows(*board, selection, *place, j + 1));
            }
            j += 1;
        }
        i += 1;
    }
    rows
}

/// The position of the first marked line of `rows`.
pub fn first_selected_row(rows: &Vec<Row>) -> (index: Option<usize>)
    ensures
        match index {
            Some(i) => is_first_selected(row_views(rows@), i as int),
            None => forall|k: int| 0 <= k < rows@.len() ==> !(#[trigger] row_views(rows@)[k]).selected,
        },
{
    let mut i: usize = 0;
    while i < rows.len()
        invariant
            i <= rows@.len(),
            forall|k: int| 0 <= k < i ==> !(#[trigger] row_views(rows@)[k]).selected,
        decreases rows@.len() - i,
    {
        if rows[i].selected {
            return Some(i);
        }
        i += 1;
    }
    None
}

/// The names of the places that the first `n` of `affordances` lead to, in
/// order. An affordance that leads nowhere, or to no place of the
/// breadboard, gives no name.
pub open spec fn destination_names(board: Breadboard, affordances: Seq<Affordance>, n: int) -> Seq<
    Seq<char>,
>
    decreases n,
{
    if n <= 0 {
        Seq::empty()
    } else {
        let rest = destination_names(board, affordances, n - 1);
        match affordances[n - 1].connects_to {
            Some(destination) => match board.place_index(destination) {
                Some(i) => rest.push(board.places@[i].name@),
                None => rest,
            },
            None => rest,
        }
    }
}

/// `names`, after `lead`, joined by commas; nothing where there is no name.
pub open spec fn name_list(lead: Seq<char>, names: Seq<Seq<char>>) -> Seq<char> {
    if names.len() == 0 {
        Seq::empty()
    } else {
        lead + joined(names, ", "@)
    }
}

/// The line of a place in the collapsed view: its name, the number of its
/// affordances, the places that lead into it and the places that it leads
/// to.
pub open spec fn collapsed_text(board: Breadboard, place: Place) -> Seq<char> {
    place.name@ + " ("@ + decimal(place.affordances@.len()) + ")"@ + name_list(
        " ← "@,
        source_names(board.incoming(place.id)),
    ) + name_list(
        " → "@,
        destination_names(board, place.affordances@, place.affordances@.len() as int),
    )
}

/// Some affordance of `place` leads to `target`.
pub open spec fn leads_to(place: Place, target: u32) -> bool {
    exists|j: int|
        0 <= j < place.affordances@.len() && (#[trigger] place.affordances@[j]).connects_to == Some(
            target,
        )
}

/// `place` is connected to the place `center`: it has that id, the place
/// `center` leads to it, or a place of its id leads to `center`.
pub open spec fn is_connected(board: Breadboard, center: u32, place: Place) -> bool {
    ||| place.id == center
    ||| (board.place_index(center).is_some() && leads_to(
        board.places@[board.place_index(center).unwrap()],
        place.id,
    ))
    ||| (exists|k: int|
        0 <= k < board.places@.len() && (#[trigger] board.places@[k]).id == place.id && leads_to(
            board.places@[k],
            center,
        ))
}

/// The place that the collapsed view is filtered around: the one that the
/// selection lies in, while the filter `connected` is on.
pub open spec fn filter_center(app: App) -> Option<u32> {
    match app.state.filter {
        Some(filter) => if filter@ == "connected"@ {
            selected_place_id(app.state.selection)
        } else {
            None
        },
        None => None,
    }
}

/// Whether the collapsed view shows `place`.
pub open spec fn shown_in_collapsed(app: App, place: Place) -> bool {
    match filter_center(app) {
        Some(center) => is_connected(app.breadboard, center, place),
        None => true,
    }
}

/// The lines of the collapsed view for the first `n` places: one line for
/// each place that is shown.
pub open spec fn collapsed_rows_upto(app: App, n: int) -> Seq<RowView>
    decreases n,
{
    if n <= 0 {
        Seq::empty()
    } else {
        let earlier = collapsed_rows_upto(app, n - 1);
        let place = app.breadboard.places@[n - 1];
        if shown_in_collapsed(app, place) {
            earlier.push(
                RowView {
                    text: collapsed_text(app.breadboard, place),
                    kind: RowKind::Place,
                    selected: app.state.selection == Some(Selection::Place(place.id)),
                },
            )
        } else {
            earlier
        }
    }
}

/// The lines of the collapsed view.
pub open spec fn collapsed_rows(app: App) -> Seq<RowView> {
    collapsed_rows_upto(app, app.breadboard.places@.len() as int)
}

/// Whether some affordance of `place` leads to `target`.
pub fn has_connection_to(place: &Place, target: u32) -> (leads: bool)
    ensures
        leads == leads_to(*place, target),
{
    let mut j: usize = 0;
    while j < place.affordances.len()
        invariant
            j <= place.affordances@.len(),
            forall|k: int|
                0 <= k < j ==> (#[trigger] place.affordances@[k]).connects_to != Some(target),
        decreases place.affordances@.len() - j,
    {
        match place.affordances[j].connects_to {
            Some(destination) => {
                if destination == target {
                    return true;
                }
            },
            None => {},
        }
        j += 1;
    }
    false
}

/// Whether `place` is connected to the place `center`.
pub fn is_connected_to(board: &Breadboard, center: u32, place: &Place) -> (connected: bool)
    ensures
        connected == is_connected(*board, center, *place),
{
    if place.id == center {
        return true;
    }
    match board.find_place(&center) {
        Some(middle) => {
            if has_connection_to(middle, place.id) {
                return true;
            }
        },
        None => {},
    }
    let mut k: usize = 0;
    while k < board.places.len()
        invariant
            k <= board.places@.len(),
            forall|m: int|
                0 <= m < k ==> !((#[trigger] board.places@[m]).id == place.id && leads_to(
                    board.places@[m],
                    center,
                )),
        decreases board.places@.len() - k,
    {
        if board.places[k].id == place.id && has_connection_to(&board.places[k], center) {
            return true;
        }
        k += 1;
    }
    false
}

/// The place that the collapsed view is filtered around.
pub fn collapsed_center(app: &App) -> (center: Option<u32>)
    ensures
        center == filter_center(*app),
{
    match &app.state.filter {
        Some(filter) => {
            if same_text(filter.as_str(), "connected") {
                match app.state.selection {
                    Some(Selection::Place(id)) => Some(id),
                    Some(Selection::Affordance { place_id, affordance_id }) => Some(place_id),
                    None => None,
                }
            } else {
                None
            }
        },
        None => None,
    }
}

/// `names` after `lead`, appended to `text`; nothing where there is no
/// name.
fn append_name_list(text: &mut String, lead: &str, names: &Vec<String>)
    ensures
        final(text)@ == old(text)@ + name_list(
            lead@,
            Seq::new(names@.len(), |k: int| names@[k]@),
        ),
{
    if names.len() > 0 {
        text.append(lead);
        let list = join_text(names, ", ");
        text.append(list.as_str());
        assert(text@ =~= old(text)@ + name_list(
            lead@,
            Seq::new(names@.len(), |k: int| names@[k]@),
        ));
    } else {
        assert(text@ =~= old(text)@ + name_list(
            lead@,
            Seq::new(names@.len(), |k: int| names@[k]@),
        ));
    }
}

/// The names of the places that the affordances of `place` lead to.
pub fn outgoing_names(board: &Breadboard, place: &Place) -> (names: Vec<String>)
    ensures
        Seq::new(names@.len(), |k: int| names@[k]@) == destination_names(
            *board,
            place.affordances@,
            place.affordances@.len() as int,
        ),
{
    let mut names: Vec<String> = Vec::new();
    let mut j: usize = 0;
    while j < place.affordances.len()
        invariant
            j <= place.affordances@.len(),
            Seq::new(names@.len(), |k: int| names@[k]@) == destination_names(
                *board,
                place.affordances@,
                j as int,
            ),
        decreases place.affordances@.len() - j,
    {
        let ghost listed = Seq::new(names@.len(), |k: int| names@[k]@);
        match place.affordances[j].connects_to {
            Some(destination) => {
                match board.find_place(&destination) {
                    Some(target) => {
                        names.push(target.name.clone());
                        assert(Seq::new(names@.len(), |k: int| names@[k]@) =~= listed.push(
                            target.name@,
                        ));
                    },
                    None => {},
                }
            },
            None => {},
        }
        j += 1;
    }
    names
}

/// The line of `place` in the collapsed view.
pub fn collapsed_line(board: &Breadboard, place: &Place) -> (text: String)
    ensures
        text@ == collapsed_text(*board, *place),
{
    let mut text = place.name.clone();
    text.append(" (");
    append_decimal(&mut text, place.affordances.len() as u128);
    text.append(")");
    let sources = incoming_names(board, place.id);
    append_name_list(&mut text, " ← ", &sources);
    let destinations = outgoing_names(board, place);
    append_name_list(&mut text, " → ", &destinations);
    text
}

/// The lines of the collapsed view: one for each place, or while the
/// filter `connected` is on one for each place connected to the place that
/// the selection lies in.
pub fn collapsed_view(app: &App) -> (rows: Vec<Row>)
    ensures
        row_views(rows@) == collapsed_rows(*app),
{
    let center = collapsed_center(app);
    let mut rows: Vec<Row> = Vec::new();
    let mut i: usize = 0;
    while i < app.breadboard.places.len()
        invariant
            i <= app.breadboard.places@.len(),
            center == filter_center(*app),
            row_views(rows@) == collapsed_rows_upto(*app, i as int),
        decreases app.breadboard.places@.len() - i,
    {
        let place = &app.breadboard.places[i];
        let shown = match center {
            Some(id) => is_connected_to(&app.breadboard, id, place),
            None => true,
        };
        if shown {
            let ghost listed = row_views(rows@);
            rows.push(
                Row {
                    text: collapsed_line(&app.breadboard, place),
                    kind: RowKind::Place,
                    selected: same_selection(app.state.selection, Selection::Place(place.id)),
                },
            );
            assert(row_views(rows@) =~= listed.push(rows@[rows@.len() - 1]@));
        }
        i += 1;
    }
    rows
}

/// The title of the collapsed view.
pub fn collapsed_title(app: &App) -> (title: &'static str)
    ensures
        title@ == if app.state.filter.is_some() {
            "Breadboard (Filtered)"@
        } else {
            "Breadboard (Collapsed)"@
        },
{
    if app.state.filter.is_some() {
        "Breadboard (Filtered)"
    } else {
        "Breadboard (Collapsed)"
    }
}

/// The notice shown in place of an empty list.
pub open spec fn notice_row(text: Seq<char>) -> RowView {
    RowView { text, kind: RowKind::Notice, selected: false }
}

/// The lines of a pick among places for the first `n` results: the
/// sentinel reads `Remove connection`, a place reads as its name, and a
/// result whose place the breadboard no longer holds gives no line. A line
/// is marked where the cursor stands on its result.
pub open spec fn place_pick_rows_upto(board: Breadboard, picker: Picker<u32>, n: int) -> Seq<RowView>
    decreases n,
{
    if n <= 0 {
        Seq::empty()
    } else {
        let earlier = place_pick_rows_upto(board, picker, n - 1);
        let marked = picker.selected_index == Some((n - 1) as usize);
        match picker.results@[n - 1] {
            Pick::Sentinel => earlier.push(
                RowView {
                    text: "Remove connection"@,
                    kind: RowKind::RemoveConnection,
                    selected: marked,
                },
            ),
            Pick::Item(id) => match board.place_index(id) {
                Some(i) => earlier.push(
                    RowView {
                        text: board.places@[i].name@,
                        kind: RowKind::Candidate,
                        selected: marked,
                    },
                ),
                None => earlier,
            },
        }
    }
}

/// The lines of a pick among places; a notice where it has no result.
pub open spec fn place_pick_rows(board: Breadboard, picker: Picker<u32>) -> Seq<RowView> {
    if picker.results@.len() == 0 {
        seq![notice_row("No places found"@)]
    } else {
        place_pick_rows_upto(board, picker, picker.results@.len() as int)
    }
}

/// The lines of the file pick for the first `n` results: each file reads
/// as its name, and a result that names no listed file gives no line.
pub open spec fn file_pick_rows_upto(files: Seq<String>, picker: Picker<usize>, n: int) -> Seq<
    RowView,
>
    decreases n,
{
    if n <= 0 {
        Seq::empty()
    } else {
        let earlier = file_pick_rows_upto(files, picker, n - 1);
        match picker.results@[n - 1] {
            Pick::Item(i) => if i < files.len() {
                earlier.push(
                    RowView {
                        text: files[i as int]@,
                        kind: RowKind::Candidate,
                        selected: picker.selected_index == Some((n - 1) as usize),
                    },
                )
            } else {
                earlier
            },
            Pick::Sentinel => earlier,
        }
    }
}

/// The lines of the file pick; a notice where no file is listed.
pub open spec fn file_pick_rows(files: Seq<String>, picker: Picker<usize>) -> Seq<RowView> {
    if files.len() == 0 {
        seq![notice_row("No TOML files found in current directory"@)]
    } else {
        file_pick_rows_upto(files, picker, picker.results@.len() as int)
    }
}

/// Whether the cursor stands on the result at `position`.
fn cursor_at(cursor: Option<usize>, position: usize) -> (at: bool)
    ensures
        at == (cursor == Some(position)),
{
    match cursor {
        Some(i) => i == position,
        None => false,
    }
}

/// The lines of a pick among places: of the connection pick, or of the
/// place search.
pub fn place_pick_view(board: &Breadboard, picker: &Picker<u32>) -> (rows: Vec<Row>)
    ensures
        row_views(rows@) == place_pick_rows(*board, *picker),
{
    let mut rows: Vec<Row> = Vec::new();
    if picker.results.len() == 0 {
        rows.push(
            Row { text: "No places found".to_owned(), kind: RowKind::Notice, selected: false },
        );
        assert(row_views(rows@) =~= place_pick_rows(*board, *picker));
        return rows;
    }
    let mut k: usize = 0;
    while k < picker.results.len()
        invariant
            k <= picker.results@.len(),
            row_views(rows@) == place_pick_rows_upto(*board, *picker, k as int),
        decreases picker.results@.len() - k,
    {
        let ghost listed = row_views(rows@);
        let marked = cursor_at(picker.selected_index, k);
        match picker.results[k] {
            Pick::Sentinel => {
                rows.push(
                    Row {
                        text: "Remove connection".to_owned(),
                        kind: RowKind::RemoveConnection,
                        selected: marked,
                    },
                );
                assert(row_views(rows@) =~= listed.push(rows@[rows@.len() - 1]@));
            },
            Pick::Item(id) => {
                match board.find_place(&id) {
                    Some(place) => {
                        rows.push(
                            Row {
                                text: place.name.clone(),
                                kind: RowKind::Candidate,
                                selected: marked,
                            },
                        );
                        assert(row_views(rows@) =~= listed.push(rows@[rows@.len() - 1]@));
                    },
                    None => {},
                }
            },
        }
        k += 1;
    }
    rows
}

/// The lines of the file pick.
pub fn file_pick_view(files: &Vec<String>, picker: &Picker<usize>) -> (rows: Vec<Row>)
    ensures
        row_views(rows@) == file_pick_rows(files@, *picker),
{
    let mut rows: Vec<Row> = Vec::new();
    if files.len() == 0 {
        rows.push(
            Row {
                text: "No TOML files found in current directory".to_owned(),
                kind: RowKind::Notice,
                selected: false,
            },
        );
        assert(row_views(rows@) =~= file_pick_rows(files@, *picker));
        return rows;
    }
    let mut k: usize = 0;
    while k < picker.results.len()
        invariant
            k <= picker.results@.len(),
            row_views(rows@) == file_pick_rows_upto(files@, *picker, k as int),
        decreases picker.results@.len() - k,
    {
        let ghost listed = row_views(rows@);
        match picker.results[k] {
            Pick::Item(i) => {
                if i < files.len() {
                    rows.push(
                        Row {
                            text: files[i].clone(),
                            kind: RowKind::Candidate,
                            selected: cursor_at(picker.selected_index, k),
                        },
                    );
                    assert(row_views(rows@) =~= listed.push(rows@[rows@.len() - 1]@));
                }
            },
            Pick::Sentinel => {},
        }
        k += 1;
    }
    rows
}

/// What the main area shows.
#[derive(Debug, Clone, Copy, PartialEq, Eq, Structural)]
pub enum Screen {
    /// The hint shown while the breadboard has no place.
    Empty,
    ConnectionSearch,
    FileSelection,
    PlaceSearch,
    Collapsed,
    Expanded,
}

/// What the main area shows: the hint for an empty breadboard before all
/// else, then the pick of the mode, then the place search, then the view
/// that is switched on.
pub open spec fn screen_of(app: App) -> Screen {
    if app.breadboard.places@.len() == 0 {
        Screen::Empty
    } else if app.state.mode == Mode::Connect {
        Screen::ConnectionSearch
    } else if app.state.mode == Mode::OpenFile {
        Screen::FileSelection
    } else if app.state.is_searching_places {
        Screen::PlaceSearch
    } else if app.state.collapsed {
        Screen::Collapsed
    } else {
        Screen::Expanded
    }
}

/// What the main area shows.
pub fn current_screen(app: &App) -> (screen: Screen)
    ensures
        screen == screen_of(*app),
{
    if app.breadboard.places.len() == 0 {
        Screen::Empty
    } else if app.state.mode == Mode::Connect {
        Screen::ConnectionSearch
    } else if app.state.mode == Mode::OpenFile {
        Screen::FileSelection
    } else if app.state.is_searching_places {
        Screen::PlaceSearch
    } else if app.state.collapsed {
        Screen::Collapsed
    } else {
        Screen::Expanded
    }
}

/// The name of a mode as the mode line shows it.
pub fn mode_name(mode: Mode) -> (name: &'static str)
    ensures
        name@ == match mode {
            Mode::Navigate => "NAVIGATE"@,
            Mode::Edit => "EDIT"@,
            Mode::Connect => "CONNECT"@,
            Mode::OpenFile => "OPEN FILE"@,
            Mode::SaveFile => "SAVE FILE"@,
            Mode::ConfirmDelete => "CONFIRM DELETE"@,
        },
{
    match mode {
        Mode::Navigate => "NAVIGATE",
        Mode::Edit => "EDIT",
        Mode::Connect => "CONNECT",
        Mode::OpenFile => "OPEN FILE",
        Mode::SaveFile => "SAVE FILE",
        Mode::ConfirmDelete => "CONFIRM DELETE",
    }
}

/// The name of the view that is switched on, as the mode line shows it.
pub fn view_name(collapsed: bool) -> (name: &'static str)
    ensures
        name@ == if collapsed {
            "Collapsed"@
        } else {
            "Expanded"@
        },
{
    if collapsed {
        "Collapsed"
    } else {
        "Expanded"
    }
}

/// What the status bar shows.
#[derive(Debug, Clone, Copy, PartialEq, Eq, Structural)]
pub enum StatusKind {
    /// The query of the place search.
    Jump,
    /// The edit buffer.
    Editing,
    /// The query of the connection pick.
    Connecting,
    /// The prompt of the file pick.
    Opening,
    /// The name of the breadboard and the number of its places.
    Board,
}

/// What the status bar shows: the place search while it is on, else what
/// the mode edits or picks, else the breadboard.
pub open spec fn status_of(app: App) -> StatusKind {
    if app.state.is_searching_places {
        StatusKind::Jump
    } else {
        match app.state.mode {
            Mode::Edit => StatusKind::Editing,
            Mode::Connect => StatusKind::Connecting,
            Mode::OpenFile => StatusKind::Opening,
            _ => StatusKind::Board,
        }
    }
}

/// The pieces of text of the status bar, in order.
pub open spec fn status_texts(app: App) -> Seq<Seq<char>> {
    match status_of(app) {
        StatusKind::Jump => seq![
            "Jump to: "@,
            app.state.place_picker.query@,
            " (type to filter, ↑/↓ to select, Enter to jump, Esc to cancel)"@,
        ],
        StatusKind::Editing => seq![
            "Editing: "@,
            app.state.edit_buffer@,
            " (Enter to save, Esc to cancel)"@,
        ],
        StatusKind::Connecting => seq![
            "Connect to: "@,
            app.state.connection_picker.query@,
            " (↑/↓ to select, Enter to connect, Esc to cancel)"@,
        ],
        StatusKind::Opening => seq![
            "Select file to open: "@,
            " (↑/↓ to select, Enter to open, Esc to cancel)"@,
        ],
        StatusKind::Board => seq![
            "Board: "@ + app.breadboard.name@ + " "@,
            "Places: "@ + decimal(app.breadboard.places@.len()) + " "@,
            "(type to search) "@,
        ],
    }
}

/// What the status bar shows.
pub fn status_kind(app: &App) -> (kind: StatusKind)
    ensures
        kind == status_of(*app),
{
    if app.state.is_searching_places {
        StatusKind::Jump
    } else {
        match app.state.mode {
            Mode::Edit => StatusKind::Editing,
            Mode::Connect => StatusKind::Connecting,
            Mode::OpenFile => StatusKind::Opening,
            _ => StatusKind::Board,
        }
    }
}

/// The pieces of text of the status bar, in order.
pub fn status_line(app: &App) -> (pieces: Vec<String>)
    ensures
        Seq::new(pieces@.len(), |k: int| pieces@[k]@) == status_texts(*app),
{
    let mut pieces: Vec<String> = Vec::new();
    match status_kind(app) {
        StatusKind::Jump => {
            pieces.push("Jump to: ".to_owned());
            pieces.push(app.state.place_picker.query.clone());
            pieces.push(
                " (type to filter, ↑/↓ to select, Enter to jump, Esc to cancel)".to_owned(),
            );
        },
        StatusKind::Editing => {
            pieces.push("Editing: ".to_owned());
            pieces.push(app.state.edit_buffer.clone());
            pieces.push(" (Enter to save, Esc to cancel)".to_owned());
        },
        StatusKind::Connecting => {
            pieces.push("Connect to: ".to_owned());
            pieces.push(app.state.connection_picker.query.clone());
            pieces.push(" (↑/↓ to select, Enter to connect, Esc to cancel)".to_owned());
        },
        StatusKind::Opening => {
            pieces.push("Select file to open: ".to_owned());
            pieces.push(" (↑/↓ to select, Enter to open, Esc to cancel)".to_owned());
        },
        StatusKind::Board => {
            let mut board = "Board: ".to_owned();
            board.append(app.breadboard.name.as_str());
            board.append(" ");
            pieces.push(board);
            let mut places = "Places: ".to_owned();
            append_decimal(&mut places, app.breadboard.places.len() as u128);
            places.append(" ");
            pieces.push(places);
            pieces.push("(type to search) ".to_owned());
        },
    }
    assert(Seq::new(pieces@.len(), |k: int| pieces@[k]@) =~= status_texts(*app));
    pieces
}

/// The title of the place search.
pub fn place_search_title(app: &App) -> (title: String)
    ensures
        title@ == "Jump to place: "@ + app.state.place_picker.query@,
{
    let mut title = "Jump to place: ".to_owned();
    title.append(app.state.place_picker.query.as_str());
    title
}

impl App {
    /// The position, among the lines of the expanded view, of the line that
    /// the selection names; `None` where no line is marked.
    pub fn get_selected_item_index(&self) -> (index: Option<usize>)
        ensures
            match index {
                Some(i) => is_first_selected(
                    expanded_rows(self.breadboard, self.state.selection),
                    i as int,
                ),
                None => forall|k: int|
                    0 <= k < expanded_rows(self.breadboard, self.state.selection).len() ==> !(
                    #[trigger] expanded_rows(self.breadboard, self.state.selection)[k]).selected,
            },
    {
        let rows = expanded_view(&self.breadboard, self.state.selection);
        first_selected_row(&rows)
    }
}

} // verus!
