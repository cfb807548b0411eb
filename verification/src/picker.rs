//! Search-and-pick: a query, the candidates that it keeps, and a cursor over
//! them. One mechanism serves every pick flow; a flow differs from another
//! only in the candidates it offers and in whether it offers the sentinel, an
//! extra first entry that no query removes.

use vstd::prelude::*;
use vstd::string::*;
use crate::input::TextDelta;
use crate::text::{matches_query, name_matches, pop_char, without_last};

verus! {

/// Something that can be picked: the key that the caller gets back, and the
/// name that is shown and searched.
#[derive(Debug, Clone)]
pub struct Candidate<K> {
    pub key: K,
    pub name: String,
}

/// One entry of the result list.
#[derive(Debug, Clone, Copy, PartialEq, Eq)]
pub enum Pick<K> {
    /// The extra entry of a picker that has one. What it stands for is the
    /// caller's business.
    Sentinel,
    /// The candidate with this key.
    Item(K),
}

/// The state of one pick flow.
#[derive(Debug, Clone)]
pub struct Picker<K> {
    pub query: String,
    pub results: Vec<Pick<K>>,
    pub selected_index: Option<usize>,
}

/// Every candidate of `domain` as a result entry, in order.
pub open spec fn all_items<K>(domain: Seq<Candidate<K>>) -> Seq<Pick<K>> {
    Seq::new(domain.len(), |i: int| Pick::Item(domain[i].key))
}

/// The candidates of `domain` that `query` keeps, as result entries, in the
/// order of `domain`.
pub open spec fn kept_items<K>(domain: Seq<Candidate<K>>, query: Seq<char>) -> Seq<Pick<K>>
    decreases domain.len(),
{
    if domain.len() == 0 {
        Seq::empty()
    } else {
        let rest = kept_items(domain.drop_last(), query);
        if matches_query(domain.last().name@, query) {
            rest.push(Pick::Item(domain.last().key))
        } else {
            rest
        }
    }
}

/// What a result list starts with: the sentinel, or nothing.
pub open spec fn sentinel_prefix<K>(sentinel: bool) -> Seq<Pick<K>> {
    if sentinel {
        seq![Pick::Sentinel]
    } else {
        Seq::empty()
    }
}

/// The result list for `query` over `domain`.
pub open spec fn results_for<K>(domain: Seq<Candidate<K>>, query: Seq<char>, sentinel: bool) -> Seq<
    Pick<K>,
> {
    sentinel_prefix(sentinel) + kept_items(domain, query)
}

/// The cursor after a step up over `len` results: one entry up, held
/// within the results. At the first entry, without a cursor, or with no
/// results, it stays where it was.
pub open spec fn cursor_up(cursor: Option<usize>, len: nat) -> Option<usize> {
    match cursor {
        Some(i) => if len == 0 || i == 0 {
            Some(i)
        } else if i - 1 < len {
            Some((i - 1) as usize)
        } else {
            Some((len - 1) as usize)
        },
        None => None,
    }
}

/// The cursor after a step down over `len` results: one entry down, held
/// within the results. At the last entry, without a cursor, or with no
/// results, it stays where it was.
pub open spec fn cursor_down(cursor: Option<usize>, len: nat) -> Option<usize> {
    match cursor {
        Some(i) => if len == 0 {
            Some(i)
        } else if i + 1 < len {
            Some((i + 1) as usize)
        } else {
            Some((len - 1) as usize)
        },
        None => None,
    }
}

/// The query after a text delta.
pub open spec fn edited_query(query: Seq<char>, delta: TextDelta, text: Seq<char>) -> Seq<char> {
    match delta {
        TextDelta::Backspace => without_last(query),
        TextDelta::Delete => without_last(query),
        TextDelta::Cursor => query,
        TextDelta::Nothing => query,
        TextDelta::Insert => query + text,
    }
}

/// Whether a text delta makes the picker search again: an insertion and a
/// backspace always do, a delete does where there is something to delete,
/// a cursor movement never does.
pub open spec fn searches_again(query: Seq<char>, delta: TextDelta) -> bool {
    match delta {
        TextDelta::Backspace => true,
        TextDelta::Delete => query.len() > 0,
        TextDelta::Cursor => false,
        TextDelta::Nothing => false,
        TextDelta::Insert => true,
    }
}

/// `after` is `before` after a text delta: the query is edited, and where
/// the delta makes the picker search again the results are those of the new
/// query over `domain`, with the cursor on the first entry. Otherwise
/// `after` is `before`.
pub open spec fn picker_edited<K>(
    before: Picker<K>,
    after: Picker<K>,
    delta: TextDelta,
    text: Seq<char>,
    domain: Seq<Candidate<K>>,
    sentinel: bool,
) -> bool {
    &&& after.query@ == edited_query(before.query@, delta, text)
    &&& if searches_again(before.query@, delta) {
        &&& after.results@ == results_for(domain, after.query@, sentinel)
        &&& after.selected_index == Some(0usize)
    } else {
        after == before
    }
}

/// The empty query keeps every candidate.
pub proof fn lemma_empty_query_keeps_all<K>(domain: Seq<Candidate<K>>)
    ensures
        kept_items(domain, Seq::empty()) == all_items(domain),
    decreases domain.len(),
{
    if domain.len() > 0 {
        lemma_empty_query_keeps_all(domain.drop_last());
    }
    assert(kept_items(domain, Seq::<char>::empty()) =~= all_items(domain));
}

/// What a query keeps: each entry it returns is a candidate that the query
/// keeps, it returns one entry for each such candidate, and the entries stand
/// in the candidates' order. `source` gives for each entry the position of
/// its candidate.
pub proof fn lemma_kept_items<K>(domain: Seq<Candidate<K>>, query: Seq<char>) -> (source: Seq<int>)
    ensures
        source.len() == kept_items(domain, query).len(),
        forall|k: int|
            0 <= k < source.len() ==> 0 <= #[trigger] source[k] < domain.len() && kept_items(
                domain,
                query,
            )[k] == Pick::Item(domain[source[k]].key) && matches_query(
                domain[source[k]].name@,
                query,
            ),
        forall|k: int, l: int| 0 <= k < l < source.len() ==> source[k] < source[l],
        forall|i: int|
            0 <= i < domain.len() && matches_query((#[trigger] domain[i]).name@, query)
                ==> source.contains(i),
    decreases domain.len(),
{
    if domain.len() == 0 {
        Seq::empty()
    } else {
        let front = domain.drop_last();
        let earlier = lemma_kept_items(front, query);
        let last = domain.len() - 1;
        if matches_query(domain.last().name@, query) {
            let source = earlier.push(last);
            assert forall|i: int|
                0 <= i < domain.len() && matches_query(
                    (#[trigger] domain[i]).name@,
                    query,
                ) implies source.contains(i) by {
                if i < last {
                    assert(front[i] == domain[i]);
                    let k = choose|k: int| 0 <= k < earlier.len() && earlier[k] == i;
                    assert(source[k] == i);
                } else {
                    assert(source[earlier.len() as int] == i);
                }
            }
            source
        } else {
            assert forall|i: int|
                0 <= i < domain.len() && matches_query(
                    (#[trigger] domain[i]).name@,
                    query,
                ) implies earlier.contains(i) by {
                assert(front[i] == domain[i]);
            }
            earlier
        }
    }
}

impl<K: Copy> Picker<K> {
    /// The cursor, where there is one, stands on an entry of the result
    /// list.
    pub open spec fn selection_in_range(&self) -> bool {
        match self.selected_index {
            Some(i) => i < self.results@.len(),
            None => true,
        }
    }

    /// Nothing is being picked: no query, no results, no cursor.
    pub open spec fn is_idle(&self) -> bool {
        &&& self.query@.len() == 0
        &&& self.results@.len() == 0
        &&& self.selected_index.is_none()
    }

    /// The entry under the cursor.
    pub open spec fn selected(&self) -> Option<Pick<K>> {
        match self.selected_index {
            Some(i) => if i < self.results@.len() {
                Some(self.results@[i as int])
            } else {
                None
            },
            None => None,
        }
    }

    /// An idle picker.
    pub fn new() -> (picker: Self)
        ensures
            picker.is_idle(),
    {
        Picker { query: String::new(), results: Vec::new(), selected_index: None }
    }

    /// Recomputes the result list from `domain` and the query, and puts the
    /// cursor on its first entry, wherever it stood before. With `sentinel`
    /// the list starts with the sentinel, whatever the query.
    pub fn on_query_changed(&mut self, domain: &Vec<Candidate<K>>, sentinel: bool)
        ensures
            final(self).results@ == results_for(domain@, old(self).query@, sentinel),
            final(self).selected_index == Some(0usize),
            final(self).query == old(self).query,
            sentinel ==> final(self).results@.len() > 0 && final(self).results@[0]
                == Pick::<K>::Sentinel,
    {
        let mut results: Vec<Pick<K>> = Vec::new();
        if sentinel {
            results.push(Pick::Sentinel);
        }
        let ghost prefix = results@;
        assert(prefix =~= sentinel_prefix::<K>(sentinel));
        let mut i: usize = 0;
        while i < domain.len()
            invariant
                i <= domain@.len(),
                results@ == prefix + kept_items(domain@.take(i as int), self.query@),
            decreases domain@.len() - i,
        {
            assert(domain@.take(i + 1).drop_last() =~= domain@.take(i as int));
            if name_matches(domain[i].name.as_str(), self.query.as_str()) {
                results.push(Pick::Item(domain[i].key));
            }
            assert(results@ =~= prefix + kept_items(domain@.take(i + 1), self.query@));
            i += 1;
        }
        assert(domain@.take(i as int) =~= domain@);
        self.results = results;
        self.selected_index = Some(0);
    }

    /// Begins a pick over `domain`: the query is cleared, every candidate is
    /// listed (after the sentinel, where the picker has one), and the cursor
    /// stands on the first entry, or nowhere where the list is empty.
    pub fn start(&mut self, domain: &Vec<Candidate<K>>, sentinel: bool)
        ensures
            final(self).query@.len() == 0,
            final(self).results@ == sentinel_prefix::<K>(sentinel) + all_items(domain@),
            final(self).results@ == results_for(domain@, final(self).query@, sentinel),
            final(self).selected_index == if final(self).results@.len() > 0 {
                Some(0usize)
            } else {
                None
            },
            final(self).selection_in_range(),
    {
        self.query = String::new();
        self.on_query_changed(domain, sentinel);
        if self.results.len() == 0 {
            self.selected_index = None;
        }
        proof {
            lemma_empty_query_keeps_all(domain@);
            assert(self.query@ =~= Seq::<char>::empty());
        }
    }

    /// Appends `text` to the query and recomputes the results.
    pub fn type_text(&mut self, text: &str, domain: &Vec<Candidate<K>>, sentinel: bool)
        ensures
            final(self).query@ == old(self).query@ + text@,
            final(self).results@ == results_for(domain@, final(self).query@, sentinel),
            final(self).selected_index == Some(0usize),
    {
        self.query.append(text);
        self.on_query_changed(domain, sentinel);
    }

    /// Removes the last character of the query, where it has one, and
    /// recomputes the results.
    pub fn erase_last(&mut self, domain: &Vec<Candidate<K>>, sentinel: bool)
        ensures
            final(self).query@ == without_last(old(self).query@),
            final(self).results@ == results_for(domain@, final(self).query@, sentinel),
            final(self).selected_index == Some(0usize),
    {
        pop_char(&mut self.query);
        self.on_query_changed(domain, sentinel);
    }

    /// Moves the cursor one entry up and holds it within the results. At
    /// the first entry, without a cursor, or with no results, nothing
    /// changes.
    pub fn move_up(&mut self)
        ensures
            *final(self) == (Picker {
                selected_index: cursor_up(old(self).selected_index, old(self).results@.len()),
                ..*old(self)
            }),
            old(self).results@.len() > 0 ==> final(self).selection_in_range(),
    {
        let n = self.results.len();
        match self.selected_index {
            Some(i) => {
                if n > 0 && i > 0 {
                    if i - 1 < n {
                        self.selected_index = Some(i - 1);
                    } else {
                        self.selected_index = Some(n - 1);
                    }
                }
            },
            None => {},
        }
    }

    /// Moves the cursor one entry down and holds it within the results. At
    /// the last entry, without a cursor, or with no results, nothing
    /// changes.
    pub fn move_down(&mut self)
        ensures
            *final(self) == (Picker {
                selected_index: cursor_down(old(self).selected_index, old(self).results@.len()),
                ..*old(self)
            }),
            old(self).results@.len() > 0 ==> final(self).selection_in_range(),
    {
        let n = self.results.len();
        match self.selected_index {
            Some(i) => {
                if n > 0 {
                    if i < n - 1 {
                        self.selected_index = Some(i + 1);
                    } else {
                        self.selected_index = Some(n - 1);
                    }
                }
            },
            None => {},
        }
    }

    /// Applies a text delta to the query. Where the delta makes the picker
    /// search again, the results are recomputed from `domain` and the
    /// cursor goes to the first entry; otherwise nothing changes.
    pub fn apply_delta(
        &mut self,
        delta: TextDelta,
        text: &str,
        domain: &Vec<Candidate<K>>,
        sentinel: bool,
    )
        ensures
            picker_edited(*old(self), *final(self), delta, text@, domain@, sentinel),
            final(self).query@ != old(self).query@ ==> final(self).selected_index == Some(0usize),
    {
        match delta {
            TextDelta::Backspace => {
                self.erase_last(domain, sentinel);
            },
            TextDelta::Delete => {
                if self.query.as_str().unicode_len() > 0 {
                    self.erase_last(domain, sentinel);
                }
            },
            TextDelta::Cursor => {},
            TextDelta::Nothing => {},
            TextDelta::Insert => {
                self.type_text(text, domain, sentinel);
            },
        }
    }

    /// The entry under the cursor; `None` without a cursor or where the
    /// cursor stands beyond the results.
    pub fn commit(&self) -> (picked: Option<Pick<K>>)
        ensures
            picked == self.selected(),
    {
        match self.selected_index {
            Some(i) => {
                if i < self.results.len() {
                    Some(self.results[i])
                } else {
                    None
                }
            },
            None => None,
        }
    }

    /// Ends the pick: query, results and cursor are dropped.
    pub fn cancel(&mut self)
        ensures
            final(self).is_idle(),
    {
        self.query = String::new();
        self.results = Vec::new();
        self.selected_index = None;
    }
}

} // verus!
