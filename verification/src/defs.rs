//! The selectable lists of the interface, their entries, and the states of a session.
use vstd::prelude::*;

verus! {

/// A list of entries with at most one of them selected.
#[derive(Clone)]
pub struct StateList<T> {
    /// The index of the selected entry, if any.
    pub selected: Option<usize>,
    /// The entries, in display order.
    pub items: Vec<T>,
}

/// The selection after moving one entry down a list of `len` entries: the first entry when
/// nothing is selected, otherwise the next entry, staying on the last one.
pub open spec fn next_selection(selected: Option<usize>, len: nat) -> Option<usize> {
    match selected {
        Some(i) => if i >= len - 1 {
            Some((len - 1) as usize)
        } else {
            Some((i + 1) as usize)
        },
        None => Some(0),
    }
}

/// The selection after moving one entry up: the first entry when nothing is selected, otherwise
/// the previous entry, staying on the first one.
pub open spec fn previous_selection(selected: Option<usize>) -> Option<usize> {
    match selected {
        Some(i) => if i == 0 {
            Some(0)
        } else {
            Some((i - 1) as usize)
        },
        None => Some(0),
    }
}

/// Whether `selected` is nothing or the index of one of `len` entries.
pub open spec fn selection_in_range(selected: Option<usize>, len: nat) -> bool {
    selected matches Some(i) ==> i < len
}

impl<T> StateList<T> {
    /// An empty list with nothing selected.
    pub fn new() -> (l: StateList<T>)
        ensures
            l.selected is None,
            l.items@ == Seq::<T>::empty(),
    {
        StateList { selected: None, items: Vec::new() }
    }

    /// A list of `items` with the first entry selected.
    pub fn from(items: Vec<T>) -> (l: StateList<T>)
        ensures
            l.selected == Some(0usize),
            l.items@ == items@,
    {
        StateList { selected: Some(0), items }
    }

    /// Moves the selection one entry down (see `next_selection`).
    pub fn next(&mut self)
        requires
            old(self).selected is Some ==> old(self).items.len() > 0,
        ensures
            final(self).selected == next_selection(old(self).selected, old(self).items.len() as nat),
            final(self).items == old(self).items,
    {
        let i: usize = match self.selected {
            Some(i) => {
                if i >= self.items.len() - 1 {
                    self.items.len() - 1
                } else {
                    i + 1
                }
            },
            None => 0,
        };
        self.selected = Some(i);
    }

    /// Moves the selection one entry up (see `previous_selection`).
    pub fn previous(&mut self)
        ensures
            final(self).selected == previous_selection(old(self).selected),
            final(self).items == old(self).items,
    {
        let i: usize = match self.selected {
            Some(i) => {
                if i == 0 {
                    0
                } else {
                    i - 1
                }
            },
            None => 0,
        };
        self.selected = Some(i);
    }
}

/// Moving the selection of a non-empty list, either way, keeps it on one of its entries.
pub proof fn lemma_moves_stay_in_range(selected: Option<usize>, len: nat)
    requires
        len > 0,
        selection_in_range(selected, len),
    ensures
        next_selection(selected, len) matches Some(i) && i < len,
        previous_selection(selected) matches Some(i) && i < len,
{
}

/// Moving down and then up returns to the entry selected before, unless it was the last one.
pub proof fn lemma_previous_undoes_next(i: usize, len: nat)
    requires
        i + 1 < len <= usize::MAX,
    ensures
        previous_selection(next_selection(Some(i), len)) == Some(i),
{
}

/// Moving up and then down returns to the entry selected before, unless it was the first one.
pub proof fn lemma_next_undoes_previous(i: usize, len: nat)
    requires
        0 < i < len,
    ensures
        next_selection(previous_selection(Some(i)), len) == Some(i),
{
}

/// The selection stays on the last entry when moved down, and on the first when moved up.
pub proof fn lemma_moves_stop_at_ends(len: nat)
    requires
        0 < len <= usize::MAX,
    ensures
        next_selection(Some((len - 1) as usize), len) == Some((len - 1) as usize),
        previous_selection(Some(0usize)) == Some(0usize),
{
}

/// An entry of a list on screen: the text shown and the command it stands for.
#[derive(Clone, Debug)]
pub struct Item {
    /// The text shown for the entry.
    pub item: String,
    /// The command the entry stands for.
    pub cmd: String,
}

/// Whether `items` show and stand for `lines`, one entry per line, in order.
pub open spec fn items_of(items: Seq<Item>, lines: Seq<String>) -> bool {
    &&& items.len() == lines.len()
    &&& forall|k: int| 0 <= k < lines.len() ==> (#[trigger] items[k]).item == lines[k]
        && items[k].cmd == lines[k]
}

/// One entry per line, each showing its line and standing for it.
pub fn items_from(lines: &Vec<String>) -> (items: Vec<Item>)
    ensures
        items_of(items@, lines@),
{
    let mut items: Vec<Item> = Vec::new();
    let mut k: usize = 0;
    while k < lines.len()
        invariant
            k <= lines.len(),
            items_of(items@, lines@.take(k as int)),
        decreases lines.len() - k,
    {
        let line = &lines[k];
        items.push(Item { item: line.clone(), cmd: line.clone() });
        k += 1;
        assert(items_of(items@, lines@.take(k as int)));
    }
    assert(lines@.take(lines@.len() as int) =~= lines@);
    items
}

/// The states of a session.
#[derive(Debug)]
pub enum States {
    /// Choosing a server.
    Connect,
    /// Connecting to the server of the given option.
    Connecting(String),
    /// Connected: typing a search.
    Connected,
    /// A download failed.
    Failed,
    /// A search failed.
    SearchFailed,
    /// Searching for the given term.
    Search(String),
    /// Showing the results of a search.
    Results,
    /// Choosing where to download the given book.
    Get(String),
    /// Downloading a book.
    Getting,
    /// A book was downloaded.
    Got,
}

} // verus!
