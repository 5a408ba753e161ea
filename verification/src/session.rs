//! The interface of a session as a state machine: what each key does in each state, and what the
//! completion of a connection, a search or a download does.
use vstd::prelude::*;

use crate::defs::{
    items_from, items_of, next_selection, previous_selection, selection_in_range, Item, StateList,
    States,
};
use crate::text::{pop_char, push_char, push_str_chars};

verus! {

/// A key as the interface tells them apart.
#[derive(Debug, Clone, Copy, PartialEq, Eq, Structural)]
pub enum Key {
    /// A char key.
    Char(char),
    /// The up arrow.
    Up,
    /// The down arrow.
    Down,
    /// The enter key.
    Enter,
    /// The backspace key.
    Backspace,
    /// Any other key.
    Other,
}

/// A key press: the key and whether the control modifier was held.
#[derive(Debug, Clone, Copy, PartialEq, Eq, Structural)]
pub struct KeyPress {
    /// The key.
    pub code: Key,
    /// Whether control was held.
    pub ctrl: bool,
}

/// What the caller must do after a key press.
#[derive(Debug)]
pub enum Action {
    /// Nothing.
    Nothing,
    /// End the session.
    Quit,
    /// Send the given search command to the channel and read the results.
    Search(String),
    /// Request the book of the given command and store it in the given directory.
    Download { cmd: String, path: String },
}

/// The state of the interface.
pub struct Ui {
    /// The current state.
    pub state: States,
    /// The server options to choose from.
    pub connections: StateList<Item>,
    /// The results of the last search.
    pub items: StateList<Item>,
    /// The lines of the last search's results.
    pub file_names: Vec<String>,
    /// The search being typed.
    pub search_term: String,
    /// The directory to download into, as typed.
    pub dir_path: String,
    /// The command that starts a search, as the server option gives it.
    pub search_command: String,
}

/// Whether `k` is the char key `lower` or `upper`, with or without control.
pub open spec fn pressed(k: KeyPress, lower: char, upper: char) -> bool {
    k.code == Key::Char(lower) || k.code == Key::Char(upper)
}

impl Ui {
    /// This interface in the state `s`.
    pub open spec fn with_state(self, s: States) -> Ui {
        Ui {
            state: s,
            connections: self.connections,
            items: self.items,
            file_names: self.file_names,
            search_term: self.search_term,
            dir_path: self.dir_path,
            search_command: self.search_command,
        }
    }

    /// This interface with the search term `t`.
    pub open spec fn with_search_term(self, t: String) -> Ui {
        Ui {
            state: self.state,
            connections: self.connections,
            items: self.items,
            file_names: self.file_names,
            search_term: t,
            dir_path: self.dir_path,
            search_command: self.search_command,
        }
    }

    /// This interface with the directory `d`.
    pub open spec fn with_dir_path(self, d: String) -> Ui {
        Ui {
            state: self.state,
            connections: self.connections,
            items: self.items,
            file_names: self.file_names,
            search_term: self.search_term,
            dir_path: d,
            search_command: self.search_command,
        }
    }

    /// This interface with the server options `l`.
    pub open spec fn with_connections(self, l: StateList<Item>) -> Ui {
        Ui {
            state: self.state,
            connections: l,
            items: self.items,
            file_names: self.file_names,
            search_term: self.search_term,
            dir_path: self.dir_path,
            search_command: self.search_command,
        }
    }

    /// This interface with the results `l`.
    pub open spec fn with_items(self, l: StateList<Item>) -> Ui {
        Ui {
            state: self.state,
            connections: self.connections,
            items: l,
            file_names: self.file_names,
            search_term: self.search_term,
            dir_path: self.dir_path,
            search_command: self.search_command,
        }
    }
}

/// `n` is `o` with its list `l` moved by `k` (down or up) and `a` is nothing.
pub open spec fn list_moved(o: StateList<Item>, k: KeyPress, n: StateList<Item>) -> bool {
    &&& n.items == o.items
    &&& k.code == Key::Down ==> n.selected == next_selection(o.selected, o.items.len() as nat)
    &&& k.code == Key::Up ==> n.selected == previous_selection(o.selected)
}

/// `n` is `o` with the text `t` edited by the key `k`: a char appended, or the last char removed.
pub open spec fn text_edited(o: Seq<char>, k: KeyPress, n: Seq<char>) -> bool {
    match k.code {
        Key::Char(c) => n == o.push(c),
        Key::Backspace => n == if o.len() > 0 {
            o.drop_last()
        } else {
            o
        },
        _ => n == o,
    }
}

/// A key while choosing a server: `q` quits, the arrows move the selection, enter connects to
/// the selected option.
pub open spec fn connect_step(o: Ui, k: KeyPress, n: Ui, a: Action) -> bool {
    if pressed(k, 'q', 'Q') {
        n == o && a is Quit
    } else if k.code == Key::Down || k.code == Key::Up {
        &&& n == o.with_connections(n.connections)
        &&& list_moved(o.connections, k, n.connections)
        &&& a is Nothing
    } else if k.code == Key::Enter {
        &&& a is Nothing
        &&& match o.connections.selected {
            Some(i) => n == o.with_state(n.state) && match n.state {
                States::Connecting(s) => s == o.connections.items@[i as int].cmd,
                _ => false,
            },
            None => n == o,
        }
    } else {
        n == o && a is Nothing
    }
}

/// A key after a failed download: `s` starts a new search, `q` quits, enter goes back to the
/// results.
pub open spec fn failed_step(o: Ui, k: KeyPress, n: Ui, a: Action) -> bool {
    if pressed(k, 's', 'S') {
        n == o.with_state(States::Connected) && a is Nothing
    } else if pressed(k, 'q', 'Q') {
        n == o && a is Quit
    } else if k.code == Key::Enter {
        n == o.with_state(States::Results) && a is Nothing
    } else {
        n == o && a is Nothing
    }
}

/// A key after a failed search: `q` quits, enter starts a new search.
pub open spec fn search_failed_step(o: Ui, k: KeyPress, n: Ui, a: Action) -> bool {
    if pressed(k, 'q', 'Q') {
        n == o && a is Quit
    } else if k.code == Key::Enter {
        n == o.with_state(States::Connected) && a is Nothing
    } else {
        n == o && a is Nothing
    }
}

/// A key while typing a search: control-`q` quits; without control, chars and backspace edit
/// the search term, and enter sends the search (the search command, a space and the term),
/// shows the term as searched for, and clears it.
pub open spec fn connected_step(o: Ui, k: KeyPress, n: Ui, a: Action) -> bool {
    if k.ctrl {
        if pressed(k, 'q', 'Q') {
            n == o && a is Quit
        } else {
            n == o && a is Nothing
        }
    } else if k.code == Key::Enter {
        &&& n == o.with_state(n.state).with_search_term(n.search_term)
        &&& n.search_term@ == Seq::<char>::empty()
        &&& match n.state {
            States::Search(t) => t@ == o.search_term@,
            _ => false,
        }
        &&& match a {
            Action::Search(cmd) => cmd@ == o.search_command@ + seq![' '] + o.search_term@,
            _ => false,
        }
    } else {
        &&& n == o.with_search_term(n.search_term)
        &&& text_edited(o.search_term@, k, n.search_term@)
        &&& a is Nothing
    }
}

/// A key while showing results: `s` starts a new search, `q` quits, the arrows move the
/// selection, enter asks where to download the selected book.
pub open spec fn results_step(o: Ui, k: KeyPress, n: Ui, a: Action) -> bool {
    if pressed(k, 's', 'S') {
        n == o.with_state(States::Connected) && a is Nothing
    } else if pressed(k, 'q', 'Q') {
        n == o && a is Quit
    } else if k.code == Key::Down || k.code == Key::Up {
        &&& n == o.with_items(n.items)
        &&& list_moved(o.items, k, n.items)
        &&& a is Nothing
    } else if k.code == Key::Enter {
        &&& a is Nothing
        &&& match o.items.selected {
            Some(i) => n == o.with_state(n.state) && match n.state {
                States::Get(s) => s == o.items.items@[i as int].cmd,
                _ => false,
            },
            None => n == o,
        }
    } else {
        n == o && a is Nothing
    }
}

/// A key while asking where to download the book of `cmd`: control-`q` quits; without control,
/// chars and backspace edit the directory, and enter starts the download into it.
pub open spec fn get_step(o: Ui, cmd: String, k: KeyPress, n: Ui, a: Action) -> bool {
    if k.ctrl {
        if pressed(k, 'q', 'Q') {
            n == o && a is Quit
        } else {
            n == o && a is Nothing
        }
    } else if k.code == Key::Enter {
        &&& n == o.with_state(States::Getting)
        &&& match a {
            Action::Download { cmd: c, path } => c == cmd && path == o.dir_path,
            _ => false,
        }
    } else {
        &&& n == o.with_dir_path(n.dir_path)
        &&& text_edited(o.dir_path@, k, n.dir_path@)
        &&& a is Nothing
    }
}

/// A key after a download: `s` starts a new search, `q` quits, enter goes back to the results.
pub open spec fn got_step(o: Ui, k: KeyPress, n: Ui, a: Action) -> bool {
    failed_step(o, k, n, a)
}

/// What a key does in the state of `o`; in the states that wait for a connection, a search or
/// a download, keys do nothing.
pub open spec fn key_step(o: Ui, k: KeyPress, n: Ui, a: Action) -> bool {
    match o.state {
        States::Connect => connect_step(o, k, n, a),
        States::Failed => failed_step(o, k, n, a),
        States::SearchFailed => search_failed_step(o, k, n, a),
        States::Connected => connected_step(o, k, n, a),
        States::Results => results_step(o, k, n, a),
        States::Get(cmd) => get_step(o, cmd, k, n, a),
        States::Got => got_step(o, k, n, a),
        _ => n == o && a is Nothing,
    }
}

/// Whether the selections that a key can read are on entries of their lists.
pub open spec fn selections_in_range(u: Ui) -> bool {
    &&& u.state is Connect ==> selection_in_range(
        u.connections.selected,
        u.connections.items.len() as nat,
    )
    &&& u.state is Results ==> selection_in_range(u.items.selected, u.items.items.len() as nat)
}

/// Whether `k` is the char key `lower` or `upper`.
fn is_pressed(k: &KeyPress, lower: char, upper: char) -> (r: bool)
    ensures
        r == pressed(*k, lower, upper),
{
    match k.code {
        Key::Char(c) => c == lower || c == upper,
        _ => false,
    }
}

/// Edits `t` by the key `k`: appends a char, or removes the last char on backspace.
fn edit_text(t: &mut String, k: &KeyPress)
    ensures
        text_edited(old(t)@, *k, final(t)@),
{
    match k.code {
        Key::Char(c) => push_char(t, c),
        Key::Backspace => {
            pop_char(t);
        },
        _ => {},
    }
}

impl Ui {
    /// A session choosing among the server `options`, the first one selected.
    pub fn new(options: &Vec<String>) -> (u: Ui)
        ensures
            u.state is Connect,
            u.connections.selected == Some(0usize),
            items_of(u.connections.items@, options@),
            u.items.selected is None,
            u.items.items@.len() == 0,
            u.file_names@.len() == 0,
            u.search_term@ == Seq::<char>::empty(),
            u.dir_path@ == seq!['.', '/'],
            u.search_command@ == Seq::<char>::empty(),
    {
        let mut dir_path = String::new();
        push_char(&mut dir_path, '.');
        push_char(&mut dir_path, '/');
        Ui {
            state: States::Connect,
            connections: StateList::from(items_from(options)),
            items: StateList::new(),
            file_names: Vec::new(),
            search_term: String::new(),
            dir_path,
            search_command: String::new(),
        }
    }

    /// Handles a key press; returns what the caller must do.
    pub fn handle_key(&mut self, key: KeyPress) -> (a: Action)
        requires
            selections_in_range(*old(self)),
        ensures
            key_step(*old(self), key, *final(self), a),
    {
        if let States::Get(cmd) = &self.state {
            let cmd = cmd.clone();
            return self.get_key(cmd, key);
        }
        match self.state {
            States::Connect => self.connect_key(key),
            States::Failed => self.failed_key(key),
            States::Got => self.failed_key(key),
            States::SearchFailed => self.search_failed_key(key),
            States::Connected => self.connected_key(key),
            States::Results => self.results_key(key),
            _ => Action::Nothing,
        }
    }

    fn connect_key(&mut self, key: KeyPress) -> (a: Action)
        requires
            selection_in_range(
                old(self).connections.selected,
                old(self).connections.items.len() as nat,
            ),
        ensures
            connect_step(*old(self), key, *final(self), a),
    {
        if is_pressed(&key, 'q', 'Q') {
            return Action::Quit;
        }
        match key.code {
            Key::Down => self.connections.next(),
            Key::Up => self.connections.previous(),
            Key::Enter => {
                if let Some(i) = self.connections.selected {
                    let cmd = self.connections.items[i].cmd.clone();
                    self.state = States::Connecting(cmd);
                }
            },
            _ => {},
        }
        Action::Nothing
    }

    fn failed_key(&mut self, key: KeyPress) -> (a: Action)
        ensures
            failed_step(*old(self), key, *final(self), a),
    {
        if is_pressed(&key, 's', 'S') {
            self.state = States::Connected;
        } else if is_pressed(&key, 'q', 'Q') {
            return Action::Quit;
        } else if key.code == Key::Enter {
            self.state = States::Results;
        }
        Action::Nothing
    }

    fn search_failed_key(&mut self, key: KeyPress) -> (a: Action)
        ensures
            search_failed_step(*old(self), key, *final(self), a),
    {
        if is_pressed(&key, 'q', 'Q') {
            return Action::Quit;
        } else if key.code == Key::Enter {
            self.state = States::Connected;
        }
        Action::Nothing
    }

    fn connected_key(&mut self, key: KeyPress) -> (a: Action)
        ensures
            connected_step(*old(self), key, *final(self), a),
    {
        if key.ctrl {
            if is_pressed(&key, 'q', 'Q') {
                return Action::Quit;
            }
            return Action::Nothing;
        }
        if key.code == Key::Enter {
            let mut cmd = String::new();
            push_str_chars(&mut cmd, self.search_command.as_str());
            push_char(&mut cmd, ' ');
            push_str_chars(&mut cmd, self.search_term.as_str());
            assert(cmd@ =~= self.search_command@ + seq![' '] + self.search_term@);
            let mut term = String::new();
            std::mem::swap(&mut term, &mut self.search_term);
            self.state = States::Search(term);
            return Action::Search(cmd);
        }
        edit_text(&mut self.search_term, &key);
        Action::Nothing
    }

    fn results_key(&mut self, key: KeyPress) -> (a: Action)
        requires
            selection_in_range(old(self).items.selected, old(self).items.items.len() as nat),
        ensures
            results_step(*old(self), key, *final(self), a),
    {
        if is_pressed(&key, 's', 'S') {
            self.state = States::Connected;
            return Action::Nothing;
        }
        if is_pressed(&key, 'q', 'Q') {
            return Action::Quit;
        }
        match key.code {
            Key::Down => self.items.next(),
            Key::Up => self.items.previous(),
            Key::Enter => {
                if let Some(i) = self.items.selected {
                    let cmd = self.items.items[i].cmd.clone();
                    self.state = States::Get(cmd);
                }
            },
            _ => {},
        }
        Action::Nothing
    }

    fn get_key(&mut self, cmd: String, key: KeyPress) -> (a: Action)
        ensures
            get_step(*old(self), cmd, key, *final(self), a),
    {
        if key.ctrl {
            if is_pressed(&key, 'q', 'Q') {
                return Action::Quit;
            }
            return Action::Nothing;
        }
        if key.code == Key::Enter {
            let path = self.dir_path.clone();
            self.state = States::Getting;
            return Action::Download { cmd, path };
        }
        edit_text(&mut self.dir_path, &key);
        Action::Nothing
    }

    /// The connection to the chosen server is up: typing a search, which starts with
    /// `search_command`.
    pub fn connected(&mut self, search_command: String)
        ensures
            final(self).state is Connected,
            final(self).search_command == search_command,
            final(self).connections == old(self).connections,
            final(self).items == old(self).items,
            final(self).file_names == old(self).file_names,
            final(self).search_term == old(self).search_term,
            final(self).dir_path == old(self).dir_path,
    {
        self.search_command = search_command;
        self.state = States::Connected;
    }

    /// The search returned `results`: they are shown, the first one selected.
    pub fn search_finished(&mut self, results: Vec<String>)
        ensures
            final(self).state is Results,
            final(self).items.selected == Some(0usize),
            items_of(final(self).items.items@, results@),
            final(self).file_names@ == results@,
            final(self).connections == old(self).connections,
            final(self).search_term == old(self).search_term,
            final(self).dir_path == old(self).dir_path,
            final(self).search_command == old(self).search_command,
    {
        self.items = StateList::from(items_from(&results));
        self.file_names = results;
        self.state = States::Results;
    }

    /// The search failed.
    pub fn search_failed(&mut self)
        ensures
            *final(self) == old(self).with_state(States::SearchFailed),
    {
        self.state = States::SearchFailed;
    }

    /// The book was downloaded.
    pub fn download_finished(&mut self)
        ensures
            *final(self) == old(self).with_state(States::Got),
    {
        self.state = States::Got;
    }

    /// The download failed.
    pub fn download_failed(&mut self)
        ensures
            *final(self) == old(self).with_state(States::Failed),
    {
        self.state = States::Failed;
    }
}

/// A char typed into the search and then erased with backspace leaves the search term as it
/// was, and the session in its state.
pub proof fn lemma_backspace_undoes_typing(
    o: Ui,
    c: char,
    m: Ui,
    a1: Action,
    n: Ui,
    a2: Action,
)
    requires
        o.state is Connected,
        key_step(o, KeyPress { code: Key::Char(c), ctrl: false }, m, a1),
        key_step(m, KeyPress { code: Key::Backspace, ctrl: false }, n, a2),
    ensures
        n.search_term@ == o.search_term@,
        n.state == o.state,
        a1 is Nothing,
        a2 is Nothing,
{
    assert(o.search_term@.push(c).drop_last() =~= o.search_term@);
}

/// A char typed into the download directory and then erased with backspace leaves the directory
/// as it was, and the session in its state.
pub proof fn lemma_backspace_undoes_typing_dir(
    o: Ui,
    c: char,
    m: Ui,
    a1: Action,
    n: Ui,
    a2: Action,
)
    requires
        o.state is Get,
        key_step(o, KeyPress { code: Key::Char(c), ctrl: false }, m, a1),
        key_step(m, KeyPress { code: Key::Backspace, ctrl: false }, n, a2),
    ensures
        n.dir_path@ == o.dir_path@,
        n.state == o.state,
        a1 is Nothing,
        a2 is Nothing,
{
    assert(o.dir_path@.push(c).drop_last() =~= o.dir_path@);
}

/// Where nothing is being typed (choosing a server, after a failure, showing results, after a
/// download), `q` or `Q`, with or without control, quits and changes nothing.
pub proof fn lemma_q_quits(o: Ui, upper: bool, ctrl: bool, n: Ui, a: Action)
    requires
        o.state is Connect || o.state is Failed || o.state is SearchFailed || o.state is Results
            || o.state is Got,
        key_step(o, KeyPress { code: Key::Char(if upper { 'Q' } else { 'q' }), ctrl }, n, a),
    ensures
        a is Quit,
        n == o,
{
}

/// Where text is typed (a search, a download directory), control-`q` quits and changes nothing,
/// while `q` without control is typed.
pub proof fn lemma_ctrl_q_quits_while_typing(o: Ui, ctrl: bool, n: Ui, a: Action)
    requires
        o.state is Connected || o.state is Get,
        key_step(o, KeyPress { code: Key::Char('q'), ctrl }, n, a),
    ensures
        ctrl ==> a is Quit && n == o,
        !ctrl ==> a is Nothing && n.state == o.state,
        !ctrl && o.state is Connected ==> n.search_term@ == o.search_term@.push('q'),
        !ctrl && o.state is Get ==> n.dir_path@ == o.dir_path@.push('q'),
{
}

/// While a connection, a search or a download is under way, keys change nothing.
pub proof fn lemma_waiting_ignores_keys(o: Ui, k: KeyPress, n: Ui, a: Action)
    requires
        o.state is Connecting || o.state is Search || o.state is Getting,
        key_step(o, k, n, a),
    ensures
        n == o,
        a is Nothing,
{
}

/// Sending a search clears the search term; the search shown and the command sent both carry
/// the term as typed.
pub proof fn lemma_search_sends_term(o: Ui, n: Ui, a: Action)
    requires
        o.state is Connected,
        key_step(o, KeyPress { code: Key::Enter, ctrl: false }, n, a),
    ensures
        n.search_term@.len() == 0,
        n.state matches States::Search(t) && t@ == o.search_term@,
        a matches Action::Search(cmd) && cmd@ == o.search_command@ + seq![' '] + o.search_term@,
{
}

/// Enter while choosing a server connects to the option that is selected: with option `i`
/// selected, the session goes on to connect with that option's command, and nothing else changes.
pub proof fn lemma_enter_connects_selected(o: Ui, i: usize, n: Ui, a: Action)
    requires
        o.state is Connect,
        o.connections.selected == Some(i),
        i < o.connections.items.len(),
        key_step(o, KeyPress { code: Key::Enter, ctrl: false }, n, a),
    ensures
        n.state matches States::Connecting(s) && s == o.connections.items@[i as int].cmd,
        n.connections == o.connections,
        n.items == o.items,
        n.search_term == o.search_term,
        n.dir_path == o.dir_path,
        a is Nothing,
{
}

/// Enter on the results asks where to store the result that is selected: with result `i`
/// selected, the session goes on to the download of that result's command, and nothing else
/// changes.
pub proof fn lemma_enter_gets_selected(o: Ui, i: usize, n: Ui, a: Action)
    requires
        o.state is Results,
        o.items.selected == Some(i),
        i < o.items.items.len(),
        key_step(o, KeyPress { code: Key::Enter, ctrl: false }, n, a),
    ensures
        n.state matches States::Get(s) && s == o.items.items@[i as int].cmd,
        n.connections == o.connections,
        n.items == o.items,
        n.search_term == o.search_term,
        n.dir_path == o.dir_path,
        a is Nothing,
{
}

/// Right after a search, Enter asks where to store its first result.
pub proof fn lemma_enter_after_search_gets_first(o: Ui, n: Ui, a: Action)
    requires
        o.state is Results,
        o.items.selected == Some(0usize),
        o.items.items.len() > 0,
        key_step(o, KeyPress { code: Key::Enter, ctrl: false }, n, a),
    ensures
        n.state matches States::Get(s) && s == o.items.items@[0].cmd,
{
}

/// After a download, and after a failed one, `s` or `S` (with or without control) starts a new
/// search and changes nothing else; enter goes back to the results.
pub proof fn lemma_after_download_keys(o: Ui, upper: bool, ctrl: bool, n: Ui, a: Action, m: Ui, b: Action)
    requires
        o.state is Got || o.state is Failed,
        key_step(o, KeyPress { code: Key::Char(if upper { 'S' } else { 's' }), ctrl }, n, a),
        key_step(o, KeyPress { code: Key::Enter, ctrl }, m, b),
    ensures
        n.state is Connected,
        n.connections == o.connections,
        n.items == o.items,
        n.file_names == o.file_names,
        n.search_term == o.search_term,
        n.dir_path == o.dir_path,
        n.search_command == o.search_command,
        a is Nothing,
        m.state is Results,
        m.items == o.items,
        b is Nothing,
{
}

} // verus!
