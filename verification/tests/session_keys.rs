use rusty_book_pirate::defs::States;
use rusty_book_pirate::session::{Action, Key, KeyPress, Ui};

fn key(code: Key) -> KeyPress {
    KeyPress { code, ctrl: false }
}

fn ctrl(code: Key) -> KeyPress {
    KeyPress { code, ctrl: true }
}

fn options() -> Vec<String> {
    vec![
        "irc.irchighway.net, #ebooks, @Search".to_string(),
        "irc.irchighway.net, #ebooks, @Searchook".to_string(),
    ]
}

fn connected_ui() -> Ui {
    let mut ui = Ui::new(&options());
    ui.connected("@Search".to_string());
    ui
}

#[test]
fn new_session_chooses_a_server() {
    let ui = Ui::new(&options());
    assert!(matches!(ui.state, States::Connect));
    assert_eq!(ui.connections.selected, Some(0));
    assert_eq!(ui.connections.items.len(), 2);
    assert_eq!(ui.dir_path, "./");
    assert_eq!(ui.search_term, "");
}

#[test]
fn arrows_and_enter_choose_the_server() {
    let mut ui = Ui::new(&options());
    assert!(matches!(ui.handle_key(key(Key::Down)), Action::Nothing));
    assert_eq!(ui.connections.selected, Some(1));
    ui.handle_key(key(Key::Down));
    assert_eq!(ui.connections.selected, Some(1));
    ui.handle_key(key(Key::Up));
    ui.handle_key(key(Key::Down));
    ui.handle_key(key(Key::Enter));
    match &ui.state {
        States::Connecting(s) => assert_eq!(s, "irc.irchighway.net, #ebooks, @Searchook"),
        other => panic!("unexpected state {:?}", other),
    }
}

#[test]
fn q_quits_while_choosing() {
    let mut ui = Ui::new(&options());
    assert!(matches!(ui.handle_key(key(Key::Char('Q'))), Action::Quit));
    assert!(matches!(ui.state, States::Connect));
}

#[test]
fn typing_a_search_and_sending_it() {
    let mut ui = connected_ui();
    for c in "emmaq".chars() {
        assert!(matches!(ui.handle_key(key(Key::Char(c))), Action::Nothing));
    }
    ui.handle_key(key(Key::Backspace));
    assert_eq!(ui.search_term, "emma");
    match ui.handle_key(key(Key::Enter)) {
        Action::Search(cmd) => assert_eq!(cmd, "@Search emma"),
        other => panic!("unexpected action {:?}", other),
    }
    assert_eq!(ui.search_term, "");
    match &ui.state {
        States::Search(t) => assert_eq!(t, "emma"),
        other => panic!("unexpected state {:?}", other),
    }
}

#[test]
fn backspace_on_empty_search_does_nothing() {
    let mut ui = connected_ui();
    ui.handle_key(key(Key::Backspace));
    assert_eq!(ui.search_term, "");
}

#[test]
fn ctrl_q_quits_while_typing() {
    let mut ui = connected_ui();
    assert!(matches!(ui.handle_key(ctrl(Key::Char('x'))), Action::Nothing));
    assert_eq!(ui.search_term, "");
    assert!(matches!(ui.handle_key(ctrl(Key::Char('q'))), Action::Quit));
}

#[test]
fn waiting_states_ignore_keys() {
    let mut ui = connected_ui();
    ui.handle_key(key(Key::Char('a')));
    ui.handle_key(key(Key::Enter));
    assert!(matches!(ui.handle_key(key(Key::Char('q'))), Action::Nothing));
    assert!(matches!(ui.handle_key(key(Key::Enter)), Action::Nothing));
    assert!(matches!(ui.state, States::Search(_)));
}

#[test]
fn results_then_download() {
    let mut ui = connected_ui();
    ui.search_finished(vec!["!Bsk Emma.epub".to_string(), "!Dragon Emma.mobi".to_string()]);
    assert!(matches!(ui.state, States::Results));
    assert_eq!(ui.items.selected, Some(0));
    assert_eq!(ui.file_names.len(), 2);
    ui.handle_key(key(Key::Down));
    ui.handle_key(key(Key::Enter));
    match &ui.state {
        States::Get(cmd) => assert_eq!(cmd, "!Dragon Emma.mobi"),
        other => panic!("unexpected state {:?}", other),
    }
    ui.handle_key(key(Key::Char('b')));
    ui.handle_key(key(Key::Backspace));
    ui.handle_key(key(Key::Char('x')));
    match ui.handle_key(key(Key::Enter)) {
        Action::Download { cmd, path } => {
            assert_eq!(cmd, "!Dragon Emma.mobi");
            assert_eq!(path, "./x");
        }
        other => panic!("unexpected action {:?}", other),
    }
    assert!(matches!(ui.state, States::Getting));
    assert_eq!(ui.dir_path, "./x");
    ui.download_finished();
    assert!(matches!(ui.state, States::Got));
    ui.handle_key(key(Key::Enter));
    assert!(matches!(ui.state, States::Results));
    ui.handle_key(key(Key::Char('s')));
    assert!(matches!(ui.state, States::Connected));
}

#[test]
fn failures_lead_back() {
    let mut ui = connected_ui();
    ui.search_failed();
    assert!(matches!(ui.state, States::SearchFailed));
    assert!(matches!(ui.handle_key(key(Key::Char('s'))), Action::Nothing));
    assert!(matches!(ui.state, States::SearchFailed));
    ui.handle_key(key(Key::Enter));
    assert!(matches!(ui.state, States::Connected));
    ui.download_failed();
    assert!(matches!(ui.state, States::Failed));
    ui.handle_key(key(Key::Enter));
    assert!(matches!(ui.state, States::Results));
    ui.download_failed();
    assert!(matches!(ui.handle_key(key(Key::Char('q'))), Action::Quit));
    ui.handle_key(key(Key::Char('S')));
    assert!(matches!(ui.state, States::Connected));
}
