use cursor_drop::config::parse;
use cursor_drop::menu::{menu_command, MenuCommand, MenuItem, Session};

fn session(ini: &str) -> Session {
    let servers = parse(ini);
    assert!(!servers.is_empty());
    Session::new(servers)
}

fn lines(s: &Session) -> Vec<(usize, String, bool)> {
    s.menu_items()
        .into_iter()
        .map(|item| match item {
            MenuItem::Entry { id, label, checked } => (id, label, checked),
            MenuItem::Separator => (0, "-".to_string(), false),
        })
        .collect()
}

fn line(id: usize, label: &str, checked: bool) -> (usize, String, bool) {
    (id, label.to_string(), checked)
}

const ONE: &str = "[Server:only]\nAlias=o\n";
const TWO: &str = "[Server:prod]\nAlias=p\n[Server:dev]\nAlias=d\nRemoteDir=/srv\n";

#[test]
fn the_first_server_is_active() {
    let s = session(TWO);
    assert_eq!(s.active_server().name, "prod");
    assert_eq!(s.servers().len(), 2);
    assert_eq!(s.servers()[1].alias, "d");
}

#[test]
fn choosing_a_server_makes_it_active() {
    let mut s = session(TWO);
    s.select(1);
    assert_eq!(s.active_server().remote_dir, "/srv");
    s.select(0);
    assert_eq!(s.active_server().name, "prod");
    assert_eq!(s.servers().len(), 2);
}

#[test]
fn one_server_offers_no_choice() {
    assert_eq!(
        lines(&session(ONE)),
        vec![
            line(101, "Paste clipboard", false),
            line(104, "Flush remote files", false),
            line(0, "-", false),
            line(102, "Show log", false),
            line(0, "-", false),
            line(103, "Exit", false),
        ]
    );
}

#[test]
fn servers_come_first_with_the_active_one_checked() {
    let mut s = session(TWO);
    s.select(1);
    let all = lines(&s);
    assert_eq!(
        all[..3],
        [line(200, "prod", false), line(201, "dev", true), line(0, "-", false)]
    );
    assert_eq!(all[3..], lines(&session(ONE)));
}

#[test]
fn commands_do_what_their_entries_say() {
    assert!(matches!(menu_command(101, 1), MenuCommand::Paste));
    assert!(matches!(menu_command(102, 1), MenuCommand::ShowLog));
    assert!(matches!(menu_command(103, 1), MenuCommand::Exit));
    assert!(matches!(menu_command(104, 1), MenuCommand::Flush));
    assert!(matches!(menu_command(200, 2), MenuCommand::Select(0)));
    assert!(matches!(menu_command(201, 2), MenuCommand::Select(1)));
}

#[test]
fn other_commands_do_nothing() {
    for cmd in [0, 1, 100, 105, 199, 202, usize::MAX] {
        assert!(matches!(menu_command(cmd, 2), MenuCommand::Nothing));
    }
}

#[test]
fn a_flush_asks_first() {
    let mut s = session(TWO);
    s.select(1);
    let prompt = s.ask_flush();
    assert_eq!(
        prompt.flush_question(),
        "Delete all files in d:/srv ?\n\nThis cannot be undone."
    );
    s.select(0);
    assert_eq!(prompt.answer(true).unwrap().name, "dev");
    assert!(s.ask_flush().answer(false).is_none());
}
