use cursor_drop::config::{
    load, parse, writes_default, FileRead, Server, DEFAULT_INI, DEFAULT_REMOTE_DIR,
};

fn text(s: &str) -> FileRead {
    FileRead::Text(s.to_string())
}

fn fields(s: &Server) -> (&str, &str, &str) {
    (s.name.as_str(), s.alias.as_str(), s.remote_dir.as_str())
}

#[test]
fn parses_multiple_servers_in_order() {
    let ini = "\
[Server:prod]
Alias=myserver
RemoteDir=~/.cursor-drop-files

[Server:dev]
Alias=devbox
RemoteDir=~/uploads
";
    let s = parse(ini);
    assert_eq!(s.len(), 2);
    assert_eq!(s[0].name, "prod");
    assert_eq!(s[0].alias, "myserver");
    assert_eq!(s[0].remote_dir, "~/.cursor-drop-files");
    assert_eq!(s[1].name, "dev");
    assert_eq!(s[1].alias, "devbox");
    assert_eq!(s[1].remote_dir, "~/uploads");
}

#[test]
fn remote_dir_defaults_when_omitted() {
    let s = parse("[Server:x]\nAlias=h\n");
    assert_eq!(s.len(), 1);
    assert_eq!(s[0].remote_dir, DEFAULT_REMOTE_DIR);
}

#[test]
fn server_without_alias_is_dropped() {
    let s = parse("[Server:x]\nRemoteDir=~/foo\n");
    assert!(s.is_empty());
}

#[test]
fn default_ini_has_one_server() {
    let s = parse(DEFAULT_INI);
    assert_eq!(s.len(), 1);
    assert_eq!(s[0].name, "prod");
    assert_eq!(s[0].remote_dir, DEFAULT_REMOTE_DIR);
}

#[test]
fn empty_or_garbage_yields_no_servers() {
    assert!(parse("").is_empty());
    assert!(parse("; just a comment\n[Other]\nkey=val\n").is_empty());
    // The legacy [Remote] section is no longer recognized.
    assert!(parse("[Remote]\nAlias=myserver\n").is_empty());
}

#[test]
fn comments_and_blank_lines_ignored() {
    let ini = "\
; header comment
[Server:a]
# hash comment
Alias=ha

;[Server:commented]
;Alias=nope
";
    let s = parse(ini);
    assert_eq!(s.len(), 1);
    assert_eq!(s[0].name, "a");
    assert_eq!(s[0].alias, "ha");
}

#[test]
fn keys_match_in_any_case_and_values_are_trimmed() {
    let s = parse("  [ Server:  my box ]\r\n\tALIAS =  h \r\nremotedir=\u{a0}/srv/x\u{3000}\r\n");
    assert_eq!(s.len(), 1);
    assert_eq!(fields(&s[0]), ("my box", "h", "/srv/x"));
}

#[test]
fn the_last_value_counts_and_empty_ones_do_not() {
    let s = parse("[Server:x]\nAlias=a\nAlias=b\nAlias=\nRemoteDir=/1\nRemoteDir = /2=3\n");
    assert_eq!(s.len(), 1);
    assert_eq!(fields(&s[0]), ("x", "b", "/2=3"));
}

#[test]
fn another_section_ends_a_server() {
    let s = parse("[Server:x]\nAlias=a\n[Other]\nAlias=b\n[Server:]\nAlias=c\n[server:y]\nAlias=d");
    assert_eq!(s.len(), 1);
    assert_eq!(fields(&s[0]), ("x", "a", DEFAULT_REMOTE_DIR));
}

#[test]
fn half_a_header_is_no_header() {
    let s = parse("[Server:x]\n[\nAlias=a\n[Server:y\nnonsense\n[]\nAlias=b\n");
    assert_eq!(s.len(), 1);
    assert_eq!(fields(&s[0]), ("x", "a", DEFAULT_REMOTE_DIR));
}

#[test]
fn keys_before_any_section_are_ignored() {
    let s = parse("Alias=early\n[Server:x]\nAlias=a\n");
    assert_eq!(s.len(), 1);
    assert_eq!(fields(&s[0]), ("x", "a", DEFAULT_REMOTE_DIR));
}

#[test]
fn sections_of_joined_texts_append() {
    let a = "[Server:x]\nAlias=a";
    let b = "[Server:y]\nAlias=b\nRemoteDir=/b";
    let joined = format!("{}\n{}", a, b);
    let s = parse(&joined);
    assert_eq!(s.len(), 2);
    assert_eq!(fields(&s[0]), fields(&parse(a)[0]));
    assert_eq!(fields(&s[1]), fields(&parse(b)[0]));
}

#[test]
fn load_takes_what_the_file_describes() {
    let s = load(&text("[Server:x]\nAlias=a\n"));
    assert_eq!(s.len(), 1);
    assert_eq!(fields(&s[0]), ("x", "a", "~/.cursor-drop-files"));
}

#[test]
fn load_falls_back_to_the_default() {
    for read in [FileRead::Missing, FileRead::Unreadable, text(""), text("[Other]\nAlias=z\n")] {
        let s = load(&read);
        assert_eq!(s.len(), 1);
        assert_eq!(fields(&s[0]), ("prod", "myserver", "~/.cursor-drop-files"));
    }
}

#[test]
fn a_clone_says_the_same() {
    let s = parse("[Server:x]\nAlias=a\nRemoteDir=/d\n");
    assert_eq!(fields(&s[0].clone()), ("x", "a", "/d"));
}

#[test]
fn the_default_file_is_written_on_the_first_run_alone() {
    assert!(writes_default(&FileRead::Missing));
    assert!(!writes_default(&FileRead::Unreadable));
    assert!(!writes_default(&text("")));
}

#[test]
fn ignored_lines_change_nothing_wherever_they_stand() {
    let plain = "[Server:x]\nAlias=a\nRemoteDir=/d";
    for line in ["", "  ", "; Alias=z", "\t# [Server:y]", "\u{3000};"] {
        for at in 0..=3 {
            let mut lines: Vec<&str> = plain.lines().collect();
            lines.insert(at, line);
            let s = parse(&lines.join("\n"));
            assert_eq!(s.len(), 1);
            assert_eq!(fields(&s[0]), ("x", "a", "/d"));
        }
    }
}
