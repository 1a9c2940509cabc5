use cursor_drop::busy::{self, Busy};
use cursor_drop::config::Server;
use cursor_drop::sys::LocalTime;
use cursor_drop::ui::{Notice, Progress, StateKind};
use cursor_drop::upload::{
    clipboard_payload, remote_files, remote_setup, run, Event, LocalFile, Picked, Request,
};

const T: LocalTime = LocalTime { year: 2026, month: 6, day: 18, hour: 14, minute: 30, second: 5 };

fn server(remote_dir: &str) -> Server {
    Server {
        name: "prod".to_string(),
        alias: "box".to_string(),
        remote_dir: remote_dir.to_string(),
    }
}

fn file(name: &str) -> LocalFile {
    LocalFile { name: Some(name.to_string()), exists: true }
}

fn strings(v: &[&str]) -> Vec<String> {
    v.iter().map(|s| s.to_string()).collect()
}

fn kind(k: StateKind) -> &'static str {
    match k {
        StateKind::Idle => "idle",
        StateKind::Uploading => "uploading",
        StateKind::Success => "success",
        StateKind::Error => "error",
    }
}

fn said(n: &Option<Notice>) -> String {
    match n {
        Some(n) => format!("{}|{}|{}", kind(n.kind), n.title, n.sub),
        None => String::new(),
    }
}

fn bar(p: &Option<Progress>) -> String {
    match p {
        Some(p) => format!("[{}/{}]", p.done, p.total),
        None => String::new(),
    }
}

/// Everything that an upload asks for and shows, when the calls come out as told.
fn trace(
    files: Vec<LocalFile>,
    dir: &str,
    home: Option<&str>,
    clipboard: bool,
    ssh: bool,
    copied: &[bool],
) -> Vec<String> {
    let mut out = Vec::new();
    let mut results = copied.iter();
    let (mut upload, mut step) = run(files, &server(dir));
    loop {
        let shown = format!("{}{}", bar(&step.progress), said(&step.notice));
        if shown != "" {
            out.push(shown);
        }
        let (asked, event) = match step.request {
            Request::Home => ("home".to_string(), Event::Home(home.map(|h| h.to_string()))),
            Request::Clock => ("clock".to_string(), Event::Clock(T)),
            Request::Clipboard(text) => (format!("clip {}", text), Event::Clipboard(clipboard)),
            Request::Ssh(cmd) => (format!("ssh {}", cmd), Event::Ssh(ssh)),
            Request::Scp { source, remote } => (
                format!("scp {} {}", source, remote),
                Event::Scp(*results.next().unwrap()),
            ),
            Request::Done(ok) => {
                out.push(format!("done {}", ok));
                assert!(results.next().is_none());
                return out;
            }
        };
        out.push(asked);
        (upload, step) = upload.step(event);
    }
}

#[test]
fn a_whole_upload() {
    let files = vec![
        file("my pic.png"),
        LocalFile { name: Some("gone".to_string()), exists: false },
        LocalFile { name: None, exists: true },
    ];
    assert_eq!(
        trace(files, "~/up", Some("/home/u"), true, true, &[true, true]),
        strings(&[
            "home",
            "clock",
            "clip '/home/u/up/20260618-143005-0-my_pic.png' '/home/u/up/20260618-143005-1-file'",
            "ssh mkdir -p \"/home/u/up\" && touch \"/home/u/up/20260618-143005-0-my_pic.png\" \"/home/u/up/20260618-143005-1-file\"",
            "uploading|Sending 1/2|my pic.png",
            "scp 0 /home/u/up/20260618-143005-0-my_pic.png",
            "[1/2]uploading|Sending 2/2|",
            "scp 2 /home/u/up/20260618-143005-1-file",
            "[2/2]success|Path copied|2 files · Ctrl+Shift+V",
            "done true",
        ])
    );
}

#[test]
fn an_absolute_directory_asks_for_no_home() {
    assert_eq!(
        trace(vec![file("a")], "/srv/", None, true, true, &[true]),
        strings(&[
            "clock",
            "clip '/srv/20260618-143005-0-a'",
            "ssh mkdir -p \"/srv\" && touch \"/srv/20260618-143005-0-a\"",
            "uploading|Sending 1/1|a",
            "scp 0 /srv/20260618-143005-0-a",
            "[1/1]success|Path copied|1 file · Ctrl+Shift+V",
            "done true",
        ])
    );
}

#[test]
fn the_root_gets_one_slash() {
    let t = trace(vec![file("a")], "/", None, true, true, &[true]);
    assert_eq!(
        t[1..5],
        strings(&[
            "clip '/20260618-143005-0-a'",
            "ssh mkdir -p \"/\" && touch \"/20260618-143005-0-a\"",
            "uploading|Sending 1/1|a",
            "scp 0 /20260618-143005-0-a",
        ])
    );
}

#[test]
fn no_files() {
    let gone = vec![LocalFile { name: Some("x".to_string()), exists: false }];
    for files in [vec![], gone] {
        assert_eq!(
            trace(files, "/srv", None, true, true, &[]),
            strings(&["error|No files|Nothing readable in that drop", "done false"])
        );
    }
}

#[test]
fn an_unknown_home_ends_an_upload() {
    assert_eq!(
        trace(vec![file("a")], "~", None, true, true, &[]),
        strings(&["home", "error|Host unreachable|box", "done false"])
    );
}

#[test]
fn a_busy_clipboard_ends_an_upload() {
    assert_eq!(
        trace(vec![file("a")], "/d", None, false, true, &[]),
        strings(&[
            "clock",
            "clip '/d/20260618-143005-0-a'",
            "error|Clipboard is busy|Nothing was sent",
            "done false",
        ])
    );
}

#[test]
fn a_failed_setup_ends_an_upload() {
    let t = trace(vec![file("a")], "/d", None, true, false, &[]);
    assert_eq!(t[3..], strings(&["error|Remote setup failed|box", "done false"]));
}

#[test]
fn files_that_fail_are_counted() {
    let files = vec![file("a"), file("b"), file("c")];
    let t = trace(files, "/d", None, true, true, &[false, true, false]);
    assert_eq!(
        t[3..],
        strings(&[
            "uploading|Sending 1/3|a",
            "scp 0 /d/20260618-143005-0-a",
            "uploading|Sending 2/3|b",
            "scp 1 /d/20260618-143005-1-b",
            "[2/3]uploading|Sending 3/3|c",
            "scp 2 /d/20260618-143005-2-c",
            "error|2 of 3 failed|See the log",
            "done false",
        ])
    );
}

#[test]
fn success_needs_every_file() {
    for results in [[true, true], [true, false], [false, true], [false, false]] {
        let t = trace(vec![file("a"), file("b")], "/d", None, true, true, &results);
        let all = results[0] && results[1];
        assert_eq!(t[t.len() - 1], format!("done {}", all));
    }
}

#[test]
fn files_of_one_name_get_different_paths() {
    let files: Vec<Picked> = (0..12)
        .map(|i| Picked { source: i, name: Some("a".to_string()) })
        .collect();
    let paths = remote_files("/d", &T, &files);
    assert_eq!(paths[0], "/d/20260618-143005-0-a");
    assert_eq!(paths[11], "/d/20260618-143005-11-a");
    for i in 0..12 {
        for j in 0..i {
            assert_ne!(paths[i], paths[j]);
        }
    }
}

#[test]
fn batches_of_different_seconds_share_no_path() {
    let files = vec![Picked { source: 0, name: Some("a".to_string()) }];
    let later = LocalTime { second: 6, ..T };
    assert_eq!(remote_files("/d", &later, &files), strings(&["/d/20260618-143006-0-a"]));
    assert_ne!(remote_files("/d", &T, &files), remote_files("/d", &later, &files));
}

#[test]
fn names_are_made_safe() {
    let files = vec![Picked { source: 0, name: Some("a 'b'/$c`.txt".to_string()) }];
    assert_eq!(remote_files("/d", &T, &files), strings(&["/d/20260618-143005-0-a_bc.txt"]));
}

#[test]
fn paths_are_pasted_in_single_quotes() {
    assert_eq!(clipboard_payload(&vec![]), "");
    assert_eq!(clipboard_payload(&strings(&["/a b"])), "'/a b'");
    assert_eq!(clipboard_payload(&strings(&["/a", "/b", "/c"])), "'/a' '/b' '/c'");
}

#[test]
fn the_setup_command_quotes_everything() {
    assert_eq!(
        remote_setup("/a \"b\"", &strings(&["/x", "/y z"])),
        "mkdir -p \"/a \\\"b\\\"\" && touch \"/x\" \"/y z\""
    );
    assert_eq!(remote_setup("/d", &vec![]), "mkdir -p \"/d\" && touch");
}

#[test]
fn one_transfer_at_a_time() {
    let mut flag = Busy::new();
    let first = busy::handle_files(&mut flag, &server("/d"));
    assert_eq!(said(&first), "uploading|Preparing|prod");
    assert!(busy::handle_files(&mut flag, &server("/d")).is_none());
    assert!(busy::flush(&mut flag, &server("/d")).is_none());
    flag.leave();
    let next = busy::flush(&mut flag, &server("/d"));
    assert_eq!(said(&next), "uploading|Clearing remote|prod");
    assert!(!flag.enter());
    flag.leave();
    assert!(flag.enter());
}
