use cursor_drop::config::Server;
use cursor_drop::flush::{remote_clear, run_flush, FlushEnd, FlushEvent, FlushRequest};
use cursor_drop::ui::StateKind;

/// Everything that a flush asks for and shows, when the calls come out as told.
fn trace(dir: &str, home: Option<&str>, ssh: bool) -> Vec<String> {
    let server = Server {
        name: "prod".to_string(),
        alias: "box".to_string(),
        remote_dir: dir.to_string(),
    };
    let mut out = Vec::new();
    let (mut flush, mut step) = run_flush(&server);
    loop {
        if let Some(n) = &step.notice {
            let kind = if n.kind == StateKind::Success { "ok" } else { "error" };
            assert!(n.kind == StateKind::Success || n.kind == StateKind::Error);
            out.push(format!("{}|{}|{}", kind, n.title, n.sub));
        }
        let (asked, event) = match step.request {
            FlushRequest::Home => {
                ("home".to_string(), FlushEvent::Home(home.map(|h| h.to_string())))
            }
            FlushRequest::Ssh(cmd) => (format!("ssh {}", cmd), FlushEvent::Ssh(ssh)),
            FlushRequest::Done(end) => {
                out.push(
                    match end {
                        FlushEnd::Cleared => "cleared",
                        FlushEnd::Failed => "failed",
                        FlushEnd::Unreachable => "unreachable",
                        FlushEnd::Refused => "refused",
                    }
                    .to_string(),
                );
                return out;
            }
        };
        out.push(asked);
        (flush, step) = flush.step(event);
    }
}

fn ssh(dir: &str) -> String {
    format!("ssh {}", remote_clear(dir))
}

fn refused(dir: &str) -> Vec<String> {
    vec![format!("error|Unsafe RemoteDir|{}", dir), "refused".to_string()]
}

#[test]
fn hidden_files_go_and_subdirectories_stay() {
    assert_eq!(
        remote_clear("/a \"b"),
        joined(&[
            "test ! \"/a \\\"b\" -ef /",
            "test ! \"/a \\\"b\" -ef \"$HOME\"",
            "(test ! -d \"/a \\\"b\" || find \"/a \\\"b\"/. ! -name . -prune ! -type d -exec rm -f {} +)",
        ])
    );
}

fn joined(words: &[&str]) -> String {
    words.join(" && ")
}

#[test]
fn a_directory_under_home_is_cleared() {
    assert_eq!(
        trace("~/up", Some("/home/u"), true),
        vec!["home", &ssh("/home/u/up"), "ok|Remote cleared|prod", "cleared"]
    );
}

#[test]
fn an_absolute_directory_is_cleared_even_without_a_home() {
    for home in [None, Some("/home/u")] {
        assert_eq!(
            trace("/srv/up/", home, true),
            vec!["home", &ssh("/srv/up"), "ok|Remote cleared|prod", "cleared"]
        );
    }
}

#[test]
fn a_failed_clear_is_reported() {
    assert_eq!(
        trace("/srv", None, false),
        vec!["home", &ssh("/srv"), "error|Clear failed|box", "failed"]
    );
}

#[test]
fn an_unknown_home_ends_a_flush() {
    assert_eq!(
        trace("~/up", None, true),
        vec!["home", "error|Host unreachable|box", "unreachable"]
    );
}

#[test]
fn the_root_is_refused_at_once() {
    assert_eq!(trace("/", Some("/home/u"), true), refused("/"));
    assert_eq!(trace("///", None, true), refused("/"));
    for dir in ["/.", "/./.", "//.", "/.//."] {
        assert_eq!(trace(dir, Some("/home/u"), true), refused(dir));
    }
}

#[test]
fn the_home_is_refused_however_it_is_named() {
    let spelled = [
        ("~", "/home/u"),
        ("~/", "/home/u"),
        ("~~//", "/home/u"),
        ("~/.", "/home/u/."),
        ("~/./", "/home/u/./"),
        ("/home/u", "/home/u"),
        ("/home/u/", "/home/u"),
        ("/home/./u", "/home/./u"),
        ("//home//u", "//home//u"),
    ];
    for home in ["/home/u", "/home/u/", "/home/u/."] {
        for (dir, shown) in spelled {
            let t = trace(dir, Some(home), true);
            assert_eq!(t[0], "home");
            if home != "/home/u/." || dir.starts_with('/') {
                assert_eq!(t[1..], refused(shown));
            } else {
                assert_eq!(t[2], "refused");
            }
        }
    }
}

#[test]
fn a_home_that_is_the_root_is_refused() {
    for dir in ["~", "~/"] {
        assert_eq!(trace(dir, Some("/"), true)[1..], refused("/"));
    }
    assert_eq!(trace("~/.", Some("/"), true)[1..], refused("/."));
}

#[test]
fn a_directory_of_fewer_than_two_bytes_is_refused() {
    assert_eq!(trace("~", Some("a/"), true)[1..], refused("a"));
    assert_eq!(trace("/a", None, false)[1], ssh("/a"));
}

#[test]
fn what_only_looks_like_the_home_is_cleared() {
    for dir in ["/home/u2", "/home", "/home/u/x", "/home/U", "/home/u/...", "/home/u/.x", "/home/u/link/.."] {
        assert_eq!(trace(dir, Some("/home/u"), true)[1], ssh(dir));
    }
}
