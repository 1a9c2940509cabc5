use cursor_drop::remote::{needs_home, resolve_remote_dir, HomeCache, Lookup, Output};
use cursor_drop::ssh::{run_scp, run_ssh, ssh_cmd};

fn resolve(dir: &str, home: Option<&str>) -> Option<String> {
    resolve_remote_dir(dir, &home.map(|h| h.to_string()))
}

fn printed(bytes: &[u8]) -> Option<Output> {
    Some(Output { success: true, stdout: bytes.to_vec() })
}

#[test]
fn the_options_of_every_call() {
    assert_eq!(ssh_cmd(), vec!["-o", "ConnectTimeout=30", "-o", "BatchMode=yes"]);
}

#[test]
fn a_remote_command() {
    assert_eq!(
        run_ssh("box", "ls -l"),
        vec!["-o", "ConnectTimeout=30", "-o", "BatchMode=yes", "box", "ls -l"]
    );
}

#[test]
fn a_copy_target_is_not_quoted() {
    assert_eq!(run_scp("box", "/a b/c"), "box:/a b/c");
}

#[test]
fn an_absolute_directory_is_used_as_it_is() {
    for home in [None, Some("/home/u")] {
        assert_eq!(resolve("/srv/up", home), Some("/srv/up".to_string()));
        assert_eq!(resolve("/srv/up//", home), Some("/srv/up".to_string()));
        assert_eq!(resolve("/", home), Some("/".to_string()));
        assert_eq!(resolve("///", home), Some("/".to_string()));
        assert_eq!(resolve("/.", home), Some("/.".to_string()));
    }
}

#[test]
fn a_tilde_is_the_home() {
    let home = Some("/home/ubuntu");
    assert_eq!(
        resolve("~/.cursor-drop-files", home),
        Some("/home/ubuntu/.cursor-drop-files".to_string())
    );
    assert_eq!(resolve("~", home), Some("/home/ubuntu".to_string()));
    assert_eq!(resolve("~//x/", home), Some("/home/ubuntu/x/".to_string()));
    assert_eq!(resolve("~~x", home), Some("/home/ubuntu/x".to_string()));
    assert_eq!(resolve("up/loads", home), Some("/home/ubuntu/up/loads".to_string()));
    assert_eq!(resolve("", home), Some("/home/ubuntu".to_string()));
}

#[test]
fn slashes_at_the_end_of_the_home_go() {
    assert_eq!(resolve("~/x", Some("/home/u//")), Some("/home/u/x".to_string()));
    assert_eq!(resolve("~", Some("/home/u//")), Some("/home/u".to_string()));
    assert_eq!(resolve("~/x", Some("/")), Some("/x".to_string()));
    assert_eq!(resolve("~", Some("/")), Some("/".to_string()));
}

#[test]
fn without_a_home_a_tilde_leads_nowhere() {
    assert_eq!(resolve("~/x", None), None);
    assert_eq!(resolve("x", None), None);
    assert!(needs_home("~/x") && needs_home("") && !needs_home("/x"));
}

#[test]
fn a_home_is_asked_for_once() {
    let mut cache = HomeCache::new();
    match cache.look_up("box") {
        Lookup::Ask(args) => assert_eq!(args, run_ssh("box", "echo $HOME")),
        Lookup::Known(_) => panic!("nobody was asked"),
    }
    let told = cache.remote_home("box", &printed(b"/home/u\n"));
    assert_eq!(told, Some("/home/u".to_string()));
    match cache.look_up("box") {
        Lookup::Known(home) => assert_eq!(home, "/home/u"),
        Lookup::Ask(_) => panic!("asked again"),
    }
    assert!(matches!(cache.look_up("other"), Lookup::Ask(_)));
}

#[test]
fn each_host_has_its_own_home() {
    let mut cache = HomeCache::new();
    cache.remote_home("a", &printed(b"/a"));
    cache.remote_home("b", &printed(b"/b"));
    cache.remote_home("a", &printed(b"/c"));
    assert_eq!(cache.get("a"), Some("/c".to_string()));
    assert_eq!(cache.get("b"), Some("/b".to_string()));
    assert_eq!(cache.get("A"), None);
}

#[test]
fn a_failed_question_is_not_remembered() {
    let mut cache = HomeCache::new();
    assert_eq!(cache.remote_home("a", &None), None);
    let failed = Some(Output { success: false, stdout: b"/a".to_vec() });
    assert_eq!(cache.remote_home("a", &failed), None);
    assert_eq!(cache.remote_home("a", &printed(b"")), None);
    assert_eq!(cache.remote_home("a", &printed(b" \r\n")), None);
    assert_eq!(cache.get("a"), None);
}

#[test]
fn what_a_host_prints_is_trimmed_and_repaired() {
    let mut cache = HomeCache::new();
    assert_eq!(
        cache.remote_home("a", &printed(b"\t/home/u \r\n")),
        Some("/home/u".to_string())
    );
    assert_eq!(
        cache.remote_home("a", &printed("/집/é\n".as_bytes())),
        Some("/집/é".to_string())
    );
    assert_eq!(
        cache.remote_home("a", &printed(b"/home/\xff\xc3(\n")),
        Some("/home/\u{fffd}\u{fffd}(".to_string())
    );
}
