use dsorter::config::{Config, ExtensionGroup};
use dsorter::daemon::run::Daemon;
use dsorter::daemon::{Effect, EventKind, Input, Output, Received, Request};
use dsorter::error::ConfigError;
use std::path::PathBuf;

fn path(text: &str) -> PathBuf {
    PathBuf::from(text)
}

fn read_as<T: serde::de::DeserializeOwned>(_: T, json: &str) -> T {
    serde_json::from_str(json).unwrap()
}

/// The path with the given bytes.
fn bytes(raw: &[u8]) -> PathBuf {
    let json = format!("{{\"Unix\":{raw:?}}}");
    PathBuf::from(read_as(PathBuf::new().into_os_string(), &json))
}

/// A daemon of the user whose home directory is `/home/u`.
fn start(config: Config, dry_run: bool) -> (Daemon, Output) {
    Daemon::start_in(config, dry_run, 42, 1000, Some(&path("/home/u")))
        .unwrap_or_else(|| panic!("no daemon"))
}

fn step(d: Daemon, input: Input) -> (Daemon, Output) {
    d.step_in(input, Some(&path("/home/u")))
}

fn config(watch: &str, image_dir: &str) -> Config {
    Config::new(
        watch.to_string(),
        vec![
            ("image".to_string(), image_dir.to_string()),
            ("other".to_string(), "/other".to_string()),
        ],
        vec![
            ExtensionGroup {
                key: "image".to_string(),
                extensions: vec!["jpg".to_string(), "PNG".to_string()],
            },
            ExtensionGroup { key: "doc".to_string(), extensions: vec!["pdf".to_string()] },
        ],
        vec!["Part".to_string()],
    )
}

fn logs(out: &Output) -> Vec<String> {
    let mut lines = Vec::new();
    for effect in &out.effects {
        if let Effect::Log(line) = effect {
            lines.push(line.clone());
        }
    }
    lines
}

/// A daemon that waits for its flags.
fn polling(dry_run: bool) -> Daemon {
    let (d, _) = start(config("~/Downloads", "~/Pictures"), dry_run);
    let (d, _) = step(d, Input::WatcherCreated(None));
    let (d, out) = step(d, Input::Watched(None));
    assert!(matches!(out.request, Request::ReadFlags));
    d
}

fn receiving(d: Daemon) -> Daemon {
    let (d, out) = step(d, Input::Flags { stop: false, reload: false });
    assert!(matches!(out.request, Request::Receive));
    d
}

/// Lets a file appear in the watched folder.
fn appear(d: Daemon, file: &str) -> (Daemon, Output) {
    let d = receiving(d);
    let event = Received::Event {
        kind: EventKind::Create,
        paths: vec![path(file)],
    };
    let (d, out) = step(d, Input::Received(event));
    match out.request {
        Request::Inspect(p) => assert_eq!(p, path(file)),
        _ => panic!("expected a look at the file"),
    }
    step(d, Input::Inspected { exists: true, is_dir: false })
}

#[test]
fn start_writes_the_status_and_watches() {
    let (d, out) = start(config("~/Downloads", "/p"), false);
    assert_eq!(out.effects.len(), 1);
    match &out.effects[0] {
        Effect::WriteStatus(s) => {
            assert_eq!(s.watching, "/home/u/Downloads");
            assert_eq!((s.pid, s.started_at, s.files_sorted), (42, 1000, 0));
            assert_eq!(s.last_action, None);
        }
        _ => panic!("expected the status"),
    }
    assert!(matches!(out.request, Request::CreateWatcher));
    let (_, out) = step(d, Input::WatcherCreated(None));
    match out.request {
        Request::Watch(p) => assert_eq!(p, path("/home/u/Downloads")),
        _ => panic!("expected to watch"),
    }
}

#[test]
fn start_needs_a_home_directory_for_a_tilde() {
    assert!(Daemon::start_in(config("~/Downloads", "/p"), false, 1, 1, None).is_none());
    assert!(Daemon::start_in(config("/w", "/p"), false, 1, 1, None).is_some());
    assert!(Daemon::start(config("/w", "/p"), false, 1, 1).is_some());
}

#[test]
fn start_fails_without_a_watcher() {
    let fresh = || start(config("/w", "/p"), false).0;
    let (_, out) = step(fresh(), Input::WatcherCreated(Some("no inotify".to_string())));
    assert_eq!(logs(&out), vec!["failed to create watcher: no inotify"]);
    assert!(matches!(out.request, Request::Exit { success: false }));
    let (d, _) = step(fresh(), Input::WatcherCreated(None));
    let (_, out) = step(d, Input::Watched(Some("not found".to_string())));
    assert_eq!(logs(&out), vec!["failed to watch /w: not found"]);
    assert!(matches!(out.request, Request::Exit { success: false }));
}

#[test]
fn new_image_is_moved_and_counted() {
    let (d, out) = appear(polling(false), "/home/u/Downloads/Cat.JPG");
    assert_eq!(logs(&out), vec!["Cat.JPG -> Image"]);
    match out.request {
        Request::Move { path: p, dest_dir } => {
            assert_eq!(p, path("/home/u/Downloads/Cat.JPG"));
            assert_eq!(dest_dir, path("/home/u/Pictures"));
        }
        _ => panic!("expected a move"),
    }
    let (d, out) = step(d, Input::Moved(None));
    assert_eq!(logs(&out), vec!["moved Cat.JPG -> /home/u/Pictures"]);
    match &out.effects[1] {
        Effect::WriteStatus(s) => {
            assert_eq!(s.files_sorted, 1);
            assert_eq!(s.last_action.as_deref(), Some("moved Cat.JPG -> /home/u/Pictures"));
        }
        _ => panic!("expected the status"),
    }
    assert!(matches!(out.request, Request::ReadFlags));
    let (d, _) = appear(d, "/home/u/Downloads/b.png");
    let (_, out) = step(d, Input::Moved(None));
    match &out.effects[1] {
        Effect::WriteStatus(s) => assert_eq!(s.files_sorted, 2),
        _ => panic!("expected the status"),
    }
}

#[test]
fn finished_download_is_sorted_under_its_new_name() {
    let (d, _) = start(config("/w", "/dst/img"), false);
    let (d, _) = step(d, Input::WatcherCreated(None));
    let (d, _) = step(d, Input::Watched(None));
    let event = Received::Event {
        kind: EventKind::Rename,
        paths: vec![path("/w/a.png.part"), path("/w/a.png")],
    };
    let (d, out) = step(receiving(d), Input::Received(event));
    match out.request {
        Request::Inspect(p) => assert_eq!(p, path("/w/a.png")),
        _ => panic!("expected a look at the file"),
    }
    let (d, out) = step(d, Input::Inspected { exists: true, is_dir: false });
    match out.request {
        Request::Move { path: p, dest_dir } => {
            assert_eq!((p, dest_dir), (path("/w/a.png"), path("/dst/img")));
        }
        _ => panic!("expected a move"),
    }
    let (_, out) = step(d, Input::Moved(None));
    assert_eq!(logs(&out), vec!["moved a.png -> /dst/img"]);
    match &out.effects[1] {
        Effect::WriteStatus(s) => {
            assert_eq!(s.files_sorted, 1);
            assert_eq!(s.last_action.as_deref(), Some("moved a.png -> /dst/img"));
        }
        _ => panic!("expected the status"),
    }
}

#[test]
fn failed_move_is_only_logged() {
    let (d, _) = appear(polling(false), "/home/u/Downloads/a.jpg");
    let (_, out) = step(d, Input::Moved(Some("denied".to_string())));
    assert_eq!(logs(&out), vec!["failed to move a.jpg: denied"]);
    assert_eq!(out.effects.len(), 1);
    assert!(matches!(out.request, Request::ReadFlags));
}

#[test]
fn dry_run_only_logs() {
    let (_, out) = appear(polling(true), "/home/u/Downloads/a.jpg");
    assert_eq!(
        logs(&out),
        vec!["a.jpg -> Image", "[dry-run] would move a.jpg -> /home/u/Pictures"]
    );
    assert!(matches!(out.request, Request::ReadFlags));
}

#[test]
fn partial_downloads_are_left_alone() {
    for name in ["/d/a.part", "/d/a.PART", "/d/a.jpg.pArT"] {
        let (_, out) = appear(polling(false), name);
        assert!(out.effects.is_empty());
        assert!(matches!(out.request, Request::ReadFlags));
    }
}

#[test]
fn file_of_a_category_without_a_folder_stays() {
    let (_, out) = appear(polling(false), "/d/paper.pdf");
    assert_eq!(logs(&out), vec!["paper.pdf -> Doc"]);
    assert!(matches!(out.request, Request::ReadFlags));
}

#[test]
fn file_without_a_known_extension_is_other() {
    for (file, line) in [("/d/README", "README -> Other"), ("/d/.jpg", ".jpg -> Other")] {
        let (_, out) = appear(polling(false), file);
        assert_eq!(logs(&out), vec![line]);
        match out.request {
            Request::Move { path: _, dest_dir } => assert_eq!(dest_dir, path("/other")),
            _ => panic!("expected a move"),
        }
    }
}

#[test]
fn extension_that_is_no_text_is_no_extension() {
    for (raw, line) in [
        (&b"/d/a.jpg\xff"[..], "a.jpg\u{fffd} -> Other"),
        (&b"/d/a\xff.jpg"[..], "a\u{fffd}.jpg -> Image"),
    ] {
        let event = Received::Event { kind: EventKind::Rename, paths: vec![bytes(raw)] };
        let (d, out) = step(receiving(polling(false)), Input::Received(event));
        assert!(matches!(out.request, Request::Inspect(p) if p == bytes(raw)));
        let (_, out) = step(d, Input::Inspected { exists: true, is_dir: false });
        assert_eq!(logs(&out), vec![line]);
        assert!(matches!(out.request, Request::Move { path: p, dest_dir: _ } if p == bytes(raw)));
    }
}

#[test]
fn home_directory_that_is_no_text_is_used_as_it_is() {
    let home = bytes(b"/home/\xff");
    let (d, out) = Daemon::start_in(config("~/in", "~/p"), false, 1, 1, Some(&home))
        .unwrap_or_else(|| panic!("no daemon"));
    match &out.effects[0] {
        Effect::WriteStatus(s) => assert_eq!(s.watching, "/home/\u{fffd}/in"),
        _ => panic!("expected the status"),
    }
    let (d, out) = d.step_in(Input::WatcherCreated(None), Some(&home));
    assert!(matches!(out.request, Request::Watch(p) if p == bytes(b"/home/\xff/in")));
    let (d, _) = d.step_in(Input::Watched(None), Some(&home));
    let event = Received::Event {
        kind: EventKind::Create,
        paths: vec![bytes(b"/home/\xff/in/a.jpg")],
    };
    let (d, _) = receiving(d).step_in(Input::Received(event), Some(&home));
    let (d, out) = d.step_in(Input::Inspected { exists: true, is_dir: false }, Some(&home));
    match out.request {
        Request::Move { path: p, dest_dir } => {
            assert_eq!(p, bytes(b"/home/\xff/in/a.jpg"));
            assert_eq!(dest_dir, bytes(b"/home/\xff/p"));
        }
        _ => panic!("expected a move"),
    }
    let (_, out) = d.step_in(Input::Moved(None), Some(&home));
    assert_eq!(logs(&out), vec!["moved a.jpg -> /home/\u{fffd}/p"]);
}

#[test]
fn missing_home_directory_is_fatal_where_it_is_needed() {
    let d = receiving(polling(false));
    let event = Received::Event {
        kind: EventKind::Create,
        paths: vec![path("/d/a.jpg")],
    };
    let (d, _) = d.step_in(Input::Received(event), None);
    let (_, out) = d.step_in(Input::Inspected { exists: true, is_dir: false }, None);
    assert_eq!(logs(&out), vec!["a.jpg -> Image"]);
    match out.request {
        Request::Fail(message) => assert_eq!(message, "could not determine home directory"),
        _ => panic!("expected a failure"),
    }
}

#[test]
fn folders_and_vanished_files_are_passed_over() {
    for (exists, is_dir) in [(false, false), (true, true)] {
        let d = receiving(polling(false));
        let event = Received::Event {
            kind: EventKind::Create,
            paths: vec![path("/d/a.jpg")],
        };
        let (d, _) = step(d, Input::Received(event));
        let (_, out) = step(d, Input::Inspected { exists, is_dir });
        assert!(out.effects.is_empty());
        assert!(matches!(out.request, Request::ReadFlags));
    }
}

#[test]
fn other_events_are_passed_over() {
    let paths = || vec![path("/d/a.jpg")];
    let silent = [
        Received::Timeout,
        Received::Event { kind: EventKind::Other, paths: paths() },
        Received::Event { kind: EventKind::Create, paths: Vec::new() },
    ];
    for received in silent {
        let (_, out) = step(receiving(polling(false)), Input::Received(received));
        assert!(out.effects.is_empty());
        assert!(matches!(out.request, Request::ReadFlags));
    }
    let error = Received::Error("overflow".to_string());
    let (_, out) = step(receiving(polling(false)), Input::Received(error));
    assert_eq!(logs(&out), vec!["watch error: overflow"]);
    assert!(matches!(out.request, Request::ReadFlags));
}

#[test]
fn lost_watcher_ends_the_daemon() {
    let (_, out) = step(receiving(polling(false)), Input::Received(Received::Disconnected));
    assert_eq!(logs(&out), vec!["watcher channel disconnected, shutting down"]);
    assert_eq!(out.effects.len(), 1);
    assert!(matches!(out.request, Request::Exit { success: true }));
}

#[test]
fn stop_comes_before_reload_and_is_final() {
    let (d, out) = step(polling(false), Input::Flags { stop: true, reload: true });
    assert_eq!(logs(&out), vec!["dsorter received stop signal, shutting down"]);
    assert!(matches!(out.effects[1], Effect::RemovePidFile));
    assert!(matches!(out.request, Request::Exit { success: true }));
    let (_, out) = step(d, Input::Flags { stop: false, reload: true });
    assert!(out.effects.is_empty());
    assert!(matches!(out.request, Request::Exit { success: true }));
}

fn loading() -> Daemon {
    let (d, out) = step(polling(false), Input::Flags { stop: false, reload: true });
    assert!(matches!(out.request, Request::LoadConfig));
    d
}

#[test]
fn failed_reload_keeps_the_old_config() {
    let e = ConfigError::Parse("bad toml".to_string());
    let (d, out) = step(loading(), Input::Loaded(Err(e)));
    assert_eq!(logs(&out), vec!["reload failed, keeping old config: bad toml"]);
    assert!(matches!(out.request, Request::Receive));
    let (d, _) = step(d, Input::Received(Received::Timeout));
    let (_, out) = appear(d, "/d/a.jpg");
    match out.request {
        Request::Move { path: _, dest_dir } => assert_eq!(dest_dir, path("/home/u/Pictures")),
        _ => panic!("expected a move"),
    }
}

#[test]
fn reload_takes_effect_at_once() {
    let (d, out) = step(loading(), Input::Loaded(Ok(config("~/Downloads/", "/new"))));
    assert_eq!(logs(&out), vec!["config reloaded"]);
    assert!(matches!(out.request, Request::Receive));
    let (d, _) = step(d, Input::Received(Received::Timeout));
    let (_, out) = appear(d, "/d/a.jpg");
    match out.request {
        Request::Move { path: _, dest_dir } => assert_eq!(dest_dir, path("/new")),
        _ => panic!("expected a move"),
    }
}

#[test]
fn reload_changes_the_watched_folder() {
    let (d, out) = step(loading(), Input::Loaded(Ok(config("/inbox", "/new"))));
    match out.request {
        Request::Unwatch(p) => assert_eq!(p, path("/home/u/Downloads")),
        _ => panic!("expected to let go of the old folder"),
    }
    let (d, out) = step(d, Input::Unwatched(Some("gone".to_string())));
    assert_eq!(logs(&out), vec!["failed to unwatch /home/u/Downloads: gone"]);
    match out.request {
        Request::Watch(p) => assert_eq!(p, path("/inbox")),
        _ => panic!("expected to watch the new folder"),
    }
    let (_, out) = step(d, Input::Watched(None));
    assert_eq!(logs(&out), vec!["now watching /inbox", "config reloaded"]);
    match &out.effects[1] {
        Effect::WriteStatus(s) => assert_eq!(s.watching, "/inbox"),
        _ => panic!("expected the status"),
    }
}

#[test]
fn refused_folder_is_reverted() {
    let (d, _) = step(loading(), Input::Loaded(Ok(config("/inbox", "/new"))));
    let (d, out) = step(d, Input::Unwatched(None));
    assert!(out.effects.is_empty());
    let (d, out) = step(d, Input::Watched(Some("missing".to_string())));
    assert_eq!(
        logs(&out),
        vec!["failed to watch /inbox: missing — reverting", "config reloaded"]
    );
    match &out.effects[1] {
        Effect::Rewatch(p) => assert_eq!(*p, path("/home/u/Downloads")),
        _ => panic!("expected to watch the old folder"),
    }
    let (d, _) = step(d, Input::Received(Received::Timeout));
    let (_, out) = appear(d, "/d/a.jpg");
    match out.request {
        Request::Move { path: _, dest_dir } => assert_eq!(dest_dir, path("/new")),
        _ => panic!("expected a move"),
    }
}

#[test]
fn answer_to_another_request_changes_nothing() {
    let (d, out) = step(polling(false), Input::Moved(None));
    assert!(out.effects.is_empty());
    assert!(matches!(out.request, Request::ReadFlags));
    let (_, out) = d.step(Input::Flags { stop: false, reload: false });
    assert!(matches!(out.request, Request::Receive));
}

#[test]
fn flags_are_read_after_six_answers_at_most() {
    let e = || Some("no".to_string());
    let event = Received::Event {
        kind: EventKind::Rename,
        paths: vec![path("/d/a.jpg")],
    };
    let answers = [
        Input::Loaded(Ok(config("/inbox", "/new"))),
        Input::Unwatched(e()),
        Input::Watched(e()),
        Input::Received(event),
        Input::Inspected { exists: true, is_dir: false },
        Input::Moved(e()),
    ];
    let mut d = loading();
    let mut last = None;
    for answer in answers {
        assert!(!matches!(last, Some(Request::ReadFlags)));
        let (next, out) = step(d, answer);
        d = next;
        last = Some(out.request);
    }
    assert!(matches!(last, Some(Request::ReadFlags)));
}
