use dsorter::config::load::{ConfigLoad, LoadAnswer, LoadPhase, LoadRequest, LoadStep};
use dsorter::config::pid::{parse_pid, pid_is_alive, pid_path, pid_text, Probe};
use dsorter::config::status::status_path;
use dsorter::config::{
    config_location, config_path, data_file, destination_map, log_path, path_in, Config,
    ExtensionGroup, PartialConfig, WatchConfig, DEFAULT_CONFIG,
};
use dsorter::error::ConfigError;
use dsorter::types::{classify, destination_for, destination_in, Category, Destination};
use dsorter::utils::{build_extension_map, expand_tilde, expand_tilde_in};
use std::path::PathBuf;

fn path(text: &str) -> PathBuf {
    PathBuf::from(text)
}

fn read_as<T: serde::de::DeserializeOwned>(_: T, json: &str) -> T {
    serde_json::from_str(json).unwrap()
}

/// The path with the given bytes.
fn bytes(raw: &[u8]) -> PathBuf {
    let json = format!("{{\"Unix\":{raw:?}}}");
    PathBuf::from(read_as(PathBuf::new().into_os_string(), &json))
}

fn strings(list: &toml::Value) -> Vec<String> {
    list.as_array().unwrap().iter().map(|v| v.as_str().unwrap().to_string()).collect()
}

fn read(text: &str) -> Config {
    let value: toml::Value = toml::from_str(text).unwrap();
    let mut folders = Vec::new();
    for (key, path) in value["destinations"].as_table().unwrap() {
        folders.push((key.clone(), path.as_str().unwrap().to_string()));
    }
    let destinations = destination_map(folders);
    let mut extensions = Vec::new();
    for (key, list) in value["extensions"].as_table().unwrap() {
        extensions.push(ExtensionGroup { key: key.clone(), extensions: strings(list) });
    }
    Config {
        watch: WatchConfig { path: value["watch"]["path"].as_str().unwrap().to_string() },
        destinations,
        extensions,
        partial: PartialConfig { extensions: strings(&value["partial"]["extensions"]) },
    }
}

fn folder(d: Destination) -> PathBuf {
    match d {
        Destination::Folder(path) => path,
        _ => panic!("no folder"),
    }
}

#[test]
fn default_config_sorts_by_type() {
    let config = read(DEFAULT_CONFIG);
    assert_eq!(config.watch.path, "~/Downloads");
    assert_eq!(config.partial.extensions, vec!["crdownload", "part", "download"]);
    let map = build_extension_map(&config);
    assert_eq!(map.len(), 18);
    for (ext, category) in [
        ("jpg", Category::Image),
        ("heif", Category::Image),
        ("xlsx", Category::Doc),
        ("rar", Category::Archive),
        ("mov", Category::Video),
        ("mp4a", Category::Audio),
        ("JPG", Category::Image),
        ("Pdf", Category::Doc),
        ("exe", Category::Other),
        ("", Category::Other),
    ] {
        assert_eq!(classify(Some(ext), &map), category, "{ext}");
    }
    assert_eq!(classify(None, &map), Category::Other);
    let home = path("/home/u");
    for (category, expected) in [
        (Category::Image, "/home/u/Pictures/Downloads-Sorted"),
        (Category::Doc, "/home/u/Documents/Downloads-Sorted"),
        (Category::Archive, "/home/u/Downloads-Sorted/Archives"),
        (Category::Video, "/home/u/Movies/Downloads-Sorted"),
        (Category::Audio, "/home/u/Music/Downloads-Sorted"),
        (Category::Other, "/home/u/Downloads-Sorted/Other"),
    ] {
        assert_eq!(folder(destination_in(category, &config, Some(&home))), path(expected));
    }
}

#[test]
fn listed_case_does_not_matter() {
    let config = read(
        "[watch]\npath = \"/w\"\n[destinations]\n[extensions]\nimage = [\"JpG\", \"ÄÖ\"]\n[partial]\nextensions = []\n",
    );
    let map = build_extension_map(&config);
    assert_eq!(classify(Some("jpg"), &map), Category::Image);
    assert_eq!(classify(Some("JPG"), &map), Category::Image);
    assert_eq!(classify(Some("äö"), &map), Category::Image);
    assert_eq!(classify(Some("Äö"), &map), Category::Image);
}

#[test]
fn last_group_that_lists_an_extension_counts() {
    let group = |key: &str, exts: &[&str]| ExtensionGroup {
        key: key.to_string(),
        extensions: exts.iter().map(|e| e.to_string()).collect(),
    };
    let config = |groups: Vec<ExtensionGroup>| Config {
        watch: WatchConfig { path: String::new() },
        destinations: destination_map(Vec::new()),
        extensions: groups,
        partial: PartialConfig { extensions: Vec::new() },
    };
    let map = build_extension_map(&config(vec![group("image", &["x", "y"]), group("doc", &["X"])]));
    assert_eq!(classify(Some("x"), &map), Category::Doc);
    assert_eq!(classify(Some("y"), &map), Category::Image);
    let map = build_extension_map(&config(vec![group("doc", &["X"]), group("image", &["x", "y"])]));
    assert_eq!(classify(Some("x"), &map), Category::Image);
    let map = build_extension_map(&config(vec![group("spreadsheets", &["ods"])]));
    assert_eq!(classify(Some("ods"), &map), Category::Other);
    assert_eq!(map.len(), 1);
}

#[test]
fn order_of_unambiguous_groups_does_not_matter() {
    let group = |key: &str, ext: &str| ExtensionGroup {
        key: key.to_string(),
        extensions: vec![ext.to_string()],
    };
    let config = |groups: Vec<ExtensionGroup>| Config {
        watch: WatchConfig { path: String::new() },
        destinations: destination_map(Vec::new()),
        extensions: groups,
        partial: PartialConfig { extensions: Vec::new() },
    };
    let one = build_extension_map(&config(vec![group("audio", "a"), group("video", "v")]));
    let other = build_extension_map(&config(vec![group("video", "v"), group("audio", "a")]));
    for e in ["a", "v", "x"] {
        assert_eq!(classify(Some(e), &one), classify(Some(e), &other));
    }
}

#[test]
fn categories_are_found_by_their_keys() {
    for category in [
        Category::Image,
        Category::Doc,
        Category::Archive,
        Category::Video,
        Category::Audio,
        Category::Other,
    ] {
        assert_eq!(Category::from_key(category.key()), category);
        assert_eq!(category.name(), format!("{category:?}"));
    }
    assert_eq!(Category::from_key("Image"), Category::Other);
    assert_eq!(Category::from_key(""), Category::Other);
}

#[test]
fn destinations_that_are_not_set_or_not_known() {
    let config = read(
        "[watch]\npath = \"/w\"\n[destinations]\ndoc = \"~/D\"\nvideo = \"/v\"\n[extensions]\n[partial]\nextensions = []\n",
    );
    assert!(matches!(destination_in(Category::Image, &config, Some(&path("/h"))), Destination::Unset));
    assert!(matches!(destination_in(Category::Doc, &config, None), Destination::NoHome));
    assert_eq!(folder(destination_in(Category::Doc, &config, Some(&path("/h")))), path("/h/D"));
    assert_eq!(folder(destination_in(Category::Video, &config, None)), path("/v"));
    assert_eq!(folder(destination_for(Category::Video, &config)), path("/v"));
    assert!(matches!(destination_for(Category::Audio, &config), Destination::Unset));
}

#[test]
fn tilde_stands_for_the_home_directory() {
    let home = path("/home/u");
    for (text, expected) in [
        ("~/Downloads", "/home/u/Downloads"),
        ("~\\Downloads", "/home/u/Downloads"),
        ("~/", "/home/u/"),
        ("~//etc", "/etc"),
    ] {
        assert_eq!(expand_tilde_in(text, Some(&home)), Some(path(expected)), "{text}");
    }
    assert_eq!(expand_tilde_in("~/x", None), None);
    for text in ["", "~", "~u/x", "/a/~/b", "a"] {
        assert_eq!(expand_tilde_in(text, Some(&home)), Some(path(text)));
        assert_eq!(expand_tilde_in(text, None), Some(path(text)));
        assert_eq!(expand_tilde(text), Some(path(text)));
    }
    assert_eq!(expand_tilde("~/Downloads"), dirs::home_dir().map(|h| h.join("Downloads")));
}

#[test]
fn home_directory_need_not_be_text() {
    let home = bytes(b"/home/\xff");
    assert_eq!(home.to_str(), None);
    assert_eq!(expand_tilde_in("~/in", Some(&home)), Some(bytes(b"/home/\xff/in")));
    let config = read(
        "[watch]\npath = \"/w\"\n[destinations]\ndoc = \"~/D\"\n[extensions]\n[partial]\nextensions = []\n",
    );
    assert_eq!(folder(destination_in(Category::Doc, &config, Some(&home))), bytes(b"/home/\xff/D"));
}

#[test]
fn files_are_where_the_system_wants_them() {
    match directories::ProjectDirs::from("com", "rohit", "dsorter") {
        Some(project) => {
            let config = project.config_dir().join("config.toml");
            assert_eq!(config_path().unwrap(), config);
            assert_eq!(config_location(None).unwrap(), config);
            let data = project.data_dir();
            let log = log_path().unwrap();
            assert_eq!(log.directory, data);
            assert_eq!(log.path, data.join("dsorter.log"));
            assert_eq!(pid_path().unwrap().path, data.join("dsorter.pid"));
            assert_eq!(status_path().unwrap().path, data.join("status.json"));
        }
        None => {
            assert!(matches!(config_path(), Err(ConfigError::NoConfigDir)));
            assert!(matches!(log_path(), Err(ConfigError::NoConfigDir)));
        }
    }
}

#[test]
fn files_without_a_directory() {
    assert!(matches!(path_in(None, "config.toml"), Err(ConfigError::NoConfigDir)));
    assert_eq!(path_in(Some(path("/c")), "config.toml").unwrap(), path("/c/config.toml"));
    assert_eq!(path_in(Some(bytes(b"/\xff")), "x").unwrap(), bytes(b"/\xff/x"));
    assert!(matches!(data_file(None, "x"), Err(ConfigError::NoConfigDir)));
    let file = data_file(Some(path("/d")), "x").unwrap();
    assert_eq!((file.directory, file.path), (path("/d"), path("/d/x")));
    let file = data_file(Some(bytes(b"/\xff")), "x").unwrap();
    assert_eq!((file.directory, file.path), (bytes(b"/\xff"), bytes(b"/\xff/x")));
}

#[test]
fn override_is_used_as_it_is() {
    for other in [path("/path/to/other.toml"), bytes(b"/\xff.toml"), path("")] {
        assert_eq!(config_location(Some(&other)).unwrap(), other);
    }
}

fn ask(step: LoadStep) -> (ConfigLoad, LoadRequest) {
    match step {
        LoadStep::Ask(load, request) => (load, request),
        _ => panic!("expected a request"),
    }
}

fn at(phase: LoadPhase) -> ConfigLoad {
    ConfigLoad { path: path("/c/config.toml"), phase }
}

#[test]
fn missing_config_is_created() {
    let (load, request) = ask(ConfigLoad::begin(&path("/c/d/config.toml")));
    match request {
        LoadRequest::Check { path: p } => assert_eq!(p, path("/c/d/config.toml")),
        _ => panic!("expected a check"),
    }
    let (load, request) = ask(load.answer(LoadAnswer::Exists(false)));
    match request {
        LoadRequest::CreateDirectory { path: p } => assert_eq!(p, path("/c/d")),
        _ => panic!("expected a directory"),
    }
    let (load, request) = ask(load.answer(LoadAnswer::DirectoryCreated(Ok(()))));
    match request {
        LoadRequest::Write { path: p, contents } => {
            assert_eq!(p, path("/c/d/config.toml"));
            assert_eq!(contents, DEFAULT_CONFIG);
        }
        _ => panic!("expected a file"),
    }
    let (load, request) = ask(load.answer(LoadAnswer::Written(Ok(()))));
    match request {
        LoadRequest::Read { path: p } => assert_eq!(p, path("/c/d/config.toml")),
        _ => panic!("expected a read"),
    }
    let (load, request) = ask(load.answer(LoadAnswer::Contents(Ok(DEFAULT_CONFIG.to_string()))));
    let text = match request {
        LoadRequest::Parse { text } => text,
        _ => panic!("expected a parse"),
    };
    match load.answer(LoadAnswer::Parsed(Ok(read(&text)))) {
        LoadStep::Finished(Ok(config)) => assert_eq!(config.watch.path, "~/Downloads"),
        _ => panic!("expected a configuration"),
    }
}

#[test]
fn existing_config_is_only_read() {
    let (load, _) = ask(ConfigLoad::begin(&path("/c/config.toml")));
    let (load, request) = ask(load.answer(LoadAnswer::Exists(true)));
    assert_eq!(load.phase, LoadPhase::Reading);
    assert!(matches!(request, LoadRequest::Read { path: _ }));
}

#[test]
fn load_stays_at_its_path() {
    let place = bytes(b"/c\xff/config.toml");
    let (load, request) = ask(ConfigLoad::begin(&place));
    assert!(matches!(request, LoadRequest::Check { path: p } if p == place));
    let (load, request) = ask(load.answer(LoadAnswer::Exists(false)));
    let parent = bytes(b"/c\xff");
    assert!(matches!(request, LoadRequest::CreateDirectory { path: p } if p == parent));
    let load = match load.answer(LoadAnswer::Exists(true)) {
        LoadStep::Unasked(load) => load,
        _ => panic!("expected no change"),
    };
    let (load, request) = ask(load.answer(LoadAnswer::DirectoryCreated(Ok(()))));
    assert!(matches!(request, LoadRequest::Write { path: p, contents: _ } if p == place));
    let (load, request) = ask(load.answer(LoadAnswer::Written(Ok(()))));
    assert!(matches!(request, LoadRequest::Read { path: p } if p == place));
    assert_eq!(load.path, place);
}

#[test]
fn failures_end_the_load() {
    let io = |step: LoadStep| match step {
        LoadStep::Finished(Err(ConfigError::Io(message))) => message,
        _ => panic!("expected an error of the system"),
    };
    let e = || "denied".to_string();
    let directory = at(LoadPhase::CreatingDirectory);
    assert_eq!(io(directory.answer(LoadAnswer::DirectoryCreated(Err(e())))), "denied");
    assert_eq!(io(at(LoadPhase::Writing).answer(LoadAnswer::Written(Err(e())))), "denied");
    assert_eq!(io(at(LoadPhase::Reading).answer(LoadAnswer::Contents(Err(e())))), "denied");
    match at(LoadPhase::Parsing).answer(LoadAnswer::Parsed(Err("bad".to_string()))) {
        LoadStep::Finished(Err(ConfigError::Parse(message))) => assert_eq!(message, "bad"),
        _ => panic!("expected an error of the parser"),
    }
    let (root, _) = ask(ConfigLoad::begin(&path("/")));
    assert!(matches!(
        root.answer(LoadAnswer::Exists(false)),
        LoadStep::Finished(Err(ConfigError::NoConfigDir))
    ));
    match at(LoadPhase::Parsing).answer(LoadAnswer::Exists(true)) {
        LoadStep::Unasked(load) => assert_eq!(load.phase, LoadPhase::Parsing),
        _ => panic!("expected no change"),
    }
}

#[test]
fn errors_say_what_is_wrong() {
    assert_eq!(ConfigError::Io("no such file".to_string()).message(), "no such file");
    assert_eq!(ConfigError::Parse("expected `=`".to_string()).message(), "expected `=`");
    assert_eq!(ConfigError::NoConfigDir.message(), "could not determine the config directory");
}

#[test]
fn pid_file_is_read_back() {
    for pid in [1, 4711, i32::MAX, -5] {
        let text = pid_text(pid);
        assert_eq!(parse_pid(Some(&text)), Some(pid));
        assert_eq!(parse_pid(Some(&format!("{text}\n"))), Some(pid));
        assert_eq!(parse_pid(Some(&format!("  {text} \r\n"))), Some(pid));
    }
    assert_eq!(parse_pid(Some("")), None);
    assert_eq!(parse_pid(Some("dsorter")), None);
    assert_eq!(parse_pid(Some("12 34")), None);
    assert_eq!(parse_pid(None), None);
}

#[test]
fn liveness_follows_the_answer() {
    assert!(pid_is_alive(1, Probe::Signal(true)));
    assert!(!pid_is_alive(1, Probe::Signal(false)));
    assert!(pid_is_alive(-1, Probe::Signal(true)));
    assert!(pid_is_alive(7, Probe::ExitCode(Some(259))));
    assert!(!pid_is_alive(7, Probe::ExitCode(Some(0))));
    assert!(!pid_is_alive(7, Probe::ExitCode(None)));
    assert!(!pid_is_alive(0, Probe::ExitCode(Some(259))));
}

#[test]
fn later_group_takes_the_place_of_an_earlier_one() {
    let group = |key: &str, ext: &str| ExtensionGroup {
        key: key.to_string(),
        extensions: vec![ext.to_string()],
    };
    let config = Config::new(
        "/w".to_string(),
        vec![("doc".to_string(), "/a".to_string()), ("doc".to_string(), "/b".to_string())],
        vec![group("doc", "x"), group("image", "y"), group("doc", "z")],
        vec!["part".to_string()],
    );
    let keys: Vec<&str> = config.extensions.iter().map(|g| g.key.as_str()).collect();
    assert_eq!(keys, vec!["doc", "image"]);
    assert_eq!(config.extensions[0].extensions, vec!["z"]);
    assert_eq!(config.watch.path, "/w");
    assert_eq!(config.partial.extensions, vec!["part"]);
    assert_eq!(folder(destination_in(Category::Doc, &config, None)), path("/b"));
    let map = build_extension_map(&config);
    assert_eq!(classify(Some("x"), &map), Category::Other);
    assert_eq!(classify(Some("z"), &map), Category::Doc);
}

#[test]
fn own_files_stand_together_and_differ() {
    let names = ["dsorter.log", "dsorter.pid", "status.json"];
    let files: Vec<_> =
        names.iter().map(|n| data_file(Some(path("/d")), n).unwrap()).collect();
    for (i, file) in files.iter().enumerate() {
        assert_eq!(file.directory, path("/d"));
        assert_eq!(file.path, path("/d").join(names[i]));
        assert!(files.iter().enumerate().all(|(j, f)| i == j || f.path != file.path));
    }
}
