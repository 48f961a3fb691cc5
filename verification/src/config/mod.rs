//! The configuration and the places of the program's files.
use std::path::PathBuf;
use vstd::hash_map::StringHashMap;
use vstd::prelude::*;
use vstd::utf8::{encode_utf8, is_ascii_chars, is_ascii_chars_encode_utf8};
use crate::error::ConfigError;
use crate::paths::{
    is_plain_name, is_project_dir, is_simple_name, join, joined, lies_in, opt_raw, path_from,
    project_config_dir, project_data_dir, raw,
};
use crate::utils::{distinct_keys, extension_groups, last_group_with_a_key_counts, table};

pub mod load;
pub mod pid;
pub mod status;

verus! {

/// What to watch, what belongs where, and what to leave alone.
pub struct Config {
    pub watch: WatchConfig,
    /// The folder of each category, by the category's key.
    pub destinations: StringHashMap<String>,
    /// The extensions of each category, in the order in which they are to be entered into
    /// the extension map. No key occurs twice where the configuration is well-formed.
    pub extensions: Vec<ExtensionGroup>,
    pub partial: PartialConfig,
}

impl Config {
    /// No key of the extensions occurs twice.
    pub open spec fn wf(self) -> bool {
        distinct_keys(self.extensions@)
    }

    /// The configuration with the given parts. A later entry for a key takes the place of
    /// an earlier one.
    pub fn new(
        watch_path: String,
        destinations: Vec<(String, String)>,
        extensions: Vec<ExtensionGroup>,
        partial: Vec<String>,
    ) -> (r: Config)
        ensures
            r.wf(),
            r.watch.path == watch_path,
            r.destinations@ == entered(destinations@),
            table(r.extensions@) == table(extensions@),
            distinct_keys(extensions@) ==> r.extensions@ == extensions@,
            r.partial.extensions == partial,
    {
        Config {
            watch: WatchConfig { path: watch_path },
            destinations: destination_map(destinations),
            extensions: extension_groups(extensions),
            partial: PartialConfig { extensions: partial },
        }
    }
}

/// The extensions that belong to the category with the given key.
pub struct ExtensionGroup {
    pub key: String,
    pub extensions: Vec<String>,
}

/// The extensions of files that are still being downloaded.
pub struct PartialConfig {
    pub extensions: Vec<String>,
}

pub struct WatchConfig {
    pub path: String,
}

/// The map that the entries make up, where a later entry for a key takes the place of an
/// earlier one.
pub open spec fn entered(entries: Seq<(String, String)>) -> Map<Seq<char>, String>
    decreases entries.len(),
{
    if entries.len() == 0 {
        Map::empty()
    } else {
        entered(entries.drop_last()).insert(entries.last().0@, entries.last().1)
    }
}

/// The folders of the categories, from a list of keys and paths.
pub fn destination_map(entries: Vec<(String, String)>) -> (r: StringHashMap<String>)
    ensures
        r@ == entered(entries@),
{
    let mut map: StringHashMap<String> = StringHashMap::new();
    let mut i: usize = 0;
    while i < entries.len()
        invariant
            i <= entries@.len(),
            map@ == entered(entries@.take(i as int)),
        decreases entries@.len() - i,
    {
        map.insert(entries[i].0.clone(), entries[i].1.clone());
        i += 1;
        assert(entries@.take(i as int).drop_last() =~= entries@.take(i - 1));
    }
    assert(entries@.take(entries@.len() as int) =~= entries@);
    map
}

/// The configuration that is written where there is none yet.
pub const DEFAULT_CONFIG: &'static str = r#"[watch]
path = "~/Downloads"

[destinations]
image = "~/Pictures/Downloads-Sorted"
doc = "~/Documents/Downloads-Sorted"
archive = "~/Downloads-Sorted/Archives"
video = "~/Movies/Downloads-Sorted"
audio = "~/Music/Downloads-Sorted"
other = "~/Downloads-Sorted/Other"

[extensions]
image = ["jpg", "png", "gif", "jpeg", "heif"]
doc = ["pdf", "docx", "txt", "xlsx"]
archive = ["zip", "tar", "rar"]
video = ["mkv", "mp4", "mov"]
audio = ["mp3", "wav", "mp4a"]

[partial]
extensions = ["crdownload", "part", "download"]
"#;

/// A file of the given name in a directory that the system may or may not have told.
pub open spec fn file_in(dir: Option<Seq<u8>>, name: Seq<char>) -> Option<Seq<u8>> {
    match dir {
        Some(d) => Some(joined(d, encode_utf8(name))),
        None => None,
    }
}

/// The bytes of a path, where there is one and no error in its place.
pub open spec fn ok_raw(r: Result<PathBuf, ConfigError>) -> Option<Seq<u8>> {
    match r {
        Ok(p) => Some(raw(p)),
        Err(_) => None,
    }
}

/// The path of a file in the directory that the system told. Without a directory there
/// is no path.
pub fn path_in(dir: Option<PathBuf>, name: &str) -> (r: Result<PathBuf, ConfigError>)
    ensures
        ok_raw(r) == file_in(opt_raw(dir), name@),
        r matches Err(e) ==> e is NoConfigDir,
{
    match dir {
        Some(d) => Ok(join(&d, &path_from(name))),
        None => Err(ConfigError::NoConfigDir),
    }
}

/// `dir` is the directory that the system assigns to the program for one kind of file.
pub open spec fn is_own_dir(dir: Seq<u8>, leaf: Seq<char>) -> bool {
    is_project_dir(dir, "com"@, "rohit"@, "dsorter"@, leaf)
}

/// `path` is a file of the given name in the program's directory for configurations.
pub open spec fn is_own_file(path: Seq<u8>, name: Seq<char>) -> bool {
    exists|dir: Seq<u8>| #[trigger]
        joined(dir, encode_utf8(name)) == path && is_own_dir(dir, "config"@)
}

proof fn lemma_program_names()
    ensures
        is_plain_name("com"@),
        is_plain_name("rohit"@),
        is_plain_name("dsorter"@),
{
    reveal_strlit("com");
    reveal_strlit("rohit");
    reveal_strlit("dsorter");
}

/// Where the configuration is kept.
pub fn config_path() -> (r: Result<PathBuf, ConfigError>)
    ensures
        match r {
            Ok(p) => is_own_file(raw(p), "config.toml"@),
            Err(e) => e is NoConfigDir,
        },
{
    proof {
        lemma_program_names();
    }
    let dir = project_config_dir("com", "rohit", "dsorter");
    path_in(dir, "config.toml")
}

/// Where to look for the configuration: the place that was asked for, or else the place
/// that the system assigns.
pub fn config_location(override_path: Option<&PathBuf>) -> (r: Result<PathBuf, ConfigError>)
    ensures
        match override_path {
            Some(p) => r matches Ok(location) && raw(location) == raw(*p),
            None => match r {
                Ok(location) => is_own_file(raw(location), "config.toml"@),
                Err(e) => e is NoConfigDir,
            },
        },
{
    match override_path {
        Some(p) => Ok(p.clone()),
        None => config_path(),
    }
}

/// A file that the program keeps, and the directory that has to exist for it.
pub struct DataFile {
    pub directory: PathBuf,
    pub path: PathBuf,
}

/// `r` is the file of the given name in the directory that was told; without a directory
/// there is none.
pub open spec fn is_data_file(
    r: Result<DataFile, ConfigError>,
    dir: Option<Seq<u8>>,
    name: Seq<char>,
) -> bool {
    match dir {
        Some(d) => r matches Ok(file) && raw(file.directory) == d && raw(file.path) == joined(
            d,
            encode_utf8(name),
        ) && lies_in(raw(file.path), d, encode_utf8(name)),
        None => r matches Err(e) && e is NoConfigDir,
    }
}

/// The file of the given name in the directory that the system told. Without a directory
/// there is no file.
pub fn data_file(dir: Option<PathBuf>, name: &str) -> (r: Result<DataFile, ConfigError>)
    ensures
        is_data_file(r, opt_raw(dir), name@),
{
    match dir {
        Some(directory) => {
            let path = join(&directory, &path_from(name));
            Ok(DataFile { directory, path })
        },
        None => Err(ConfigError::NoConfigDir),
    }
}

/// `r` is the file of the given name in the program's directory for data, or the system
/// told no directory.
pub open spec fn is_own_data_file(r: Result<DataFile, ConfigError>, name: Seq<char>) -> bool {
    exists|dir: Option<Seq<u8>>| #[trigger]
        is_data_file(r, dir, name) && (dir matches Some(d) ==> is_own_dir(d, "data"@))
}

/// The file of the given name in the directory that the system assigns to the program.
pub(crate) fn own_data_file(name: &str) -> (r: Result<DataFile, ConfigError>)
    ensures
        is_own_data_file(r, name@),
{
    proof {
        lemma_program_names();
    }
    let dir = project_data_dir("com", "rohit", "dsorter");
    let ghost told = opt_raw(dir);
    let r = data_file(dir, name);
    assert(is_data_file(r, told, name@));
    r
}

/// Where the log is kept.
pub fn log_path() -> (r: Result<DataFile, ConfigError>)
    ensures
        is_own_data_file(r, "dsorter.log"@),
{
    own_data_file("dsorter.log")
}

/// The log, the process id and the status are kept in one directory, in three different
/// files; and where the system tells no directory, there is none of them.
pub proof fn own_files_stand_together(
    dir: Option<Seq<u8>>,
    log: Result<DataFile, ConfigError>,
    pid: Result<DataFile, ConfigError>,
    status: Result<DataFile, ConfigError>,
)
    requires
        is_data_file(log, dir, "dsorter.log"@),
        is_data_file(pid, dir, "dsorter.pid"@),
        is_data_file(status, dir, "status.json"@),
    ensures
        log is Ok <==> dir is Some,
        pid is Ok <==> dir is Some,
        status is Ok <==> dir is Some,
        dir matches Some(d) ==> {
            &&& raw(log->Ok_0.directory) == d
            &&& raw(pid->Ok_0.directory) == d
            &&& raw(status->Ok_0.directory) == d
            &&& raw(log->Ok_0.path) != raw(pid->Ok_0.path)
            &&& raw(log->Ok_0.path) != raw(status->Ok_0.path)
            &&& raw(pid->Ok_0.path) != raw(status->Ok_0.path)
        },
{
    if dir is Some {
        lemma_names_differ();
        lemma_own_file_ends(log, dir, "dsorter.log"@);
        lemma_own_file_ends(pid, dir, "dsorter.pid"@);
        lemma_own_file_ends(status, dir, "status.json"@);
    }
}

/// Two of the program's files are never the same one, even where the system tells another
/// directory in between.
pub proof fn own_files_differ(
    log: Result<DataFile, ConfigError>,
    pid: Result<DataFile, ConfigError>,
    status: Result<DataFile, ConfigError>,
)
    requires
        is_own_data_file(log, "dsorter.log"@),
        is_own_data_file(pid, "dsorter.pid"@),
        is_own_data_file(status, "status.json"@),
    ensures
        log is Ok && pid is Ok ==> raw(log->Ok_0.path) != raw(pid->Ok_0.path),
        log is Ok && status is Ok ==> raw(log->Ok_0.path) != raw(status->Ok_0.path),
        pid is Ok && status is Ok ==> raw(pid->Ok_0.path) != raw(status->Ok_0.path),
{
    lemma_names_differ();
    if log is Ok {
        lemma_own_file_ends(log, told_for(log, "dsorter.log"@), "dsorter.log"@);
    }
    if pid is Ok {
        lemma_own_file_ends(pid, told_for(pid, "dsorter.pid"@), "dsorter.pid"@);
    }
    if status is Ok {
        lemma_own_file_ends(status, told_for(status, "status.json"@), "status.json"@);
    }
}

/// A directory that can have been told where `r` is the file of the given name in it.
spec fn told_for(r: Result<DataFile, ConfigError>, name: Seq<char>) -> Option<Seq<u8>> {
    choose|dir: Option<Seq<u8>>| is_data_file(r, dir, name)
}

/// The names of the program's files are simple, and end in different bytes.
proof fn lemma_names_differ()
    ensures
        is_simple_name(encode_utf8("dsorter.log"@)),
        is_simple_name(encode_utf8("dsorter.pid"@)),
        is_simple_name(encode_utf8("status.json"@)),
        encode_utf8("dsorter.log"@).last() == 'g' as u8,
        encode_utf8("dsorter.pid"@).last() == 'd' as u8,
        encode_utf8("status.json"@).last() == 'n' as u8,
{
    reveal_strlit("dsorter.log");
    reveal_strlit("dsorter.pid");
    reveal_strlit("status.json");
    assert(is_ascii_chars("dsorter.log"@));
    assert(is_ascii_chars("dsorter.pid"@));
    assert(is_ascii_chars("status.json"@));
    is_ascii_chars_encode_utf8("dsorter.log"@);
    is_ascii_chars_encode_utf8("dsorter.pid"@);
    is_ascii_chars_encode_utf8("status.json"@);
    assert("dsorter.log"@.last() == 'g');
    assert("dsorter.pid"@.last() == 'd');
    assert("status.json"@.last() == 'n');
}

/// The path of one of the program's files ends in the last byte of its name.
proof fn lemma_own_file_ends(r: Result<DataFile, ConfigError>, dir: Option<Seq<u8>>, name: Seq<char>)
    requires
        dir is Some,
        is_data_file(r, dir, name),
        is_simple_name(encode_utf8(name)),
    ensures
        raw(r->Ok_0.path).last() == encode_utf8(name).last(),
{
    let whole = raw(r->Ok_0.path);
    let part = encode_utf8(name);
    assert(whole.skip(whole.len() - part.len()).last() == whole.last());
}

/// In the map that entries make up, a key has the path of the last entry with it; and only
/// keys of entries are in it.
pub proof fn last_entry_for_a_key_counts(entries: Seq<(String, String)>, key: Seq<char>)
    ensures
        entered(entries).contains_key(key) <==> exists|i: int|
            0 <= i < entries.len() && (#[trigger] entries[i]).0@ == key,
        forall|i: int|
            0 <= i < entries.len() && (#[trigger] entries[i]).0@ == key && (forall|j: int|
                i < j < entries.len() ==> (#[trigger] entries[j]).0@ != key) ==> entered(
                entries,
            )[key] == entries[i].1,
    decreases entries.len(),
{
    if entries.len() > 0 {
        let front = entries.drop_last();
        let last = entries.len() - 1;
        last_entry_for_a_key_counts(front, key);
        assert(entries[last] == entries.last());
        assert forall|i: int| 0 <= i < last implies #[trigger] entries[i] == front[i] by {}
        if key != entries.last().0@ {
            assert(entered(entries).contains_key(key) == entered(front).contains_key(key));
            if entered(front).contains_key(key) {
                let i = choose|i: int| 0 <= i < front.len() && (#[trigger] front[i]).0@ == key;
                assert(entries[i].0@ == key);
            }
            assert forall|i: int|
                0 <= i < entries.len() && (#[trigger] entries[i]).0@ == key && (forall|j: int|
                    i < j < entries.len() ==> (#[trigger] entries[j]).0@ != key) implies entered(
                entries,
            )[key] == entries[i].1 by {
                assert(front[i].0@ == key);
                assert forall|j: int| i < j < front.len() implies (#[trigger] front[j]).0@
                    != key by {
                    assert(entries[j].0@ != key);
                }
            }
        }
    }
}

/// A configuration is made of what it is given: the watched path and the partial extensions
/// as they are; for every key the path of the last entry with it; and for every key the
/// extensions of the last group with it, in one group.
pub proof fn configuration_is_made_of_its_parts(
    watch_path: String,
    destinations: Vec<(String, String)>,
    extensions: Vec<ExtensionGroup>,
    partial: Vec<String>,
    r: Config,
    i: int,
    g: int,
)
    requires
        call_ensures(Config::new, (watch_path, destinations, extensions, partial), r),
        0 <= i < destinations@.len() ==> forall|j: int|
            i < j < destinations@.len() ==> (#[trigger] destinations@[j]).0@
                != destinations@[i].0@,
        0 <= g < extensions@.len() ==> forall|j: int|
            g < j < extensions@.len() ==> (#[trigger] extensions@[j]).key@ != extensions@[g].key@,
    ensures
        r.watch.path@ == watch_path@,
        r.partial.extensions@ == partial@,
        0 <= i < destinations@.len() ==> r.destinations@.contains_key(destinations@[i].0@)
            && r.destinations@[destinations@[i].0@] == destinations@[i].1,
        0 <= g < extensions@.len() ==> exists|k: int|
            0 <= k < r.extensions@.len() && (#[trigger] r.extensions@[k]).key@
                == extensions@[g].key@ && r.extensions@[k].extensions@
                == extensions@[g].extensions@,
        forall|a: int, b: int|
            0 <= a < b < r.extensions@.len() ==> (#[trigger] r.extensions@[a]).key@ != (
            #[trigger] r.extensions@[b]).key@,
{
    if 0 <= i < destinations@.len() {
        last_entry_for_a_key_counts(destinations@, destinations@[i].0@);
    }
    if 0 <= g < extensions@.len() {
        last_group_with_a_key_counts(extensions@, extensions@[g].key@);
        last_group_with_a_key_counts(r.extensions@, extensions@[g].key@);
    }
}

/// A file of the program stands in the directory that was told, under its name; where none
/// was told there is no file.
pub proof fn file_stands_in_the_directory_told(
    dir: Option<PathBuf>,
    name: &str,
    path: Result<PathBuf, ConfigError>,
    file: Result<DataFile, ConfigError>,
)
    requires
        call_ensures(path_in, (dir, name), path),
        call_ensures(data_file, (dir, name), file),
    ensures
        dir matches Some(d) ==> {
            &&& path matches Ok(p) && raw(p) == joined(raw(d), encode_utf8(name@))
            &&& file matches Ok(f) && raw(f.path) == joined(raw(d), encode_utf8(name@)) && raw(
                f.directory,
            ) == raw(d)
        },
        dir is None ==> path matches Err(ConfigError::NoConfigDir),
        dir is None ==> file matches Err(ConfigError::NoConfigDir),
{
}

/// A configuration that was asked for is looked for where it was asked for.
pub proof fn override_is_the_location(p: &PathBuf, r: Result<PathBuf, ConfigError>)
    requires
        call_ensures(config_location, (Some(p),), r),
    ensures
        r matches Ok(location) && raw(location) == raw(*p),
{
}

/// The log and the configuration are kept under their names in directories that the system
/// told.
pub proof fn own_files_have_their_names(
    log: Result<DataFile, ConfigError>,
    config: Result<PathBuf, ConfigError>,
)
    requires
        call_ensures(log_path, (), log),
        call_ensures(config_path, (), config),
    ensures
        log matches Ok(file) ==> raw(file.path) == joined(
            raw(file.directory),
            encode_utf8("dsorter.log"@),
        ),
        config matches Ok(path) ==> exists|dir: Seq<u8>| #[trigger]
            joined(dir, encode_utf8("config.toml"@)) == raw(path),
        log matches Err(e) ==> e is NoConfigDir,
        config matches Err(e) ==> e is NoConfigDir,
{
}

} // verus!
