//! The categories that files are sorted into.
use std::path::PathBuf;
use vstd::hash_map::StringHashMap;
use vstd::prelude::*;
use vstd::utf8::encode_utf8;
use crate::config::Config;
use crate::paths::{home_dir, joined, opt_path, opt_raw, opt_str, raw};
use crate::text::{lowercase, same_text, to_lowercase};
use crate::utils::{expand_tilde_in, expanded};

verus! {

/// What kind of file a file is.
#[derive(Debug, Clone, Copy, PartialEq, Eq, Structural)]
pub enum Category {
    Image,
    Doc,
    Archive,
    Video,
    Audio,
    Other,
}

impl Category {
    /// The key of the category in the configuration.
    pub open spec fn key_text(self) -> Seq<char> {
        match self {
            Category::Image => "image"@,
            Category::Doc => "doc"@,
            Category::Archive => "archive"@,
            Category::Video => "video"@,
            Category::Audio => "audio"@,
            Category::Other => "other"@,
        }
    }

    /// The name of the category in the log.
    pub open spec fn name_text(self) -> Seq<char> {
        match self {
            Category::Image => "Image"@,
            Category::Doc => "Doc"@,
            Category::Archive => "Archive"@,
            Category::Video => "Video"@,
            Category::Audio => "Audio"@,
            Category::Other => "Other"@,
        }
    }

    /// The category with the given key; a key that no category has stands for `Other`.
    pub open spec fn of_key(key: Seq<char>) -> Category {
        if key == "image"@ {
            Category::Image
        } else if key == "doc"@ {
            Category::Doc
        } else if key == "archive"@ {
            Category::Archive
        } else if key == "video"@ {
            Category::Video
        } else if key == "audio"@ {
            Category::Audio
        } else {
            Category::Other
        }
    }

    /// The category with the given key; a key that no category has stands for `Other`.
    pub fn from_key(key: &str) -> (r: Category)
        ensures
            r == Category::of_key(key@),
    {
        if same_text(key, "image") {
            Category::Image
        } else if same_text(key, "doc") {
            Category::Doc
        } else if same_text(key, "archive") {
            Category::Archive
        } else if same_text(key, "video") {
            Category::Video
        } else if same_text(key, "audio") {
            Category::Audio
        } else {
            Category::Other
        }
    }

    /// The key of the category in the configuration.
    pub fn key(self) -> (r: &'static str)
        ensures
            r@ == self.key_text(),
    {
        match self {
            Category::Image => "image",
            Category::Doc => "doc",
            Category::Archive => "archive",
            Category::Video => "video",
            Category::Audio => "audio",
            Category::Other => "other",
        }
    }

    /// The name of the category in the log.
    pub fn name(self) -> (r: &'static str)
        ensures
            r@ == self.name_text(),
    {
        match self {
            Category::Image => "Image",
            Category::Doc => "Doc",
            Category::Archive => "Archive",
            Category::Video => "Video",
            Category::Audio => "Audio",
            Category::Other => "Other",
        }
    }
}

/// Every category is found again by its key.
pub proof fn category_is_found_by_its_key(category: Category)
    ensures
        Category::of_key(category.key_text()) == category,
{
    reveal_strlit("image");
    reveal_strlit("doc");
    reveal_strlit("archive");
    reveal_strlit("video");
    reveal_strlit("audio");
    reveal_strlit("other");
    assert("image"@.len() == 5 && "doc"@.len() == 3 && "archive"@.len() == 7);
    assert("image"@[0] == 'i' && "video"@[0] == 'v' && "audio"@[0] == 'a' && "other"@[0] == 'o');
}

/// What a map holds at a key, where it holds anything.
pub open spec fn lookup<V>(map: Map<Seq<char>, V>, key: Seq<char>) -> Option<V> {
    if map.contains_key(key) {
        Some(map[key])
    } else {
        None
    }
}

/// The category of files whose extension, in lower case, is `lowered`.
pub open spec fn category_of_lowered(lowered: Seq<char>, map: Map<Seq<char>, Category>) -> Category {
    match lookup(map, lowered) {
        Some(category) => category,
        None => Category::Other,
    }
}

/// The category of files with the given extension, in whatever case; files without one
/// are `Other`.
pub open spec fn category_of(
    extension: Option<Seq<char>>,
    map: Map<Seq<char>, Category>,
) -> Category {
    match extension {
        Some(e) => category_of_lowered(lowercase(e), map),
        None => Category::Other,
    }
}

/// The category of files whose extension, in lower case, is `lowered`.
pub fn classify_lowered(lowered: &str, map: &StringHashMap<Category>) -> (r: Category)
    ensures
        r == category_of_lowered(lowered@, map@),
{
    match map.get(lowered) {
        Some(category) => *category,
        None => Category::Other,
    }
}

/// The category of files with the given extension.
pub fn classify(extension: Option<&str>, map: &StringHashMap<Category>) -> (r: Category)
    ensures
        r == category_of(opt_str(extension), map@),
{
    match extension {
        Some(e) => classify_lowered(to_lowercase(e).as_str(), map),
        None => Category::Other,
    }
}

/// The case of an extension does not matter.
pub proof fn classification_ignores_case(
    one: Seq<char>,
    other: Seq<char>,
    map: Map<Seq<char>, Category>,
)
    requires
        lowercase(one) == lowercase(other),
    ensures
        category_of(Some(one), map) == category_of(Some(other), map),
{
}

/// The folder that the files of a category go to.
pub enum Destination {
    /// The configuration names none.
    Unset,
    /// It is in the home directory, and the system tells none.
    NoHome,
    Folder(PathBuf),
}

/// The folder that the files of a category go to, as a value.
pub enum DestinationView {
    Unset,
    NoHome,
    Folder(Seq<u8>),
}

impl View for Destination {
    type V = DestinationView;

    open spec fn view(&self) -> DestinationView {
        match self {
            Destination::Unset => DestinationView::Unset,
            Destination::NoHome => DestinationView::NoHome,
            Destination::Folder(path) => DestinationView::Folder(raw(*path)),
        }
    }
}

/// The folder that the configuration names for a category, with the given home directory.
pub open spec fn destination(
    category: Category,
    config: Config,
    home: Option<Seq<u8>>,
) -> DestinationView {
    match lookup(config.destinations@, category.key_text()) {
        None => DestinationView::Unset,
        Some(path) => match expanded(path@, home) {
            Some(folder) => DestinationView::Folder(folder),
            None => DestinationView::NoHome,
        },
    }
}

/// The folder that the configuration names for a category, with the given home directory.
pub fn destination_in(category: Category, config: &Config, home: Option<&PathBuf>) -> (r:
    Destination)
    ensures
        r@ == destination(category, *config, opt_path(home)),
{
    match config.destinations.get(category.key()) {
        None => Destination::Unset,
        Some(path) => match expand_tilde_in(path.as_str(), home) {
            Some(folder) => Destination::Folder(folder),
            None => Destination::NoHome,
        },
    }
}

/// The folder that the configuration names for a category, with the home directory that
/// the system tells.
pub fn destination_for(category: Category, config: &Config) -> (r: Destination)
    ensures
        exists|home: Option<Seq<u8>>| r@ == #[trigger] destination(category, *config, home),
{
    let home = home_dir();
    let r = destination_in(category, config, home.as_ref());
    assert(r@ == destination(category, *config, opt_raw(home)));
    r
}

/// A key stands for the category that it names, and any other key for `Other`.
pub proof fn key_names_its_category(key: &str, r: Category)
    requires
        call_ensures(Category::from_key, (key,), r),
    ensures
        r == Category::Image <==> key@ == "image"@,
        r == Category::Doc <==> key@ == "doc"@,
        r == Category::Archive <==> key@ == "archive"@,
        r == Category::Video <==> key@ == "video"@,
        r == Category::Audio <==> key@ == "audio"@,
{
    lemma_keys_differ();
}

/// The same, of keys as values.
pub proof fn key_text_names_its_category(key: Seq<char>)
    ensures
        Category::of_key(key) == Category::Image <==> key == "image"@,
        Category::of_key(key) == Category::Doc <==> key == "doc"@,
        Category::of_key(key) == Category::Archive <==> key == "archive"@,
        Category::of_key(key) == Category::Video <==> key == "video"@,
        Category::of_key(key) == Category::Audio <==> key == "audio"@,
        Category::Image.key_text() == "image"@,
        Category::Doc.key_text() == "doc"@,
        Category::Archive.key_text() == "archive"@,
        Category::Video.key_text() == "video"@,
        Category::Audio.key_text() == "audio"@,
        Category::Other.key_text() == "other"@,
        Category::Image.name_text() == "Image"@,
        Category::Doc.name_text() == "Doc"@,
        Category::Archive.name_text() == "Archive"@,
        Category::Video.name_text() == "Video"@,
        Category::Audio.name_text() == "Audio"@,
        Category::Other.name_text() == "Other"@,
{
    lemma_keys_differ();
}

proof fn lemma_keys_differ()
    ensures
        "image"@ != "doc"@,
        "image"@ != "archive"@,
        "image"@ != "video"@,
        "image"@ != "audio"@,
        "doc"@ != "archive"@,
        "doc"@ != "video"@,
        "doc"@ != "audio"@,
        "archive"@ != "video"@,
        "archive"@ != "audio"@,
        "video"@ != "audio"@,
{
    reveal_strlit("image");
    reveal_strlit("doc");
    reveal_strlit("archive");
    reveal_strlit("video");
    reveal_strlit("audio");
    assert("image"@.len() == 5 && "doc"@.len() == 3 && "archive"@.len() == 7);
    assert("image"@[0] == 'i' && "video"@[0] == 'v' && "audio"@[0] == 'a');
}

/// A file is of the category that the map has for its extension in lower case; of `Other`
/// where it has none for it, and where the file has no extension.
pub proof fn extension_decides_the_category(
    extension: Option<&str>,
    map: &StringHashMap<Category>,
    r: Category,
)
    requires
        call_ensures(classify, (extension, map), r),
    ensures
        extension matches Some(e) ==> r == if map@.contains_key(lowercase(e@)) {
            map@[lowercase(e@)]
        } else {
            Category::Other
        },
        extension is None ==> r == Category::Other,
{
}

/// The folder of a category is the path that the configuration has at the category's key:
/// as it is, or in the home directory where it begins with a tilde and a slash of either
/// kind. It is not set where there is no such path, and not known where it needs a home
/// directory and there is none.
pub proof fn folder_is_the_path_at_the_key(
    category: Category,
    config: &Config,
    home: Option<&PathBuf>,
    key: &str,
    r: Destination,
)
    requires
        call_ensures(Category::key, (category,), key),
        call_ensures(destination_in, (category, config, home), r),
    ensures
        r is Unset <==> !config.destinations@.contains_key(key@),
        config.destinations@.contains_key(key@) ==> {
            let path = config.destinations@[key@]@;
            if path.len() >= 2 && path[0] == '~' && (path[1] == '/' || path[1] == '\\') {
                match home {
                    Some(h) => r matches Destination::Folder(folder) && raw(folder) == joined(
                        raw(*h),
                        encode_utf8(path.skip(2)),
                    ),
                    None => r is NoHome,
                }
            } else {
                r matches Destination::Folder(folder) && raw(folder) == encode_utf8(path)
            }
        },
{
}

} // verus!
