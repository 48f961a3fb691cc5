//! Paths, and the directories that the system assigns to the user.
//!
//! A path is a `PathBuf`, whose bytes need not be Unicode text. What `std::path` makes of
//! them depends on the target that the crate is built for; the names below stand for what
//! it does there.
use std::path::PathBuf;
use vstd::prelude::*;
use vstd::utf8::{
    decode_utf8, encode_utf8, encode_utf8_decode_utf8, encode_utf8_valid_utf8, valid_utf8,
};

verus! {

/// Declares `PathBuf`, a path as the system has it. What it holds is spoken of through `raw`.
#[verifier::external_type_specification]
#[verifier::external_body]
pub struct ExPathBuf(std::path::PathBuf);

/// The bytes that a path holds, as `OsStr::as_encoded_bytes` gives them. Where they are
/// Unicode text, they are its UTF-8 encoding.
pub uninterp spec fn raw(path: std::path::PathBuf) -> Seq<u8>;

/// The bytes of an optional path.
pub open spec fn opt_raw(path: Option<PathBuf>) -> Option<Seq<u8>> {
    match path {
        Some(p) => Some(raw(p)),
        None => None,
    }
}

/// The bytes of an optional reference to a path.
pub open spec fn opt_path(path: Option<&PathBuf>) -> Option<Seq<u8>> {
    match path {
        Some(p) => Some(raw(*p)),
        None => None,
    }
}

/// The bytes of each of the paths.
pub open spec fn raws(paths: Seq<PathBuf>) -> Seq<Seq<u8>> {
    paths.map_values(|p: PathBuf| raw(p))
}

/// The text of an optional string.
pub open spec fn opt_text(s: Option<String>) -> Option<Seq<char>> {
    match s {
        Some(t) => Some(t@),
        None => None,
    }
}

/// The text of an optional string slice.
pub open spec fn opt_str(s: Option<&str>) -> Option<Seq<char>> {
    match s {
        Some(t) => Some(t@),
        None => None,
    }
}

/// `PathBuf::clone` copies the bytes of the path.
pub assume_specification[ <std::path::PathBuf as Clone>::clone ](p: &std::path::PathBuf) -> (r:
    std::path::PathBuf)
    ensures
        raw(r) == raw(*p),
;

/// Calls `PathBuf::from`. The path holds the UTF-8 encoding of the text.
#[verifier::external_body]
pub(crate) fn path_from(text: &str) -> (r: PathBuf)
    ensures
        raw(r) == encode_utf8(text@),
{
    PathBuf::from(text)
}

/// What `Path::display` writes for a path that is not Unicode text.
pub uninterp spec fn displayed(path: Seq<u8>) -> Seq<char>;

/// What `Path::to_string_lossy` makes of a path that is not Unicode text.
pub uninterp spec fn replaced(path: Seq<u8>) -> Seq<char>;

/// The path as it is shown to a reader: its text, where it is Unicode text.
pub open spec fn shown(path: Seq<u8>) -> Seq<char> {
    if valid_utf8(path) {
        decode_utf8(path)
    } else {
        displayed(path)
    }
}

/// The path as text, with what is not Unicode text replaced.
pub open spec fn lossy(path: Seq<u8>) -> Seq<char> {
    if valid_utf8(path) {
        decode_utf8(path)
    } else {
        replaced(path)
    }
}

/// The text that the bytes encode, where they encode one.
pub open spec fn unicode(bytes: Option<Seq<u8>>) -> Option<Seq<char>> {
    match bytes {
        Some(b) => if valid_utf8(b) {
            Some(decode_utf8(b))
        } else {
            None
        },
        None => None,
    }
}

/// Calls `Path::display` and writes what it gives. A path that is Unicode text is shown as
/// that text; what is shown of any other depends on its bytes alone.
#[verifier::external_body]
pub(crate) fn shown_text(path: &PathBuf) -> (r: String)
    ensures
        valid_utf8(raw(*path)) ==> r@ == decode_utf8(raw(*path)),
        !valid_utf8(raw(*path)) ==> r@ == displayed(raw(*path)),
{
    path.display().to_string()
}

/// Calls `Path::to_string_lossy`. A path that is Unicode text gives that text; what comes
/// of any other depends on its bytes alone. Only the replacement character is ever put in,
/// so an ASCII character of the result is a byte of the path.
#[verifier::external_body]
pub(crate) fn lossy_text(path: &PathBuf) -> (r: String)
    ensures
        valid_utf8(raw(*path)) ==> r@ == decode_utf8(raw(*path)),
        !valid_utf8(raw(*path)) ==> r@ == replaced(raw(*path)),
        forall|i: int|
            0 <= i < r@.len() && (#[trigger] r@[i] as int) < 0x80 ==> raw(*path).contains(
                r@[i] as u8,
            ),
{
    path.to_string_lossy().into_owned()
}

/// Calls `Path::to_str`: the text of the path, where it is Unicode text.
#[verifier::external_body]
pub(crate) fn unicode_text(path: &PathBuf) -> (r: Option<String>)
    ensures
        opt_text(r) == unicode(Some(raw(*path))),
{
    match path.to_str() {
        Some(text) => Some(text.to_owned()),
        None => None,
    }
}

/// The path that `Path::join` makes of a base and what is adjoined to it.
pub uninterp spec fn joined(base: Seq<u8>, rest: Seq<u8>) -> Seq<u8>;

/// The last component of a path, where it is a normal one, as `Path::file_name` finds it.
pub uninterp spec fn file_name_of(path: Seq<u8>) -> Option<Seq<u8>>;

/// The path without its last component, as `Path::parent` finds it.
pub uninterp spec fn parent_of(path: Seq<u8>) -> Option<Seq<u8>>;

/// Whether two paths are the same component by component, as `==` on `Path` finds it.
pub uninterp spec fn same_place(a: Seq<u8>, b: Seq<u8>) -> bool;

/// The name of something in a directory: it names no other directory, no drive, and
/// neither the directory itself nor its parent.
pub open spec fn is_simple_name(s: Seq<u8>) -> bool {
    &&& s.len() > 0
    &&& s != seq!['.' as u8]
    &&& s != seq!['.' as u8, '.' as u8]
    &&& forall|i: int|
        0 <= i < s.len() ==> #[trigger] s[i] != '/' as u8 && s[i] != '\\' as u8 && s[i]
            != ':' as u8
}

/// A path that no system takes to begin with a drive, a share or a device.
pub open spec fn is_plain_base(s: Seq<u8>) -> bool {
    &&& !(s.len() >= 2 && s[0] == '/' as u8 && s[1] == '/' as u8)
    &&& forall|i: int| 0 <= i < s.len() ==> #[trigger] s[i] != '\\' as u8 && s[i] != ':' as u8
}

/// `whole` ends in `part`.
pub open spec fn ends_with(whole: Seq<u8>, part: Seq<u8>) -> bool {
    part.len() <= whole.len() && whole.skip(whole.len() - part.len()) == part
}

/// Where `name` is a simple name, `path` ends in it; and where `dir` is a plain base too,
/// `name` is the file name of `path` and its parent is the directory `dir`.
pub open spec fn lies_in(path: Seq<u8>, dir: Seq<u8>, name: Seq<u8>) -> bool {
    is_simple_name(name) ==> {
        &&& ends_with(path, name)
        &&& is_plain_base(dir) ==> {
            &&& file_name_of(path) == Some(name)
            &&& parent_of(path) matches Some(parent) && same_place(parent, dir) && is_plain_base(
                parent,
            )
        }
    }
}

/// Calls `Path::join`. The result depends on the two paths alone. A simple name that is
/// adjoined stands at the end of the result; in a plain base it is the file name of the
/// result, whose parent is the base, and plain too.
#[verifier::external_body]
pub(crate) fn join(base: &PathBuf, rest: &PathBuf) -> (r: PathBuf)
    ensures
        raw(r) == joined(raw(*base), raw(*rest)),
        lies_in(raw(r), raw(*base), raw(*rest)),
{
    base.join(rest)
}

/// Calls `Path::file_name`. The result depends on the path alone.
#[verifier::external_body]
pub(crate) fn file_name(path: &PathBuf) -> (r: Option<PathBuf>)
    ensures
        opt_raw(r) == file_name_of(raw(*path)),
{
    match path.file_name() {
        Some(name) => Some(PathBuf::from(name)),
        None => None,
    }
}

/// Calls `Path::parent`. The result depends on the path alone.
#[verifier::external_body]
pub(crate) fn parent(path: &PathBuf) -> (r: Option<PathBuf>)
    ensures
        opt_raw(r) == parent_of(raw(*path)),
{
    match path.parent() {
        Some(dir) => Some(dir.to_path_buf()),
        None => None,
    }
}

/// Calls `==` on two `PathBuf`s. The result depends on the two paths alone; a path equals
/// itself.
#[verifier::external_body]
pub(crate) fn same_path(a: &PathBuf, b: &PathBuf) -> (r: bool)
    ensures
        r == same_place(raw(*a), raw(*b)),
        raw(*a) == raw(*b) ==> r,
{
    a == b
}

/// The place of the last dot in a file name; -1 where there is none.
pub open spec fn last_dot(name: Seq<u8>) -> int
    decreases name.len(),
{
    if name.len() == 0 {
        -1
    } else if name.last() == '.' as u8 {
        name.len() - 1
    } else {
        last_dot(name.drop_last())
    }
}

/// Whether a file name has an extension: a dot that is not its first character.
pub open spec fn has_extension(name: Seq<u8>) -> bool {
    last_dot(name) > 0
}

/// The part of a file name before its last dot, or all of it where it has no extension.
pub open spec fn stem(name: Seq<u8>) -> Seq<u8> {
    if has_extension(name) {
        name.take(last_dot(name))
    } else {
        name
    }
}

/// The part of a file name behind its last dot, where it has an extension.
pub open spec fn extension(name: Seq<u8>) -> Option<Seq<u8>> {
    if has_extension(name) {
        Some(name.skip(last_dot(name) + 1))
    } else {
        None
    }
}

/// The stem of the file name of a path, where it has one.
pub open spec fn stem_of(path: Seq<u8>) -> Option<Seq<u8>> {
    match file_name_of(path) {
        Some(name) => Some(stem(name)),
        None => None,
    }
}

/// The extension of the file name of a path, where it has one.
pub open spec fn extension_of(path: Seq<u8>) -> Option<Seq<u8>> {
    match file_name_of(path) {
        Some(name) => extension(name),
        None => None,
    }
}

/// Calls `Path::file_stem`: the part of the file name before its last dot, or all of it
/// where it has no dot but as its first character.
#[verifier::external_body]
pub(crate) fn file_stem(path: &PathBuf) -> (r: Option<PathBuf>)
    ensures
        opt_raw(r) == stem_of(raw(*path)),
{
    match path.file_stem() {
        Some(name) => Some(PathBuf::from(name)),
        None => None,
    }
}

/// Calls `Path::extension`: the part of the file name behind its last dot, where it has a
/// dot that is not its first character.
#[verifier::external_body]
pub(crate) fn file_extension(path: &PathBuf) -> (r: Option<PathBuf>)
    ensures
        opt_raw(r) == extension_of(raw(*path)),
{
    match path.extension() {
        Some(name) => Some(PathBuf::from(name)),
        None => None,
    }
}

/// Calls `dirs::home_dir`: the home directory of the user, as the environment and the
/// user database give it at the time of the call. Nothing is claimed of which directory
/// that is, nor of whether there is one.
#[verifier::external_body]
pub(crate) fn home_dir() -> (r: Option<PathBuf>) {
    dirs::home_dir()
}

/// A non-empty name made of lower-case ASCII letters.
pub open spec fn is_plain_name(s: Seq<char>) -> bool {
    s.len() > 0 && forall|i: int| 0 <= i < s.len() ==> 'a' as int <= #[trigger] s[i] as int <= 'z' as int
}

/// `dir` is the directory of a project in the directory `base` of the user. What it is
/// called depends on the system: after the application alone; after all three names, with
/// dots between them; or after the organization and the application, one in the other,
/// with a directory `leaf` for this kind of file in it.
pub open spec fn is_project_dir_in(
    dir: Seq<u8>,
    base: Seq<u8>,
    qualifier: Seq<char>,
    organization: Seq<char>,
    application: Seq<char>,
    leaf: Seq<char>,
) -> bool {
    ||| dir == joined(base, encode_utf8(application))
    ||| dir == joined(base, encode_utf8(qualifier + "."@ + organization + "."@ + application))
    ||| dir == joined(
        joined(base, joined(encode_utf8(organization), encode_utf8(application))),
        encode_utf8(leaf),
    )
}

/// `dir` is the directory of a project in some directory of the user.
pub open spec fn is_project_dir(
    dir: Seq<u8>,
    qualifier: Seq<char>,
    organization: Seq<char>,
    application: Seq<char>,
    leaf: Seq<char>,
) -> bool {
    exists|base: Seq<u8>| #[trigger]
        is_project_dir_in(dir, base, qualifier, organization, application, leaf)
}

/// Calls `ProjectDirs::from` and `ProjectDirs::config_dir`: where the system wants the
/// configuration of the application to be, by the environment at the time of the call. The
/// directory of the user that it is in rests on the environment and is left open, and so is
/// whether there is one: `None` where the system tells no home directory.
#[verifier::external_body]
pub(crate) fn project_config_dir(qualifier: &str, organization: &str, application: &str) -> (r:
    Option<PathBuf>)
    ensures
        r matches Some(dir) ==> is_plain_name(qualifier@) && is_plain_name(organization@)
            && is_plain_name(application@) ==> is_project_dir(
            raw(dir),
            qualifier@,
            organization@,
            application@,
            "config"@,
        ),
{
    match directories::ProjectDirs::from(qualifier, organization, application) {
        Some(project) => Some(project.config_dir().to_path_buf()),
        None => None,
    }
}

/// Calls `ProjectDirs::from` and `ProjectDirs::data_dir`: where the system wants the data
/// of the application to be; all else as with `project_config_dir`.
#[verifier::external_body]
pub(crate) fn project_data_dir(qualifier: &str, organization: &str, application: &str) -> (r:
    Option<PathBuf>)
    ensures
        r matches Some(dir) ==> is_plain_name(qualifier@) && is_plain_name(organization@)
            && is_plain_name(application@) ==> is_project_dir(
            raw(dir),
            qualifier@,
            organization@,
            application@,
            "data"@,
        ),
{
    match directories::ProjectDirs::from(qualifier, organization, application) {
        Some(project) => Some(project.data_dir().to_path_buf()),
        None => None,
    }
}

/// A path that is Unicode text is shown, and read, as that text; and one that is not is not
/// taken for text.
pub proof fn text_of_a_path_is_its_text(text: Seq<char>, other: Seq<u8>)
    ensures
        shown(encode_utf8(text)) == text,
        lossy(encode_utf8(text)) == text,
        unicode(Some(encode_utf8(text))) == Some(text),
        !valid_utf8(other) ==> unicode(Some(other)) is None && shown(other) == displayed(other)
            && lossy(other) == replaced(other),
        unicode(None) is None,
{
    encode_utf8_valid_utf8(text);
    encode_utf8_decode_utf8(text);
}

} // verus!
