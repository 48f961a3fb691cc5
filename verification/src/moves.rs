//! Where a file is moved to, so that nothing is overwritten.
use std::path::PathBuf;
use vstd::prelude::*;
use vstd::utf8::{
    decode_utf8_encode_utf8, encode_scalar, encode_utf8, encode_utf8_decode_utf8,
    encode_utf8_valid_utf8, is_ascii_chars, is_ascii_chars_encode_utf8,
    is_char_boundary_iff_is_leading_byte, is_leading_byte_width_1, pop_first_scalar, valid_utf8,
    valid_utf8_split,
};
use crate::number::{decimal, decimal_is_injective, decimal_reads_back, decimal_text, is_digit};
use crate::paths::{
    extension, file_extension, file_name, file_name_of, file_stem, has_extension, is_plain_base,
    is_simple_name, join, joined, last_dot, lies_in, lossy, lossy_text, opt_text, parent, parent_of,
    path_from, raw, same_place, stem, text_of_a_path_is_its_text,
};

verus! {

/// The two parts of a file name that its last dot separates, as text.
pub struct NameParts {
    pub stem: String,
    pub extension: Option<String>,
}

/// The parts of a file name as values.
pub struct NamePartsView {
    pub stem: Seq<char>,
    pub extension: Option<Seq<char>>,
}

impl View for NameParts {
    type V = NamePartsView;

    open spec fn view(&self) -> NamePartsView {
        NamePartsView { stem: self.stem@, extension: opt_text(self.extension) }
    }
}

/// The parts of a file name, with what is not Unicode text replaced.
pub open spec fn parts_of(name: Seq<u8>) -> NamePartsView {
    NamePartsView {
        stem: lossy(stem(name)),
        extension: match extension(name) {
            Some(e) => Some(lossy(e)),
            None => None,
        },
    }
}

/// What is put behind the number of a new name: the dot and the extension, where there is
/// one.
pub open spec fn dot_extension(ext: Option<Seq<char>>) -> Seq<char> {
    match ext {
        Some(e) => seq!['.'] + e,
        None => Seq::empty(),
    }
}

/// The name for the `i`-th attempt to find a name that is not taken: the number in
/// brackets behind the stem, and the extension behind it.
pub open spec fn numbered_name(parts: NamePartsView, i: nat) -> Seq<char> {
    parts.stem + seq!['('] + decimal(i) + seq![')'] + dot_extension(parts.extension)
}

/// The name for the `i`-th attempt as the last component of a path.
pub open spec fn attempt(parts: NamePartsView, i: nat) -> Seq<u8> {
    encode_utf8(numbered_name(parts, i))
}

/// The path for the `i`-th attempt.
pub open spec fn candidate(dir: Seq<u8>, parts: NamePartsView, i: nat) -> Seq<u8> {
    joined(dir, attempt(parts, i))
}

/// Asked whether a path exists, `is_taken` may answer so.
pub open spec fn answered<F: Fn(&PathBuf) -> bool>(
    is_taken: F,
    path: Seq<u8>,
    answer: bool,
) -> bool {
    exists|p: &PathBuf| raw(*p) == path && #[trigger] is_taken.ensures((p,), answer)
}

/// The first `n` attempts were said to exist.
pub open spec fn taken_before<F: Fn(&PathBuf) -> bool>(
    is_taken: F,
    dir: Seq<u8>,
    parts: NamePartsView,
    n: nat,
) -> bool {
    forall|j: nat| 1 <= j <= n ==> answered(is_taken, #[trigger] candidate(dir, parts, j), true)
}

/// `path` is the first of the attempts that was said not to exist. It lies in `dir`, under
/// the name for that attempt.
pub open spec fn first_free<F: Fn(&PathBuf) -> bool>(
    is_taken: F,
    dir: Seq<u8>,
    parts: NamePartsView,
    path: Seq<u8>,
) -> bool {
    exists|i: nat|
        1 <= i <= i32::MAX && path == #[trigger] candidate(dir, parts, i) && lies_in(
            path,
            dir,
            attempt(parts, i),
        ) && answered(is_taken, path, false) && taken_before(is_taken, dir, parts, (i - 1) as nat)
}

/// The name for the `i`-th attempt.
fn numbered_text(parts: &NameParts, i: i32) -> (r: String)
    requires
        i >= 0,
    ensures
        r@ == numbered_name(parts@, i as nat),
{
    let mut r = parts.stem.clone();
    r.push('(');
    r.append(decimal_text(i as u64).as_str());
    r.push(')');
    match &parts.extension {
        Some(e) => {
            r.push('.');
            r.append(e.as_str());
        },
        None => {},
    }
    assert(r@ =~= numbered_name(parts@, i as nat));
    r
}

/// A path in `dir` that is not taken, with a number behind the stem of the name: the first
/// attempt of which `is_taken` says that it is not there. `None` where every attempt is
/// taken.
pub fn unique_path_in<F: Fn(&PathBuf) -> bool>(dir: &PathBuf, parts: &NameParts, is_taken: &F) -> (r:
    Option<PathBuf>)
    requires
        forall|p: &PathBuf| is_taken.requires((p,)),
    ensures
        match r {
            Some(path) => first_free(*is_taken, raw(*dir), parts@, raw(path)),
            None => taken_before(*is_taken, raw(*dir), parts@, i32::MAX as nat),
        },
{
    let mut i: i32 = 1;
    loop
        invariant
            1 <= i,
            forall|p: &PathBuf| is_taken.requires((p,)),
            taken_before(*is_taken, raw(*dir), parts@, (i - 1) as nat),
        decreases i32::MAX - i,
    {
        let name = path_from(numbered_text(parts, i).as_str());
        let path = join(dir, &name);
        let found = is_taken(&path);
        assert(answered(*is_taken, raw(path), found));
        assert(raw(path) == candidate(raw(*dir), parts@, i as nat));
        if !found {
            return Some(path);
        }
        if i == i32::MAX {
            return None;
        }
        i += 1;
    }
}

/// Why no path that is not taken was found.
#[derive(Debug, PartialEq, Eq, Structural)]
pub enum NoUniquePath {
    /// The path does not end in the name of a file.
    NoFileName,
    /// Every attempt is taken.
    Exhausted,
}

/// Every attempt for a file of the given name is again the name of something in a
/// directory.
pub open spec fn attempts_are_simple(name: Seq<u8>) -> bool {
    forall|i: nat| is_simple_name(#[trigger] attempt(parts_of(name), i))
}

/// A path beside `path` that is not taken, with a number behind the stem of its name.
pub fn find_unique_path<F: Fn(&PathBuf) -> bool>(path: &PathBuf, is_taken: &F) -> (r: Result<
    PathBuf,
    NoUniquePath,
>)
    requires
        forall|p: &PathBuf| is_taken.requires((p,)),
    ensures
        match (file_name_of(raw(*path)), parent_of(raw(*path))) {
            (Some(name), Some(dir)) => {
                &&& is_simple_name(name) ==> attempts_are_simple(name)
                &&& match r {
                    Ok(free) => first_free(*is_taken, dir, parts_of(name), raw(free)),
                    Err(e) => e == NoUniquePath::Exhausted && taken_before(
                        *is_taken,
                        dir,
                        parts_of(name),
                        i32::MAX as nat,
                    ),
                }
            },
            _ => r == Err::<PathBuf, NoUniquePath>(NoUniquePath::NoFileName),
        },
{
    match (file_stem(path), parent(path)) {
        (Some(front), Some(dir)) => {
            let ghost name = file_name_of(raw(*path))->0;
            let stem_text = lossy_text(&front);
            let ext_text = match file_extension(path) {
                Some(ext) => {
                    let text = lossy_text(&ext);
                    proof {
                        lemma_parts(name);
                        if is_simple_name(name) {
                            lemma_no_separator(name, extension(name)->0, text@);
                        }
                    }
                    Some(text)
                },
                None => None,
            };
            let parts = NameParts { stem: stem_text, extension: ext_text };
            proof {
                lemma_parts(name);
                assert(parts@ == parts_of(name));
                if is_simple_name(name) {
                    lemma_no_separator(name, stem(name), stem_text@);
                    assert forall|i: nat| is_simple_name(#[trigger] attempt(parts_of(name), i)) by {
                        attempts_are_names(parts_of(name), i);
                    }
                }
            }
            match unique_path_in(&dir, &parts, is_taken) {
                Some(free) => Ok(free),
                None => Err(NoUniquePath::Exhausted),
            }
        },
        _ => Err(NoUniquePath::NoFileName),
    }
}

/// Where a file goes.
pub enum Target {
    /// To its own name in the folder.
    Own(PathBuf),
    /// To another name, since its own is taken.
    Renamed(PathBuf),
}

impl Target {
    pub open spec fn path(self) -> Seq<u8> {
        match self {
            Target::Own(p) => raw(p),
            Target::Renamed(p) => raw(p),
        }
    }
}

/// `path` has the name for some attempt for a file of the given name, and its parent is the
/// same place as a folder that is the same place as `dir`.
pub open spec fn is_numbered_in(path: Seq<u8>, dir: Seq<u8>, name: Seq<u8>) -> bool {
    exists|i: nat, folder: Seq<u8>|
        file_name_of(path) == Some(#[trigger] attempt(parts_of(name), i)) && #[trigger] same_place(
            folder,
            dir,
        ) && (parent_of(path) matches Some(parent) && same_place(parent, folder))
}

/// Where the file `src` goes in the folder `dest_dir`: to its own name where that is not
/// taken, else to a numbered one. It lies in the folder then, under its own name or one
/// that is made from it, where the folder is a plain base and the name a simple one.
pub fn move_target<F: Fn(&PathBuf) -> bool>(src: &PathBuf, dest_dir: &PathBuf, is_taken: &F) -> (r:
    Result<Target, NoUniquePath>)
    requires
        forall|p: &PathBuf| is_taken.requires((p,)),
    ensures
        match file_name_of(raw(*src)) {
            None => r == Err::<Target, NoUniquePath>(NoUniquePath::NoFileName),
            Some(own) => {
                let dest = joined(raw(*dest_dir), own);
                &&& lies_in(dest, raw(*dest_dir), own)
                &&& match r {
                    Ok(Target::Own(p)) => raw(p) == dest && answered(*is_taken, dest, false),
                    Ok(Target::Renamed(p)) => answered(*is_taken, dest, true) && match (
                        file_name_of(dest),
                        parent_of(dest),
                    ) {
                        (Some(name), Some(dir)) => first_free(
                            *is_taken,
                            dir,
                            parts_of(name),
                            raw(p),
                        ),
                        _ => false,
                    },
                    Err(NoUniquePath::Exhausted) => answered(*is_taken, dest, true) && match (
                        file_name_of(dest),
                        parent_of(dest),
                    ) {
                        (Some(name), Some(dir)) => taken_before(
                            *is_taken,
                            dir,
                            parts_of(name),
                            i32::MAX as nat,
                        ),
                        _ => false,
                    },
                    Err(NoUniquePath::NoFileName) => answered(*is_taken, dest, true) && (
                    file_name_of(dest) is None || parent_of(dest) is None),
                }
            },
        },
        r matches Ok(target) ==> answered(*is_taken, target.path(), false),
        file_name_of(raw(*src)) matches Some(own) ==> is_simple_name(own) && is_plain_base(
            raw(*dest_dir),
        ) ==> match r {
            Ok(Target::Own(p)) => {
                &&& file_name_of(raw(p)) == Some(own)
                &&& parent_of(raw(p)) matches Some(parent) && same_place(parent, raw(*dest_dir))
            },
            Ok(Target::Renamed(p)) => is_numbered_in(raw(p), raw(*dest_dir), own),
            Err(e) => e == NoUniquePath::Exhausted,
        },
{
    match file_name(src) {
        None => Err(NoUniquePath::NoFileName),
        Some(own) => {
            let dest = join(dest_dir, &own);
            let found = is_taken(&dest);
            assert(answered(*is_taken, raw(dest), found));
            if found {
                match find_unique_path(&dest, is_taken) {
                    Ok(free) => {
                        proof {
                            if is_simple_name(raw(own)) && is_plain_base(raw(*dest_dir)) {
                                lemma_numbered_in(
                                    *is_taken,
                                    parent_of(raw(dest))->0,
                                    raw(*dest_dir),
                                    raw(own),
                                    raw(free),
                                );
                            }
                        }
                        Ok(Target::Renamed(free))
                    },
                    Err(e) => Err(e),
                }
            } else {
                Ok(Target::Own(dest))
            }
        },
    }
}

/// The first attempt that is free lies in the directory.
proof fn lemma_numbered_in<F: Fn(&PathBuf) -> bool>(
    is_taken: F,
    folder: Seq<u8>,
    dir: Seq<u8>,
    name: Seq<u8>,
    path: Seq<u8>,
)
    requires
        is_plain_base(folder),
        same_place(folder, dir),
        attempts_are_simple(name),
        first_free(is_taken, folder, parts_of(name), path),
    ensures
        is_numbered_in(path, dir, name),
{
    let i = choose|i: nat|
        path == #[trigger] candidate(folder, parts_of(name), i) && lies_in(
            path,
            folder,
            attempt(parts_of(name), i),
        );
    assert(is_simple_name(attempt(parts_of(name), i)));
}

/// `is_taken` tells which paths are taken: those of the given set.
pub open spec fn tells<F: Fn(&PathBuf) -> bool>(is_taken: F, taken: Set<Seq<u8>>) -> bool {
    forall|p: &PathBuf, answer: bool| #[trigger]
        is_taken.ensures((p,), answer) ==> answer == taken.contains(raw(*p))
}

/// Nothing is overwritten: a path that a file goes to was not taken. And of two files that
/// are moved one after the other, the second does not go to where the first went.
pub proof fn moves_overwrite_nothing<F: Fn(&PathBuf) -> bool, G: Fn(&PathBuf) -> bool>(
    taken: Set<Seq<u8>>,
    first: F,
    first_path: Seq<u8>,
    second: G,
    second_path: Seq<u8>,
)
    requires
        tells(first, taken),
        answered(first, first_path, false),
        tells(second, taken.insert(first_path)),
        answered(second, second_path, false),
    ensures
        !taken.contains(first_path),
        !taken.contains(second_path),
        first_path != second_path,
{
}

/// The last dot is a dot, and none follows it.
proof fn lemma_last_dot(name: Seq<u8>)
    ensures
        -1 <= last_dot(name) < name.len(),
        last_dot(name) >= 0 ==> name[last_dot(name)] == '.' as u8,
        forall|i: int| last_dot(name) < i < name.len() ==> name[i] != '.' as u8,
    decreases name.len(),
{
    if name.len() > 0 && name.last() != '.' as u8 {
        lemma_last_dot(name.drop_last());
        assert forall|i: int| last_dot(name) < i < name.len() implies name[i] != '.' as u8 by {
            if i < name.len() - 1 {
                assert(name.drop_last()[i] == name[i]);
            }
        }
    }
}

/// A dot that no other dot follows is the last one.
proof fn lemma_last_dot_is(name: Seq<u8>, at: int)
    requires
        -1 <= at < name.len(),
        at >= 0 ==> name[at] == '.' as u8,
        forall|i: int| at < i < name.len() ==> name[i] != '.' as u8,
    ensures
        last_dot(name) == at,
{
    lemma_last_dot(name);
}

/// What follows the stem of a file name: the dot and the extension, where there is one.
pub open spec fn dot_bytes(ext: Option<Seq<u8>>) -> Seq<u8> {
    match ext {
        Some(e) => seq!['.' as u8] + e,
        None => Seq::empty(),
    }
}

/// A file name is its stem, and its extension with the dot before it.
pub proof fn name_is_stem_and_extension(name: Seq<u8>)
    ensures
        stem(name) + dot_bytes(extension(name)) == name,
{
    lemma_last_dot(name);
    assert(stem(name) + dot_bytes(extension(name)) =~= name);
}

/// The parts of a file name have no byte that the name has not; and where the name is
/// Unicode text, they are too.
proof fn lemma_parts(name: Seq<u8>)
    ensures
        forall|b: u8| #[trigger] stem(name).contains(b) ==> name.contains(b),
        extension(name) matches Some(e) ==> forall|b: u8| #[trigger]
            e.contains(b) ==> name.contains(b),
        valid_utf8(name) ==> valid_utf8(stem(name)),
        valid_utf8(name) ==> (extension(name) matches Some(e) ==> valid_utf8(e)),
{
    lemma_last_dot(name);
    assert forall|b: u8| #[trigger] stem(name).contains(b) implies name.contains(b) by {
        let k = choose|k: int| 0 <= k < stem(name).len() && stem(name)[k] == b;
        assert(name[k] == b);
    }
    if has_extension(name) {
        let at = last_dot(name);
        let e = extension(name)->0;
        assert forall|b: u8| #[trigger] e.contains(b) implies name.contains(b) by {
            let k = choose|k: int| 0 <= k < e.len() && e[k] == b;
            assert(name[at + 1 + k] == b);
        }
        if valid_utf8(name) {
            assert(is_leading_byte_width_1(name[at]));
            is_char_boundary_iff_is_leading_byte(name, at);
            valid_utf8_split(name, at);
            assert(name.subrange(0, at) =~= stem(name));
            let rest = name.subrange(at, name.len() as int);
            assert(rest[0] == name[at]);
            assert(pop_first_scalar(rest) =~= e);
        }
    }
}

/// A text whose ASCII characters are bytes of a simple name holds nothing that separates
/// components.
proof fn lemma_no_separator(name: Seq<u8>, part: Seq<u8>, text: Seq<char>)
    requires
        is_simple_name(name),
        forall|b: u8| #[trigger] part.contains(b) ==> name.contains(b),
        forall|i: int|
            0 <= i < text.len() && (#[trigger] text[i] as int) < 0x80 ==> part.contains(
                text[i] as u8,
            ),
    ensures
        has_no_separator(text),
{
    assert forall|i: int| 0 <= i < text.len() implies #[trigger] text[i] != '/' && text[i] != '\\'
        && text[i] != ':' by {
        if (text[i] as int) < 0x80 {
            assert(name.contains(text[i] as u8));
        }
    }
}

/// The text holds nothing that separates the components of a path.
pub open spec fn has_no_separator(text: Seq<char>) -> bool {
    forall|i: int|
        0 <= i < text.len() ==> #[trigger] text[i] != '/' && text[i] != '\\' && text[i] != ':'
}

/// Texts that follow each other are encoded one behind the other.
proof fn lemma_encode_concat(a: Seq<char>, b: Seq<char>)
    ensures
        encode_utf8(a + b) == encode_utf8(a) + encode_utf8(b),
    decreases a.len(),
{
    if a.len() == 0 {
        assert(a + b =~= b);
        assert(encode_utf8(a) + encode_utf8(b) =~= encode_utf8(b));
    } else {
        lemma_encode_concat(a.drop_first(), b);
        assert((a + b).drop_first() =~= a.drop_first() + b);
        assert((a + b)[0] == a[0]);
        assert(encode_utf8(a + b) =~= encode_utf8(a) + encode_utf8(b));
    }
}

/// An ASCII byte of an encoded character is that character.
proof fn lemma_ascii_scalar(c: char, k: int)
    requires
        0 <= k < encode_scalar(c as u32).len(),
        encode_scalar(c as u32)[k] < 0x80,
    ensures
        c as int == encode_scalar(c as u32)[k],
{
    let n = c as u32;
    assert(n <= 0x7f ==> ((n & 0x7F) as u8) as u32 == n) by (bit_vector);
    assert(0xC0u8 | ((n >> 6) & 0x1F) as u8 >= 0x80u8) by (bit_vector);
    assert(0xE0u8 | ((n >> 12) & 0x0F) as u8 >= 0x80u8) by (bit_vector);
    assert(0xF0u8 | ((n >> 18) & 0x7) as u8 >= 0x80u8) by (bit_vector);
    assert(0x80u8 | (n & 0x3F) as u8 >= 0x80u8) by (bit_vector);
    assert(0x80u8 | ((n >> 6) & 0x3F) as u8 >= 0x80u8) by (bit_vector);
    assert(0x80u8 | ((n >> 12) & 0x3F) as u8 >= 0x80u8) by (bit_vector);
}

/// An ASCII byte of an encoded text is one of its characters.
proof fn lemma_ascii_byte(text: Seq<char>, k: int)
    requires
        0 <= k < encode_utf8(text).len(),
        encode_utf8(text)[k] < 0x80,
    ensures
        exists|i: int| 0 <= i < text.len() && #[trigger] text[i] as int == encode_utf8(text)[k],
    decreases text.len(),
{
    let first = encode_scalar(text[0] as u32);
    let rest = encode_utf8(text.drop_first());
    assert(encode_utf8(text) == first + rest);
    if k < first.len() {
        lemma_ascii_scalar(text[0], k);
    } else {
        let m = k - first.len();
        assert(encode_utf8(text)[k] == rest[m]);
        lemma_ascii_byte(text.drop_first(), m);
        let i = choose|i: int|
            0 <= i < text.drop_first().len() && #[trigger] text.drop_first()[i] as int == rest[m];
        assert(text[i + 1] as int == encode_utf8(text)[k]);
    }
}

/// The number in its brackets.
spec fn in_brackets(i: nat) -> Seq<char> {
    seq!['('] + decimal(i) + seq![')']
}

/// What stands in brackets is ASCII text without a dot.
proof fn lemma_in_brackets(i: nat)
    ensures
        encode_utf8(in_brackets(i)).len() > 2,
        forall|k: int|
            0 <= k < encode_utf8(in_brackets(i)).len() ==> #[trigger] encode_utf8(in_brackets(i))[k]
                != '.' as u8,
{
    let text = in_brackets(i);
    decimal_reads_back(i);
    assert forall|k: int| 0 <= k < text.len() implies '\0' <= #[trigger] text[k] <= '\u{7f}'
        && text[k] != '.' by {
        if 0 < k < text.len() - 1 {
            assert(text[k] == decimal(i)[k - 1]);
            assert(is_digit(decimal(i)[k - 1]));
        }
    }
    assert(is_ascii_chars(text));
    is_ascii_chars_encode_utf8(text);
}

/// The bytes of an attempt: those of the stem, of the number in its brackets, and of the
/// dot and the extension.
proof fn lemma_attempt(parts: NamePartsView, i: nat)
    ensures
        attempt(parts, i) == encode_utf8(parts.stem) + encode_utf8(in_brackets(i)) + dot_bytes(
            match parts.extension {
                Some(e) => Some(encode_utf8(e)),
                None => None,
            },
        ),
{
    let end = dot_extension(parts.extension);
    assert(numbered_name(parts, i) =~= parts.stem + in_brackets(i) + end);
    lemma_encode_concat(parts.stem + in_brackets(i), end);
    lemma_encode_concat(parts.stem, in_brackets(i));
    match parts.extension {
        Some(e) => {
            lemma_encode_concat(seq!['.'], e);
            assert(is_ascii_chars(seq!['.']));
            is_ascii_chars_encode_utf8(seq!['.']);
            assert(encode_utf8(seq!['.']) =~= seq!['.' as u8]);
        },
        None => {
            assert(encode_utf8(end) =~= Seq::<u8>::empty());
        },
    }
}

/// A numbered name that is made of texts without separators is again the name of something
/// in a directory.
pub proof fn attempts_are_names(parts: NamePartsView, i: nat)
    requires
        has_no_separator(parts.stem),
        parts.extension matches Some(e) ==> has_no_separator(e),
    ensures
        is_simple_name(attempt(parts, i)),
{
    let bytes = attempt(parts, i);
    let text = numbered_name(parts, i);
    lemma_attempt(parts, i);
    lemma_in_brackets(i);
    decimal_reads_back(i);
    assert(text =~= parts.stem + in_brackets(i) + dot_extension(parts.extension));
    assert forall|k: int| 0 <= k < text.len() implies #[trigger] text[k] != '/' && text[k] != '\\'
        && text[k] != ':' by {
        let n = parts.stem.len();
        let m = in_brackets(i).len();
        if k < n {
            assert(text[k] == parts.stem[k]);
        } else if k < n + m {
            assert(text[k] == in_brackets(i)[k - n]);
            if n < k < n + m - 1 {
                assert(text[k] == decimal(i)[k - n - 1]);
                assert(is_digit(decimal(i)[k - n - 1]));
            }
        } else if k > n + m {
            assert(text[k] == parts.extension->0[k - n - m - 1]);
        }
    }
    assert forall|k: int| 0 <= k < bytes.len() implies #[trigger] bytes[k] != '/' as u8 && bytes[k]
        != '\\' as u8 && bytes[k] != ':' as u8 by {
        if bytes[k] < 0x80 {
            lemma_ascii_byte(text, k);
        }
    }
}

/// Two attempts never get the same name.
pub proof fn attempts_get_different_names(parts: NamePartsView, i: nat, j: nat)
    requires
        i != j,
    ensures
        attempt(parts, i) != attempt(parts, j),
{
    let a = numbered_name(parts, i);
    let b = numbered_name(parts, j);
    encode_utf8_decode_utf8(a);
    encode_utf8_decode_utf8(b);
    if a == b {
        let at = parts.stem.len() + 1;
        let n = decimal(i).len();
        let rest = dot_extension(parts.extension).len();
        assert(a.len() == at + n + 1 + rest);
        assert(b.len() == at + decimal(j).len() + 1 + rest);
        assert(a.subrange(at as int, (at + n) as int) =~= decimal(i));
        assert(b.subrange(at as int, (at + n) as int) =~= decimal(j));
        decimal_is_injective(i, j);
    }
}

/// A numbered name is another name than the one it was made from.
pub proof fn numbered_name_is_new(name: Seq<u8>, i: nat)
    ensures
        attempt(parts_of(name), i) != name,
{
    let parts = parts_of(name);
    encode_utf8_valid_utf8(numbered_name(parts, i));
    if valid_utf8(name) {
        lemma_parts(name);
        lemma_attempt(parts, i);
        lemma_in_brackets(i);
        name_is_stem_and_extension(name);
        decode_utf8_encode_utf8(stem(name));
        if has_extension(name) {
            decode_utf8_encode_utf8(extension(name)->0);
        }
        assert(attempt(parts, i).len() > name.len());
    }
}

/// A numbered name keeps an extension that is Unicode text, so the file keeps its
/// category; and a name that is Unicode text and has no extension gets none.
pub proof fn numbered_name_keeps_the_extension(name: Seq<u8>, i: nat)
    requires
        match extension(name) {
            Some(e) => valid_utf8(e),
            None => valid_utf8(name),
        },
    ensures
        extension(attempt(parts_of(name), i)) == extension(name),
{
    let parts = parts_of(name);
    let new = attempt(parts, i);
    let front = encode_utf8(parts.stem) + encode_utf8(in_brackets(i));
    lemma_attempt(parts, i);
    lemma_in_brackets(i);
    lemma_last_dot(name);
    if has_extension(name) {
        let e = extension(name)->0;
        decode_utf8_encode_utf8(e);
        assert(new == front + (seq!['.' as u8] + e));
        assert(new[front.len() as int] == '.' as u8);
        assert forall|k: int| front.len() < k < new.len() implies new[k] != '.' as u8 by {
            assert(new[k] == e[k - front.len() - 1]);
        }
        lemma_last_dot_is(new, front.len() as int);
        assert(new.skip(front.len() as int + 1) =~= e);
    } else {
        decode_utf8_encode_utf8(name);
        assert(new =~= front);
        let at = last_dot(name);
        assert forall|k: int| at < k < new.len() implies new[k] != '.' as u8 by {
            if k < name.len() {
                assert(new[k] == name[k]);
            } else {
                assert(new[k] == encode_utf8(in_brackets(i))[k - name.len()]);
            }
        }
        if at >= 0 {
            assert(new[at] == name[at]);
        }
        lemma_last_dot_is(new, at);
    }
}

/// The extension of a file name is what follows its last dot, and the stem is what stands
/// before it, unless nothing does.
pub proof fn name_is_parted_at_its_last_dot(front: Seq<u8>, ext: Seq<u8>)
    requires
        front.len() > 0,
        forall|k: int| 0 <= k < ext.len() ==> #[trigger] ext[k] != '.' as u8,
    ensures
        stem(front + seq!['.' as u8] + ext) == front,
        extension(front + seq!['.' as u8] + ext) == Some(ext),
{
    let name = front + seq!['.' as u8] + ext;
    let at = front.len() as int;
    assert(name[at] == '.' as u8);
    assert forall|k: int| at < k < name.len() implies name[k] != '.' as u8 by {
        assert(name[k] == ext[k - at - 1]);
    }
    lemma_last_dot_is(name, at);
    assert(name.take(at) =~= front);
    assert(name.skip(at + 1) =~= ext);
}

/// A file name without a dot, or with none but as its first character, is its stem, and has
/// no extension.
pub proof fn name_without_a_dot_is_its_stem(name: Seq<u8>)
    requires
        forall|k: int| 1 <= k < name.len() ==> #[trigger] name[k] != '.' as u8,
    ensures
        stem(name) == name,
        extension(name) is None,
{
    if name.len() > 0 {
        lemma_last_dot_is(
            name,
            if name[0] == '.' as u8 {
                0
            } else {
                -1
            },
        );
    }
}

/// Text without a dot is encoded without one.
pub proof fn text_without_a_dot_has_no_such_byte(text: Seq<char>, from: int)
    requires
        0 <= from <= 1,
        forall|k: int| from <= k < text.len() ==> #[trigger] text[k] != '.',
    ensures
        forall|k: int|
            from <= k < encode_utf8(text).len() ==> #[trigger] encode_utf8(text)[k] != '.' as u8,
{
    let bytes = encode_utf8(text);
    assert forall|k: int| from <= k < bytes.len() implies #[trigger] bytes[k] != '.' as u8 by {
        if bytes[k] == '.' as u8 {
            if from == 1 && text.len() > 0 {
                let first = encode_scalar(text[0] as u32);
                let rest = text.drop_first();
                if k < first.len() {
                    lemma_ascii_scalar(text[0], k);
                    is_ascii_chars_encode_utf8(seq!['.']);
                    assert(first.len() == 1) by {
                        assert(text[0] == '.');
                        assert(('.' as u32) <= 0x7f);
                    }
                } else {
                    assert(bytes[k] == encode_utf8(rest)[k - first.len()]);
                    lemma_ascii_byte(rest, k - first.len());
                    let i = choose|i: int| 0 <= i < rest.len() && #[trigger] rest[i] as int == bytes[k];
                    assert(text[i + 1] == '.');
                }
            } else {
                lemma_ascii_byte(text, k);
            }
        }
    }
}

/// The path for an attempt is in the directory, under the whole stem, the number in
/// brackets, and the dot and the extension where there is one.
pub proof fn attempt_has_the_whole_name(
    dir: Seq<u8>,
    stem_text: Seq<char>,
    ext_text: Seq<char>,
    i: nat,
)
    ensures
        candidate(dir, NamePartsView { stem: stem_text, extension: Some(ext_text) }, i) == joined(
            dir,
            encode_utf8(stem_text + seq!['('] + decimal(i) + seq![')', '.'] + ext_text),
        ),
        candidate(dir, NamePartsView { stem: stem_text, extension: None }, i) == joined(
            dir,
            encode_utf8(stem_text + seq!['('] + decimal(i) + seq![')']),
        ),
{
    let front = stem_text + seq!['('] + decimal(i);
    assert(front + seq![')'] + (seq!['.'] + ext_text) =~= front + seq![')', '.'] + ext_text);
    assert(front + seq![')'] + Seq::<char>::empty() =~= front + seq![')']);
}

/// The parts of a name that is Unicode text are what stands before and behind its last dot.
proof fn lemma_parts_of_text(front: Seq<char>, ext: Seq<char>)
    requires
        front.len() > 0,
        forall|k: int| 0 <= k < ext.len() ==> #[trigger] ext[k] != '.',
    ensures
        parts_of(encode_utf8(front + seq!['.'] + ext)) == (NamePartsView {
            stem: front,
            extension: Some(ext),
        }),
        (forall|k: int| 1 <= k < front.len() ==> #[trigger] front[k] != '.') ==> parts_of(
            encode_utf8(front),
        ) == (NamePartsView { stem: front, extension: None }),
{
    let name = encode_utf8(front + seq!['.'] + ext);
    lemma_encode_concat(front + seq!['.'], ext);
    lemma_encode_concat(front, seq!['.']);
    assert(is_ascii_chars(seq!['.']));
    is_ascii_chars_encode_utf8(seq!['.']);
    assert(encode_utf8(seq!['.']) =~= seq!['.' as u8]);
    text_without_a_dot_has_no_such_byte(ext, 0);
    lemma_encode_not_empty(front);
    name_is_parted_at_its_last_dot(encode_utf8(front), encode_utf8(ext));
    text_of_a_path_is_its_text(front, name);
    text_of_a_path_is_its_text(ext, name);
    if forall|k: int| 1 <= k < front.len() ==> #[trigger] front[k] != '.' {
        text_without_a_dot_has_no_such_byte(front, 1);
        name_without_a_dot_is_its_stem(encode_utf8(front));
    }
}

/// The numbered name of a file whose name is Unicode text is that name with the number in
/// brackets before its last dot, or at its end where it has no extension; nothing of the
/// name is lost.
pub proof fn numbered_name_is_the_name_with_a_number(front: Seq<char>, ext: Seq<char>, i: nat)
    requires
        front.len() > 0,
        forall|k: int| 0 <= k < ext.len() ==> #[trigger] ext[k] != '.',
    ensures
        attempt(parts_of(encode_utf8(front + seq!['.'] + ext)), i) == encode_utf8(
            front + seq!['('] + decimal(i) + seq![')', '.'] + ext,
        ),
        (forall|k: int| 1 <= k < front.len() ==> #[trigger] front[k] != '.') ==> attempt(
            parts_of(encode_utf8(front)),
            i,
        ) == encode_utf8(front + seq!['('] + decimal(i) + seq![')']),
{
    lemma_parts_of_text(front, ext);
    let head = front + seq!['('] + decimal(i);
    assert(head + seq![')'] + (seq!['.'] + ext) =~= head + seq![')', '.'] + ext);
    assert(head + seq![')'] + Seq::<char>::empty() =~= head + seq![')']);
}

/// Text that is not empty is not encoded as nothing.
proof fn lemma_encode_not_empty(text: Seq<char>)
    requires
        text.len() > 0,
    ensures
        encode_utf8(text).len() > 0,
{
}

/// The numbered name of a file whose name is not Unicode text has the name's stem and
/// extension, each with what is not text replaced.
pub proof fn numbered_name_replaces_what_is_no_text(front: Seq<u8>, ext: Seq<u8>, i: nat)
    requires
        front.len() > 0,
        forall|k: int| 0 <= k < ext.len() ==> #[trigger] ext[k] != '.' as u8,
    ensures
        attempt(parts_of(front + seq!['.' as u8] + ext), i) == encode_utf8(
            lossy(front) + seq!['('] + decimal(i) + seq![')', '.'] + lossy(ext),
        ),
        (forall|k: int| 1 <= k < front.len() ==> #[trigger] front[k] != '.' as u8) ==> attempt(
            parts_of(front),
            i,
        ) == encode_utf8(lossy(front) + seq!['('] + decimal(i) + seq![')']),
{
    name_is_parted_at_its_last_dot(front, ext);
    let head = lossy(front) + seq!['('] + decimal(i);
    assert(head + seq![')'] + (seq!['.'] + lossy(ext)) =~= head + seq![')', '.'] + lossy(ext));
    if forall|k: int| 1 <= k < front.len() ==> #[trigger] front[k] != '.' as u8 {
        name_without_a_dot_is_its_stem(front);
        assert(head + seq![')'] + Seq::<char>::empty() =~= head + seq![')']);
    }
}

/// The first attempt that is free has the smallest number that is.
proof fn lemma_smallest_free<F: Fn(&PathBuf) -> bool>(
    is_taken: F,
    dir: Seq<u8>,
    parts: NamePartsView,
    taken: Set<Seq<u8>>,
    path: Seq<u8>,
)
    requires
        first_free(is_taken, dir, parts, path),
        forall|p: &PathBuf, answer: bool| #[trigger]
            is_taken.ensures((p,), answer) ==> answer == taken.contains(raw(*p)),
    ensures
        exists|i: nat|
            1 <= i <= i32::MAX && path == #[trigger] candidate(dir, parts, i) && !taken.contains(
                path,
            ) && forall|j: nat|
                1 <= j < i ==> taken.contains(#[trigger] candidate(dir, parts, j)),
{
    let i = choose|i: nat|
        1 <= i <= i32::MAX && path == #[trigger] candidate(dir, parts, i) && answered(
            is_taken,
            path,
            false,
        ) && taken_before(is_taken, dir, parts, (i - 1) as nat);
    assert forall|j: nat| 1 <= j < i implies taken.contains(#[trigger] candidate(dir, parts, j)) by {
        assert(answered(is_taken, candidate(dir, parts, j), true));
    }
}

/// Attempts that were said to be taken are taken.
proof fn lemma_all_taken<F: Fn(&PathBuf) -> bool>(
    is_taken: F,
    dir: Seq<u8>,
    parts: NamePartsView,
    taken: Set<Seq<u8>>,
    n: nat,
)
    requires
        taken_before(is_taken, dir, parts, n),
        forall|p: &PathBuf, answer: bool| #[trigger]
            is_taken.ensures((p,), answer) ==> answer == taken.contains(raw(*p)),
    ensures
        forall|j: nat| 1 <= j <= n ==> taken.contains(#[trigger] candidate(dir, parts, j)),
{
    assert forall|j: nat| 1 <= j <= n implies taken.contains(
        #[trigger] candidate(dir, parts, j),
    ) by {
        assert(answered(is_taken, candidate(dir, parts, j), true));
    }
}

/// Where `is_taken` tells which paths are taken, the path that is found is the attempt with
/// the smallest number that is not taken; and where none is found, all are taken.
pub proof fn smallest_free_number_is_found<F: Fn(&PathBuf) -> bool>(
    dir: &PathBuf,
    parts: &NameParts,
    is_taken: &F,
    taken: Set<Seq<u8>>,
    given: NamePartsView,
    r: Option<PathBuf>,
)
    requires
        given.stem == parts.stem@,
        given.extension is Some <==> parts.extension is Some,
        parts.extension matches Some(e) ==> given.extension->0 == e@,
        call_ensures(unique_path_in::<F>, (dir, parts, is_taken), r),
        forall|p: &PathBuf, answer: bool| #[trigger]
            is_taken.ensures((p,), answer) ==> answer == taken.contains(raw(*p)),
    ensures
        match r {
            Some(path) => exists|i: nat|
                1 <= i <= i32::MAX && raw(path) == #[trigger] candidate(raw(*dir), given, i)
                    && !taken.contains(raw(path)) && forall|j: nat|
                    1 <= j < i ==> taken.contains(#[trigger] candidate(raw(*dir), given, j)),
            None => forall|j: nat|
                1 <= j <= i32::MAX ==> taken.contains(#[trigger] candidate(raw(*dir), given, j)),
        },
{
    match r {
        Some(path) => lemma_smallest_free(*is_taken, raw(*dir), parts@, taken, raw(path)),
        None => lemma_all_taken(*is_taken, raw(*dir), parts@, taken, i32::MAX as nat),
    }
}

/// A file whose name is free in the folder keeps it, whatever the name. Where the name is
/// taken, the file goes beside the one that has it, under that name with the smallest number
/// that is free: the whole name, with the number in brackets before its last dot, or at its
/// end where it has no extension.
pub proof fn file_keeps_its_name_or_gets_a_number<F: Fn(&PathBuf) -> bool>(
    src: &PathBuf,
    dest_dir: &PathBuf,
    is_taken: &F,
    taken: Set<Seq<u8>>,
    front: Seq<char>,
    ext: Option<Seq<char>>,
    r: Result<Target, NoUniquePath>,
)
    requires
        call_ensures(move_target::<F>, (src, dest_dir, is_taken), r),
        forall|p: &PathBuf, answer: bool| #[trigger]
            is_taken.ensures((p,), answer) ==> answer == taken.contains(raw(*p)),
        file_name_of(raw(*src)) is Some,
    ensures
        ({
            let own = file_name_of(raw(*src))->0;
            let dest = joined(raw(*dest_dir), own);
            &&& !taken.contains(dest) ==> (r matches Ok(Target::Own(p)) && raw(p) == dest)
            &&& taken.contains(dest) ==> !(r matches Ok(Target::Own(_)))
            &&& taken.contains(dest) && is_simple_name(own) && is_plain_base(raw(*dest_dir))
                && front.len() > 0 && match ext {
                Some(e) => own == encode_utf8(front + seq!['.'] + e) && forall|k: int|
                    0 <= k < e.len() ==> #[trigger] e[k] != '.',
                None => own == encode_utf8(front) && forall|k: int|
                    1 <= k < front.len() ==> #[trigger] front[k] != '.',
            } ==> {
                let folder = parent_of(dest)->0;
                let parts = NamePartsView { stem: front, extension: ext };
                match r {
                    Ok(Target::Own(_)) => false,
                    Ok(Target::Renamed(p)) => exists|i: nat|
                        1 <= i <= i32::MAX && raw(p) == #[trigger] candidate(folder, parts, i)
                            && !taken.contains(raw(p)) && forall|j: nat|
                            1 <= j < i ==> taken.contains(#[trigger] candidate(folder, parts, j)),
                    Err(_) => forall|j: nat|
                        1 <= j <= i32::MAX ==> taken.contains(
                            #[trigger] candidate(folder, parts, j),
                        ),
                }
            }
        }),
{
    let own = file_name_of(raw(*src))->0;
    let dest = joined(raw(*dest_dir), own);
    if taken.contains(dest) && is_simple_name(own) && is_plain_base(raw(*dest_dir)) && front.len()
        > 0 && match ext {
        Some(e) => own == encode_utf8(front + seq!['.'] + e) && forall|k: int|
            0 <= k < e.len() ==> #[trigger] e[k] != '.',
        None => own == encode_utf8(front) && forall|k: int|
            1 <= k < front.len() ==> #[trigger] front[k] != '.',
    } {
        match ext {
            Some(e) => lemma_parts_of_text(front, e),
            None => lemma_parts_of_text(front, Seq::empty()),
        }
        let folder = parent_of(dest)->0;
        match r {
            Ok(target) => lemma_smallest_free(
                *is_taken,
                folder,
                parts_of(own),
                taken,
                target.path(),
            ),
            Err(_) => lemma_all_taken(*is_taken, folder, parts_of(own), taken, i32::MAX as nat),
        }
    }
}

/// A path that is taken gives way to one beside it, in its own parent directory: the whole
/// name with the smallest number that is free in brackets before its last dot, or at its end
/// where it has no extension. Only a path without a file name or a parent has none beside it.
pub proof fn free_path_is_beside_the_taken_one<F: Fn(&PathBuf) -> bool>(
    path: &PathBuf,
    is_taken: &F,
    taken: Set<Seq<u8>>,
    front: Seq<char>,
    ext: Option<Seq<char>>,
    r: Result<PathBuf, NoUniquePath>,
)
    requires
        call_ensures(find_unique_path::<F>, (path, is_taken), r),
        forall|p: &PathBuf, answer: bool| #[trigger]
            is_taken.ensures((p,), answer) ==> answer == taken.contains(raw(*p)),
    ensures
        r == Err::<PathBuf, NoUniquePath>(NoUniquePath::NoFileName) <==> file_name_of(
            raw(*path),
        ) is None || parent_of(raw(*path)) is None,
        front.len() > 0 && file_name_of(raw(*path)) is Some && parent_of(raw(*path)) is Some
            && match ext {
            Some(e) => file_name_of(raw(*path)) == Some(encode_utf8(front + seq!['.'] + e))
                && forall|k: int| 0 <= k < e.len() ==> #[trigger] e[k] != '.',
            None => file_name_of(raw(*path)) == Some(encode_utf8(front)) && forall|k: int|
                1 <= k < front.len() ==> #[trigger] front[k] != '.',
        } ==> {
            let dir = parent_of(raw(*path))->0;
            let parts = NamePartsView { stem: front, extension: ext };
            match r {
                Ok(free) => exists|i: nat|
                    1 <= i <= i32::MAX && raw(free) == #[trigger] candidate(dir, parts, i)
                        && !taken.contains(raw(free)) && forall|j: nat|
                        1 <= j < i ==> taken.contains(#[trigger] candidate(dir, parts, j)),
                Err(_) => forall|j: nat|
                    1 <= j <= i32::MAX ==> taken.contains(#[trigger] candidate(dir, parts, j)),
            }
        },
{
    if front.len() > 0 && file_name_of(raw(*path)) is Some && parent_of(raw(*path)) is Some
        && match ext {
        Some(e) => file_name_of(raw(*path)) == Some(encode_utf8(front + seq!['.'] + e))
            && forall|k: int| 0 <= k < e.len() ==> #[trigger] e[k] != '.',
        None => file_name_of(raw(*path)) == Some(encode_utf8(front)) && forall|k: int|
            1 <= k < front.len() ==> #[trigger] front[k] != '.',
    } {
        let dir = parent_of(raw(*path))->0;
        let parts = NamePartsView { stem: front, extension: ext };
        match ext {
            Some(e) => lemma_parts_of_text(front, e),
            None => lemma_parts_of_text(front, Seq::empty()),
        }
        match r {
            Ok(free) => lemma_smallest_free(*is_taken, dir, parts, taken, raw(free)),
            Err(_) => lemma_all_taken(*is_taken, dir, parts, taken, i32::MAX as nat),
        }
    }
}

} // verus!
