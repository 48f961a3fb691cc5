//! The extension map, and paths in the home directory.
use std::path::PathBuf;
use vstd::hash_map::StringHashMap;
use vstd::prelude::*;
use vstd::utf8::encode_utf8;
use crate::config::{Config, ExtensionGroup};
use crate::paths::{home_dir, join, joined, opt_path, opt_raw, path_from, raw};
use crate::text::{chars_of, lowercase, same_text, text_of, to_lowercase};
use crate::types::{lookup, Category};

verus! {

/// A list of extensions holds the extension, in whatever case.
pub open spec fn holds(extensions: Seq<String>, lowered: Seq<char>) -> bool {
    exists|i: int| 0 <= i < extensions.len() && lowercase(#[trigger] extensions[i]@) == lowered
}

/// The group lists the extension, in whatever case.
pub open spec fn lists(group: ExtensionGroup, lowered: Seq<char>) -> bool {
    holds(group.extensions@, lowered)
}

/// The category under which an extension is listed, given in lower case. Where more than
/// one group lists it, the last of them counts.
pub open spec fn listed_category(groups: Seq<ExtensionGroup>, lowered: Seq<char>) -> Option<
    Category,
>
    decreases groups.len(),
{
    if groups.len() == 0 {
        None
    } else if lists(groups.last(), lowered) {
        Some(Category::of_key(groups.last().key@))
    } else {
        listed_category(groups.drop_last(), lowered)
    }
}

/// The map holds every listed extension, in lower case, and nothing else.
pub open spec fn is_extension_map(
    map: Map<Seq<char>, Category>,
    groups: Seq<ExtensionGroup>,
) -> bool {
    forall|e: Seq<char>| #[trigger] lookup(map, e) == listed_category(groups, e)
}

/// Maps each extension, in lower case, to the category under which it is listed.
pub fn build_extension_map(config: &Config) -> (r: StringHashMap<Category>)
    ensures
        is_extension_map(r@, config.extensions@),
{
    let ghost groups = config.extensions@;
    let mut map: StringHashMap<Category> = StringHashMap::new();
    let mut g: usize = 0;
    while g < config.extensions.len()
        invariant
            groups == config.extensions@,
            g <= groups.len(),
            is_extension_map(map@, groups.take(g as int)),
        decreases groups.len() - g,
    {
        let group = &config.extensions[g];
        let category = Category::from_key(group.key.as_str());
        let ghost before = map@;
        let mut i: usize = 0;
        while i < group.extensions.len()
            invariant
                i <= group.extensions@.len(),
                category == Category::of_key(group.key@),
                forall|e: Seq<char>| #[trigger]
                    lookup(map@, e) == if exists|k: int|
                        0 <= k < i && lowercase(#[trigger] group.extensions@[k]@) == e {
                        Some(category)
                    } else {
                        lookup(before, e)
                    },
            decreases group.extensions@.len() - i,
        {
            let ghost previous = map@;
            let lowered = to_lowercase(group.extensions[i].as_str());
            let ghost entered = lowered@;
            map.insert(lowered, category);
            i += 1;
            assert forall|e: Seq<char>| #[trigger]
                lookup(map@, e) == if exists|k: int|
                    0 <= k < i && lowercase(#[trigger] group.extensions@[k]@) == e {
                    Some(category)
                } else {
                    lookup(before, e)
                } by {
                let old_lookup = lookup(previous, e);
                if e == entered {
                    assert(lowercase(group.extensions@[i - 1]@) == e);
                } else {
                    assert(lookup(map@, e) == old_lookup);
                }
            }
        }
        g += 1;
        assert forall|e: Seq<char>| #[trigger]
            lookup(map@, e) == listed_category(groups.take(g as int), e) by {
            assert(groups.take(g as int).drop_last() =~= groups.take(g - 1));
            assert(groups.take(g as int).last() == group);
            assert(lookup(before, e) == listed_category(groups.take(g - 1), e));
        }
    }
    assert(groups.take(groups.len() as int) =~= groups);
    map
}

/// No extension is listed under two categories.
pub open spec fn unambiguous(groups: Seq<ExtensionGroup>) -> bool {
    forall|i: int, j: int, e: Seq<char>|
        0 <= i < groups.len() && 0 <= j < groups.len() && #[trigger] lists(groups[i], e)
            && #[trigger] lists(groups[j], e) ==> Category::of_key(groups[i].key@)
            == Category::of_key(groups[j].key@)
}

/// A listed category is that of some group that lists the extension, and an extension that
/// some group lists has one.
proof fn lemma_listed_category(groups: Seq<ExtensionGroup>, e: Seq<char>)
    ensures
        match listed_category(groups, e) {
            Some(category) => exists|i: int|
                0 <= i < groups.len() && #[trigger] lists(groups[i], e) && category
                    == Category::of_key(groups[i].key@),
            None => forall|i: int| 0 <= i < groups.len() ==> !#[trigger] lists(groups[i], e),
        },
    decreases groups.len(),
{
    if groups.len() > 0 {
        let front = groups.drop_last();
        let last = groups.len() - 1;
        assert(groups[last] == groups.last());
        if !lists(groups.last(), e) {
            lemma_listed_category(front, e);
            assert forall|i: int| 0 <= i < front.len() implies front[i] == groups[i] by {}
            if listed_category(front, e) is Some {
                let i = choose|i: int|
                    0 <= i < front.len() && #[trigger] lists(front[i], e) && listed_category(
                        front,
                        e,
                    ) == Some(Category::of_key(front[i].key@));
                assert(lists(groups[i], e));
            } else {
                assert forall|i: int| 0 <= i < groups.len() implies !#[trigger] lists(
                    groups[i],
                    e,
                ) by {
                    if i < last {
                        assert(!lists(front[i], e));
                    }
                }
            }
        } else {
            assert(lists(groups[last], e));
        }
    }
}

/// Where no extension is listed under two categories, the order of the groups does not
/// matter.
pub proof fn order_of_groups_does_not_matter(
    one: Seq<ExtensionGroup>,
    other: Seq<ExtensionGroup>,
    lowered: Seq<char>,
)
    requires
        unambiguous(one),
        forall|g: ExtensionGroup| one.contains(g) <==> other.contains(g),
    ensures
        listed_category(one, lowered) == listed_category(other, lowered),
{
    lemma_listed_category(one, lowered);
    lemma_listed_category(other, lowered);
    if listed_category(one, lowered) is Some {
        let i = choose|i: int|
            0 <= i < one.len() && #[trigger] lists(one[i], lowered) && listed_category(one, lowered)
                == Some(Category::of_key(one[i].key@));
        assert(other.contains(one[i]));
        let j = choose|j: int| 0 <= j < other.len() && other[j] == one[i];
        assert(lists(other[j], lowered));
    }
    if listed_category(other, lowered) is Some {
        let j = choose|j: int|
            0 <= j < other.len() && #[trigger] lists(other[j], lowered) && listed_category(
                other,
                lowered,
            ) == Some(Category::of_key(other[j].key@));
        assert(one.contains(other[j]));
        let i = choose|i: int| 0 <= i < one.len() && one[i] == other[j];
        assert(lists(one[i], lowered));
    }
}

/// No key occurs twice.
pub open spec fn distinct_keys(groups: Seq<ExtensionGroup>) -> bool {
    forall|i: int, j: int|
        0 <= i < j < groups.len() ==> (#[trigger] groups[i]).key@ != (#[trigger] groups[j]).key@
}

/// What the groups list, by key: where a key occurs twice, what the last group with it
/// lists.
pub open spec fn table(groups: Seq<ExtensionGroup>) -> Map<Seq<char>, Seq<String>>
    decreases groups.len(),
{
    if groups.len() == 0 {
        Map::empty()
    } else {
        table(groups.drop_last()).insert(groups.last().key@, groups.last().extensions@)
    }
}

/// The table has the keys of the groups and no other, and where no key occurs twice it has
/// at each what its group lists.
proof fn lemma_table(groups: Seq<ExtensionGroup>)
    ensures
        forall|i: int| 0 <= i < groups.len() ==> table(groups).contains_key(
            (#[trigger] groups[i]).key@,
        ),
        forall|key: Seq<char>| #[trigger]
            table(groups).contains_key(key) ==> exists|i: int|
                0 <= i < groups.len() && (#[trigger] groups[i]).key@ == key
                    && groups[i].extensions@ == table(groups)[key],
        distinct_keys(groups) ==> forall|i: int|
            0 <= i < groups.len() ==> table(groups)[(#[trigger] groups[i]).key@]
                == groups[i].extensions@,
    decreases groups.len(),
{
    if groups.len() > 0 {
        let front = groups.drop_last();
        let last = groups.len() - 1;
        lemma_table(front);
        assert forall|i: int| 0 <= i < last implies #[trigger] groups[i] == front[i] by {}
        assert(groups[last] == groups.last());
        assert forall|i: int| 0 <= i < groups.len() implies table(groups).contains_key(
            (#[trigger] groups[i]).key@,
        ) by {
            if i < last {
                assert(table(front).contains_key(front[i].key@));
            }
        }
        assert forall|key: Seq<char>| #[trigger] table(groups).contains_key(key) implies exists|
            i: int,
        |
            0 <= i < groups.len() && (#[trigger] groups[i]).key@ == key && groups[i].extensions@
                == table(groups)[key] by {
            if key == groups.last().key@ {
                assert(groups[last].extensions@ == table(groups)[key]);
            } else {
                assert(table(front).contains_key(key));
                let i = choose|i: int|
                    0 <= i < front.len() && (#[trigger] front[i]).key@ == key
                        && front[i].extensions@ == table(front)[key];
                assert(groups[i].key@ == key);
            }
        }
        if distinct_keys(groups) {
            assert(distinct_keys(front)) by {
                assert forall|i: int, j: int| 0 <= i < j < front.len() implies (
                #[trigger] front[i]).key@ != (#[trigger] front[j]).key@ by {
                    assert(groups[i].key@ != groups[j].key@);
                }
            }
            assert forall|i: int| 0 <= i < groups.len() implies table(groups)[(
            #[trigger] groups[i]).key@] == groups[i].extensions@ by {
                if i < last {
                    assert(groups[i].key@ != groups[last].key@);
                    assert(table(front)[front[i].key@] == front[i].extensions@);
                }
            }
        }
    }
}

/// Where no key occurs twice and no extension is listed under two categories, the
/// extension map depends on what is listed by key alone: how the keys are walked does not
/// matter.
pub proof fn extension_map_follows_the_table(
    one: Seq<ExtensionGroup>,
    other: Seq<ExtensionGroup>,
    lowered: Seq<char>,
)
    requires
        distinct_keys(one),
        distinct_keys(other),
        table(one) == table(other),
        unambiguous(one),
    ensures
        listed_category(one, lowered) == listed_category(other, lowered),
{
    lemma_table(one);
    lemma_table(other);
    lemma_listed_category(one, lowered);
    lemma_listed_category(other, lowered);
    if listed_category(one, lowered) is Some {
        let i = choose|i: int|
            0 <= i < one.len() && #[trigger] lists(one[i], lowered) && listed_category(one, lowered)
                == Some(Category::of_key(one[i].key@));
        assert(table(other).contains_key(one[i].key@));
        let j = choose|j: int|
            0 <= j < other.len() && (#[trigger] other[j]).key@ == one[i].key@
                && other[j].extensions@ == table(other)[one[i].key@];
        assert(lists(other[j], lowered));
    }
    if listed_category(other, lowered) is Some {
        let j = choose|j: int|
            0 <= j < other.len() && #[trigger] lists(other[j], lowered) && listed_category(
                other,
                lowered,
            ) == Some(Category::of_key(other[j].key@));
        assert(table(one).contains_key(other[j].key@));
        let i = choose|i: int|
            0 <= i < one.len() && (#[trigger] one[i]).key@ == other[j].key@
                && one[i].extensions@ == table(one)[other[j].key@];
        assert(lists(one[i], lowered));
    }
}

/// Replacing the group with a key, where no key occurs twice, enters what it lists into the
/// table.
proof fn lemma_replaced(groups: Seq<ExtensionGroup>, at: int, group: ExtensionGroup)
    requires
        distinct_keys(groups),
        0 <= at < groups.len(),
        groups[at].key@ == group.key@,
    ensures
        distinct_keys(groups.update(at, group)),
        table(groups.update(at, group)) == table(groups).insert(group.key@, group.extensions@),
{
    let new = groups.update(at, group);
    assert forall|i: int, j: int| 0 <= i < j < new.len() implies (#[trigger] new[i]).key@ != (
    #[trigger] new[j]).key@ by {
        assert(groups[i].key@ != groups[j].key@);
    }
    lemma_table(groups);
    lemma_table(new);
    let expected = table(groups).insert(group.key@, group.extensions@);
    assert forall|key: Seq<char>| table(new).contains_key(key) == #[trigger] expected.contains_key(
        key,
    ) by {
        if table(new).contains_key(key) {
            let i = choose|i: int|
                0 <= i < new.len() && (#[trigger] new[i]).key@ == key && new[i].extensions@
                    == table(new)[key];
            assert(table(groups).contains_key(groups[i].key@));
        }
        if expected.contains_key(key) {
            if key == group.key@ {
                assert(table(new).contains_key(new[at].key@));
            } else {
                let i = choose|i: int|
                    0 <= i < groups.len() && (#[trigger] groups[i]).key@ == key
                        && groups[i].extensions@ == table(groups)[key];
                assert(table(new).contains_key(new[i].key@));
            }
        }
    }
    assert forall|key: Seq<char>| #[trigger] expected.contains_key(key) implies table(new)[key]
        == expected[key] by {
        assert(table(new).contains_key(key));
        let i = choose|i: int|
            0 <= i < new.len() && (#[trigger] new[i]).key@ == key && new[i].extensions@ == table(
                new,
            )[key];
        if i == at {
            assert(key == group.key@);
        } else {
            assert(groups[i] == new[i]);
            assert(groups[i].key@ != groups[at].key@) by {
                if i < at {
                    assert(groups[i].key@ != groups[at].key@);
                } else {
                    assert(groups[at].key@ != groups[i].key@);
                }
            }
            assert(table(groups)[groups[i].key@] == groups[i].extensions@);
        }
    }
    assert(table(new) =~= expected);
}

/// The groups of a configuration, from a list of them: a later group takes the place of an
/// earlier one with its key, so that no key occurs twice.
pub fn extension_groups(entries: Vec<ExtensionGroup>) -> (r: Vec<ExtensionGroup>)
    ensures
        distinct_keys(r@),
        table(r@) == table(entries@),
        distinct_keys(entries@) ==> r@ == entries@,
{
    let mut rest = entries;
    let mut r: Vec<ExtensionGroup> = Vec::new();
    let ghost all = entries@;
    let ghost mut k: int = 0;
    assert(all.skip(0) =~= all);
    assert(r@ =~= all.take(0));
    while rest.len() > 0
        invariant
            0 <= k <= all.len(),
            rest@ == all.skip(k),
            distinct_keys(r@),
            table(r@) == table(all.take(k)),
            distinct_keys(all) ==> r@ == all.take(k),
        decreases rest@.len(),
    {
        let group = rest.remove(0);
        proof {
            assert(group == all[k]);
            assert(rest@ =~= all.skip(k + 1));
            assert(all.take(k + 1).drop_last() =~= all.take(k));
            assert(all.take(k + 1).last() == group);
        }
        let mut at: usize = 0;
        while at < r.len() && !same_text(r[at].key.as_str(), group.key.as_str())
            invariant
                at <= r@.len(),
                forall|i: int| 0 <= i < at ==> (#[trigger] r@[i]).key@ != group.key@,
            decreases r@.len() - at,
        {
            at += 1;
        }
        let ghost before = r@;
        if at < r.len() {
            proof {
                lemma_replaced(before, at as int, group);
                if distinct_keys(all) {
                    assert(all[at as int].key@ != all[k].key@);
                }
            }
            r.set(at, group);
        } else {
            r.push(group);
            assert(r@.drop_last() =~= before);
            assert(distinct_keys(all) ==> r@ =~= all.take(k + 1));
        }
        proof {
            k = k + 1;
        }
    }
    assert(all.take(k) =~= all);
    r
}

/// What follows the tilde of a path in the home directory.
pub open spec fn tilde_rest(path: Seq<char>) -> Option<Seq<char>> {
    if path.len() >= 2 && path[0] == '~' && (path[1] == '/' || path[1] == '\\') {
        Some(path.skip(2))
    } else {
        None
    }
}

/// The path with the home directory in place of its tilde. A path without a tilde is
/// itself; one with a tilde is none where there is no home directory.
pub open spec fn expanded(path: Seq<char>, home: Option<Seq<u8>>) -> Option<Seq<u8>> {
    match tilde_rest(path) {
        None => Some(encode_utf8(path)),
        Some(rest) => match home {
            Some(h) => Some(joined(h, encode_utf8(rest))),
            None => None,
        },
    }
}

/// The path with the given home directory in place of its tilde.
pub fn expand_tilde_in(path: &str, home: Option<&PathBuf>) -> (r: Option<PathBuf>)
    ensures
        opt_raw(r) == expanded(path@, opt_path(home)),
{
    let chars = chars_of(path);
    if chars.len() >= 2 && chars[0] == '~' && (chars[1] == '/' || chars[1] == '\\') {
        let rest = text_of(&chars, 2, chars.len());
        assert(rest@ =~= path@.skip(2));
        match home {
            Some(h) => Some(join(h, &path_from(rest.as_str()))),
            None => None,
        }
    } else {
        Some(path_from(path))
    }
}

/// The path with the home directory that the system tells in place of its tilde.
pub fn expand_tilde(path: &str) -> (r: Option<PathBuf>)
    ensures
        exists|home: Option<Seq<u8>>| opt_raw(r) == #[trigger] expanded(path@, home),
{
    let home = home_dir();
    let r = expand_tilde_in(path, home.as_ref());
    assert(opt_raw(r) == expanded(path@, opt_raw(home)));
    r
}

/// In the table of what groups list, a key has what the last group with it lists; and only
/// keys of groups are in it. Where no key occurs twice, that is what its one group lists.
pub proof fn last_group_with_a_key_counts(groups: Seq<ExtensionGroup>, key: Seq<char>)
    ensures
        table(groups).contains_key(key) <==> exists|i: int|
            0 <= i < groups.len() && (#[trigger] groups[i]).key@ == key,
        table(groups).contains_key(key) ==> exists|i: int|
            0 <= i < groups.len() && (#[trigger] groups[i]).key@ == key && groups[i].extensions@
                == table(groups)[key],
        forall|i: int|
            0 <= i < groups.len() && (#[trigger] groups[i]).key@ == key && (forall|j: int|
                i < j < groups.len() ==> (#[trigger] groups[j]).key@ != key) ==> table(groups)[key]
                == groups[i].extensions@,
    decreases groups.len(),
{
    lemma_table(groups);
    if groups.len() > 0 {
        let front = groups.drop_last();
        let last = groups.len() - 1;
        last_group_with_a_key_counts(front, key);
        assert(groups[last] == groups.last());
        assert forall|i: int| 0 <= i < last implies #[trigger] groups[i] == front[i] by {}
        if key != groups.last().key@ {
            assert forall|i: int|
                0 <= i < groups.len() && (#[trigger] groups[i]).key@ == key && (forall|j: int|
                    i < j < groups.len() ==> (#[trigger] groups[j]).key@ != key) implies table(
                groups,
            )[key] == groups[i].extensions@ by {
                assert(front[i].key@ == key);
                assert forall|j: int| i < j < front.len() implies (#[trigger] front[j]).key@
                    != key by {
                    assert(groups[j].key@ != key);
                }
            }
        }
    }
}

/// A tilde and a slash of either kind at the front of a path stand for the home directory,
/// which what follows is adjoined to; without a home directory there is no path then. Any
/// other path is itself.
pub proof fn tilde_is_the_home_directory(path: &str, home: Option<&PathBuf>, r: Option<PathBuf>)
    requires
        call_ensures(expand_tilde_in, (path, home), r),
    ensures
        if path@.len() >= 2 && path@[0] == '~' && (path@[1] == '/' || path@[1] == '\\') {
            match home {
                Some(h) => r matches Some(p) && raw(p) == joined(
                    raw(*h),
                    encode_utf8(path@.skip(2)),
                ),
                None => r is None,
            }
        } else {
            r matches Some(p) && raw(p) == encode_utf8(path@)
        },
{
}

/// The same, of a path as a value.
pub proof fn tilde_path_is_expanded(path: Seq<char>, home: Option<Seq<u8>>)
    ensures
        expanded(path, home) == if path.len() >= 2 && path[0] == '~' && (path[1] == '/' || path[1]
            == '\\') {
            match home {
                Some(h) => Some(joined(h, encode_utf8(path.skip(2)))),
                None => None,
            }
        } else {
            Some(encode_utf8(path))
        },
{
}

/// Every extension that a group lists, in whatever case, belongs to the category of the
/// group's key, unless a later group lists it too; and one that no group lists belongs to
/// none.
pub proof fn listed_extension_belongs_to_its_group(
    groups: Seq<ExtensionGroup>,
    i: int,
    k: int,
    lowered: Seq<char>,
)
    ensures
        0 <= i < groups.len() && 0 <= k < groups[i].extensions@.len() && lowercase(
            groups[i].extensions@[k]@,
        ) == lowered && (forall|j: int, m: int|
            i < j < groups.len() && 0 <= m < groups[j].extensions@.len() ==> lowercase(
                #[trigger] groups[j].extensions@[m]@,
            ) != lowered) ==> listed_category(groups, lowered) == Some(
            Category::of_key(groups[i].key@),
        ),
        (forall|j: int, m: int|
            0 <= j < groups.len() && 0 <= m < groups[j].extensions@.len() ==> lowercase(
                #[trigger] groups[j].extensions@[m]@,
            ) != lowered) ==> listed_category(groups, lowered) is None,
    decreases groups.len(),
{
    if groups.len() > 0 {
        let front = groups.drop_last();
        let last = groups.len() - 1;
        assert(groups[last] == groups.last());
        assert forall|j: int| 0 <= j < last implies #[trigger] groups[j] == front[j] by {}
        listed_extension_belongs_to_its_group(front, i, k, lowered);
        if lists(groups.last(), lowered) {
            let m = choose|m: int|
                0 <= m < groups.last().extensions@.len() && lowercase(
                    #[trigger] groups.last().extensions@[m]@,
                ) == lowered;
            assert(lowercase(groups[last].extensions@[m]@) == lowered);
        }
        assert forall|j: int, m: int|
            0 <= j < front.len() && 0 <= m < front[j].extensions@.len() implies #[trigger] front[j].extensions@[m]
            == groups[j].extensions@[m] by {}
        if i == last && 0 <= k < groups[i].extensions@.len() && lowercase(
            groups[i].extensions@[k]@,
        ) == lowered {
            assert(lowercase(groups.last().extensions@[k]@) == lowered);
            assert(lists(groups.last(), lowered));
        }
    }
}

/// The extension map has every extension that is listed, in lower case, at the category of
/// the last group that lists it, and nothing else.
pub proof fn extension_map_has_what_is_listed(
    config: &Config,
    i: int,
    k: int,
    e: Seq<char>,
    r: StringHashMap<Category>,
)
    requires
        call_ensures(build_extension_map, (config,), r),
    ensures
        ({
            let groups = config.extensions@;
            &&& 0 <= i < groups.len() && 0 <= k < groups[i].extensions@.len() && lowercase(
                groups[i].extensions@[k]@,
            ) == e && (forall|j: int, m: int|
                i < j < groups.len() && 0 <= m < groups[j].extensions@.len() ==> lowercase(
                    #[trigger] groups[j].extensions@[m]@,
                ) != e) ==> r@.contains_key(e) && r@[e] == Category::of_key(groups[i].key@)
            &&& (forall|j: int, m: int|
                0 <= j < groups.len() && 0 <= m < groups[j].extensions@.len() ==> lowercase(
                    #[trigger] groups[j].extensions@[m]@,
                ) != e) ==> !r@.contains_key(e)
        }),
{
    listed_extension_belongs_to_its_group(config.extensions@, i, k, e);
    assert(lookup(r@, e) == listed_category(config.extensions@, e));
}

} // verus!
