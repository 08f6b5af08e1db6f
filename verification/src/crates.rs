//! Reading and writing the requirements of a manifest, choosing the latest
//! of the versions that a registry holds, and the steps of the search for a
//! package under all spellings of its name.

use vstd::prelude::*;
use crate::document::{
    decorated_string_item, empty_item, item_decor, item_decor_at, item_entry, item_get,
    item_tree, no_decor, only_decor, string_item, ManifestDocument, Node,
};
use crate::slot::{
    entry_of, entry_with, kept_decor, leads_into, lemma_keys_are_plain, lemma_leads_elsewhere,
    lemma_leads_into_step, lemma_removed_keeps_other_slots, lemma_written_keeps_other_slots,
    located, removed, section_name, text_of, value_keys, value_path, writable, written, DepKind,
    Slot,
};
use crate::spelling::{
    count_separators, lemma_count_fits, lemma_leftover, respell, separators, spelling,
    spelling_count,
};
use crate::text::{is_plain, is_plain_text};
use crate::version::{semver_precedes, version_of, Version, VersionView};

verus! {

/// The name of the table that holds the dependencies of `kind`.
pub fn locate_dependency(kind: DepKind) -> (r: &'static str)
    ensures
        r@ == section_name(kind),
{
    match kind {
        DepKind::Normal => "dependencies",
        DepKind::Development => "dev-dependencies",
        DepKind::Build => "build-dependencies",
    }
}

/// The requirement text of a dependency, whether its entry is a string or a
/// table with a `version`; `None` if there is no such text.
pub fn get_dependency_version_req_text<'a>(
    document: &'a ManifestDocument,
    kind: DepKind,
    platform: Option<&str>,
    name_in_toml: &str,
) -> (r: Option<&'a str>)
    ensures
        text_of(r) == located(
            document.tree(),
            (Slot { kind, platform: text_of(platform), name: name_in_toml@ }),
        ),
{
    let root = document.root();
    let holder = match platform {
        None => root,
        Some(platform) => item_get(item_get(root, "target"), platform),
    };
    let item = item_get(item_get(holder, locate_dependency(kind)), name_in_toml);
    match item.as_str() {
        Some(text) => Some(text),
        None => item_get(item, "version").as_str(),
    }
}

/// Whether `item` is a table or missing.
fn is_indexable(item: &toml_edit::Item) -> (r: bool)
    ensures
        r == item_tree(*item).indexable(),
{
    item.is_none() || item.is_table_like()
}

/// Whether `put_dependency_version_req_text` can write `new_text` at this
/// place of `document`.
pub fn accepts_dependency_version_req_text(
    document: &ManifestDocument,
    kind: DepKind,
    platform: Option<&str>,
    name_in_toml: &str,
    new_text: &str,
) -> (r: bool)
    ensures
        r == writable(
            document.tree(),
            (Slot { kind, platform: text_of(platform), name: name_in_toml@ }),
            new_text@,
        ),
{
    if !is_plain_text(name_in_toml) || !is_plain_text(new_text) {
        return false;
    }
    let root = document.root();
    if !root.is_table_like() {
        return false;
    }
    let holder = match platform {
        None => root,
        Some(platform) => {
            let target = item_get(root, "target");
            let holder = item_get(target, platform);
            if !is_plain_text(platform) || !is_indexable(target) || !is_indexable(holder) {
                return false;
            }
            holder
        },
    };
    let section = item_get(holder, locate_dependency(kind));
    let item = item_get(section, name_in_toml);
    is_indexable(section) && (item.is_none() || item.is_table_like() || item.as_str().is_some())
}

/// The item under `key` of a table, for writing; a table is put there if
/// there is nothing.
fn table_under<'a>(item: &'a mut toml_edit::Item, key: &str) -> (r: &'a mut toml_edit::Item)
    requires
        item_tree(*old(item)) is Table,
        item_tree(*old(item)).child(key@).indexable(),
        is_plain(key@),
    ensures
        item_tree(*r) == if item_tree(*old(item)).child(key@) is Absent {
            Node::Table(Map::empty())
        } else {
            item_tree(*old(item)).child(key@)
        },
        item_tree(*final(item)) == item_tree(*old(item)).with_child(key@, item_tree(*final(r))),
        forall|p: Seq<Seq<char>>| #[trigger]
            item_decor_at(*r, p) == item_decor_at(*old(item), seq![key@] + p),
        forall|p: Seq<Seq<char>>| #[trigger]
            item_decor_at(*final(item), p) == if p.len() > 0 && p[0] == key@ {
                item_decor_at(*final(r), p.skip(1))
            } else {
                item_decor_at(*old(item), p)
            },
{
    let entry = item_entry(item, key);
    let ghost found = *entry;
    if entry.is_none() {
        *entry = toml_edit::table();
    }
    assert forall|p: Seq<Seq<char>>| #[trigger]
        item_decor_at(*entry, p) == item_decor_at(*old(item), seq![key@] + p) by {
        assert(item_decor_at(found, p) == item_decor_at(*old(item), seq![key@] + p));
    }
    entry
}

/// A string value for `text` to stand in place of `old`: between the space
/// and the comments that stand around `old`, if that is a value.
fn string_in_place_of(old: &toml_edit::Item, text: &str) -> (r: toml_edit::Item)
    requires
        is_plain(text@),
    ensures
        item_tree(r) == Node::Text(text@),
        only_decor(r, kept_decor(item_decor_at(*old, Seq::empty()))),
{
    match item_decor(old) {
        Some((prefix, suffix)) => decorated_string_item(text, prefix.as_str(), suffix.as_str()),
        None => string_item(text),
    }
}

/// Writes `new_text` to the entry `name` of a section, which is made a
/// table if it is missing.
fn put_in_section(section: &mut toml_edit::Item, name: &str, new_text: &str)
    requires
        item_tree(*old(section)).indexable(),
        !(item_tree(*old(section)).child(name@) is Other),
        is_plain(name@),
        is_plain(new_text@),
    ensures
        item_tree(*final(section)) == item_tree(
            *old(section),
        ).with_child(
            name@,
            entry_with(item_tree(*old(section)).child(name@), new_text@),
        ),
        item_decor_at(
            *final(section),
            seq![name@] + value_keys(item_tree(*old(section)).child(name@)),
        ) == Some(
            kept_decor(
                item_decor_at(
                    *old(section),
                    seq![name@] + value_keys(item_tree(*old(section)).child(name@)),
                ),
            ),
        ),
        forall|q: Seq<Seq<char>>|
            !leads_into(seq![name@] + value_keys(item_tree(*old(section)).child(name@)), q)
                ==> #[trigger] item_decor_at(*final(section), q) == item_decor_at(
                *old(section),
                q,
            ),
{
    proof {
        lemma_keys_are_plain();
    }
    let ghost keys = value_keys(item_tree(*section).child(name@));
    let ghost path = seq![name@] + keys;
    let ghost before = item_decor_at(*section, path);
    let ghost given = *section;
    if section.is_none() {
        *section = toml_edit::table();
    }
    let ghost start = *section;
    assert(item_decor_at(*section, path) == before);
    assert forall|q: Seq<Seq<char>>| #[trigger]
        item_decor_at(start, q) == item_decor_at(given, q) by {}
    let item = item_entry(section, name);
    let ghost entry = *item;
    if item.as_str().is_some() || item.is_none() {
        let new_value = string_in_place_of(item, new_text);
        *item = new_value;
    } else {
        let version = item_entry(item, "version");
        let new_value = string_in_place_of(version, new_text);
        *version = new_value;
    }
    proof {
        assert forall|q: Seq<Seq<char>>| !leads_into(path, q) implies #[trigger] item_decor_at(
            *section,
            q,
        ) == item_decor_at(given, q) by {
            assert(item_decor_at(start, q) == item_decor_at(given, q));
            if q.len() > 0 && q[0] == name@ {
                lemma_leads_into_step(name@, keys, q);
                let rest = q.skip(1);
                assert(item_decor_at(entry, rest) == item_decor_at(start, seq![name@] + rest));
                if keys.len() > 0 {
                    if rest.len() > 0 && rest[0] == "version"@ {
                        lemma_leads_into_step("version"@, Seq::empty(), rest);
                        assert(leads_into(Seq::empty(), rest.skip(1))) by {
                            assert(rest.skip(1).subrange(0, 0) =~= Seq::<Seq<char>>::empty());
                        }
                        assert(keys =~= seq!["version"@] + Seq::<Seq<char>>::empty());
                    }
                } else {
                    assert(leads_into(keys, rest)) by {
                        assert(rest.subrange(0, 0) =~= keys);
                    }
                }
            }
        }
    }
}

/// Writes `new_text` as the requirement of a dependency. A missing entry
/// is created as a string and a string is replaced; a table keeps its other
/// keys and gets the text as its `version`. Missing tables on the way are
/// made. The new value stands between the space and the comments that stood
/// around the old one, and no other slot reads differently afterwards.
pub fn put_dependency_version_req_text(
    document: &mut ManifestDocument,
    kind: DepKind,
    platform: Option<&str>,
    name_in_toml: &str,
    new_text: &str,
)
    requires
        writable(
            old(document).tree(),
            (Slot { kind, platform: text_of(platform), name: name_in_toml@ }),
            new_text@,
        ),
    ensures
        final(document).tree() == written(
            old(document).tree(),
            (Slot { kind, platform: text_of(platform), name: name_in_toml@ }),
            new_text@,
        ),
        final(document).decor_at(
            value_path(
                old(document).tree(),
                (Slot { kind, platform: text_of(platform), name: name_in_toml@ }),
            ),
        ) == Some(
            kept_decor(
                old(document).decor_at(
                    value_path(
                        old(document).tree(),
                        (Slot { kind, platform: text_of(platform), name: name_in_toml@ }),
                    ),
                ),
            ),
        ),
        forall|other: Slot|
            other != (Slot { kind, platform: text_of(platform), name: name_in_toml@ })
                ==> #[trigger] entry_of(final(document).tree(), other) == entry_of(
                old(document).tree(),
                other,
            ),
        forall|q: Seq<Seq<char>>|
            !leads_into(
                value_path(
                    old(document).tree(),
                    (Slot { kind, platform: text_of(platform), name: name_in_toml@ }),
                ),
                q,
            ) ==> #[trigger] final(document).decor_at(q) == old(document).decor_at(q),
{
    let ghost slot = Slot { kind, platform: text_of(platform), name: name_in_toml@ };
    let ghost tree = document.tree();
    let ghost keys = seq![name_in_toml@] + value_keys(entry_of(tree, slot));
    let ghost path = value_path(tree, slot);
    let ghost before = document.decor_at(path);
    proof {
        lemma_keys_are_plain();
        assert forall|other: Slot| other != slot implies #[trigger] entry_of(
            written(tree, slot, new_text@),
            other,
        ) == entry_of(tree, other) by {
            lemma_written_keeps_other_slots(tree, slot, other, new_text@);
        }
    }
    match platform {
        None => {
            let section = document.entry_mut(locate_dependency(kind));
            proof {
                assert(path =~= seq![section_name(kind)] + keys);
                assert(path.skip(1) =~= keys);
                assert(item_decor_at(*section, keys) == before);
            }
            put_in_section(section, name_in_toml, new_text);
            proof {
                assert forall|q: Seq<Seq<char>>| !leads_into(path, q) implies #[trigger]
                    document.decor_at(q) == old(document).decor_at(q) by {
                    if q.len() > 0 && q[0] == section_name(kind) {
                        lemma_leads_into_step(section_name(kind), keys, q);
                    }
                }
            }
        },
        Some(platform) => {
            let ghost below_holder = seq![section_name(kind)] + keys;
            let ghost below_target = seq![platform@] + below_holder;
            proof {
                assert(path =~= seq!["target"@] + below_target);
                assert(path.skip(1) =~= below_target);
                assert(below_target.skip(1) =~= below_holder);
                assert(below_holder.skip(1) =~= keys);
            }
            let target = document.entry_mut("target");
            let ghost found = *target;
            proof {
                assert(item_decor_at(found, below_target) == before);
            }
            if target.is_none() {
                *target = toml_edit::table();
            }
            proof {
                assert(item_decor_at(*target, below_target) == before);
            }
            let ghost made = *target;
            let holder = table_under(target, platform);
            let ghost held = *holder;
            proof {
                assert(item_decor_at(*holder, below_holder) == before);
            }
            let section = item_entry(holder, locate_dependency(kind));
            let ghost given = *section;
            proof {
                assert(item_decor_at(*section, keys) == before);
            }
            put_in_section(section, name_in_toml, new_text);
            proof {
                assert forall|q: Seq<Seq<char>>| !leads_into(path, q) implies #[trigger]
                    document.decor_at(q) == old(document).decor_at(q) by {
                    if q.len() > 0 && q[0] == "target"@ {
                        lemma_leads_into_step("target"@, below_target, q);
                        let q1 = q.skip(1);
                        assert(item_decor_at(made, q1) == item_decor_at(found, q1));
                        assert(item_decor_at(found, q1) == old(document).decor_at(
                            seq!["target"@] + q1,
                        ));
                        if q1.len() > 0 && q1[0] == platform@ {
                            lemma_leads_into_step(platform@, below_holder, q1);
                            let q2 = q1.skip(1);
                            assert(item_decor_at(held, q2) == item_decor_at(
                                made,
                                seq![platform@] + q2,
                            ));
                            if q2.len() > 0 && q2[0] == section_name(kind) {
                                lemma_leads_into_step(section_name(kind), keys, q2);
                                let q3 = q2.skip(1);
                                assert(item_decor_at(given, q3) == item_decor_at(
                                    held,
                                    seq![section_name(kind)] + q3,
                                ));
                            }
                        }
                    }
                }
            }
        },
    }
}

/// Writes `new_text` as the requirement of a dependency if the manifest
/// can take it, and says whether it did. A manifest that cannot take it
/// stays as it was. Either way no other slot reads differently afterwards.
pub fn try_put_dependency_version_req_text(
    document: &mut ManifestDocument,
    kind: DepKind,
    platform: Option<&str>,
    name_in_toml: &str,
    new_text: &str,
) -> (done: bool)
    ensures
        done == writable(
            old(document).tree(),
            (Slot { kind, platform: text_of(platform), name: name_in_toml@ }),
            new_text@,
        ),
        done ==> final(document).tree() == written(
            old(document).tree(),
            (Slot { kind, platform: text_of(platform), name: name_in_toml@ }),
            new_text@,
        ),
        done ==> final(document).decor_at(
            value_path(
                old(document).tree(),
                (Slot { kind, platform: text_of(platform), name: name_in_toml@ }),
            ),
        ) == Some(
            kept_decor(
                old(document).decor_at(
                    value_path(
                        old(document).tree(),
                        (Slot { kind, platform: text_of(platform), name: name_in_toml@ }),
                    ),
                ),
            ),
        ),
        !done ==> *final(document) == *old(document),
        forall|other: Slot|
            other != (Slot { kind, platform: text_of(platform), name: name_in_toml@ })
                ==> #[trigger] entry_of(final(document).tree(), other) == entry_of(
                old(document).tree(),
                other,
            ),
        forall|q: Seq<Seq<char>>|
            !leads_into(
                value_path(
                    old(document).tree(),
                    (Slot { kind, platform: text_of(platform), name: name_in_toml@ }),
                ),
                q,
            ) ==> #[trigger] final(document).decor_at(q) == old(document).decor_at(q),
{
    if accepts_dependency_version_req_text(document, kind, platform, name_in_toml, new_text) {
        put_dependency_version_req_text(document, kind, platform, name_in_toml, new_text);
        true
    } else {
        false
    }
}

/// Whether a dependency has an entry in its section.
pub fn has_dependency(document: &ManifestDocument, kind: DepKind, name: &str) -> (r: bool)
    ensures
        r == !(entry_of(document.tree(), (Slot { kind, platform: None, name: name@ })) is Absent),
{
    !item_get(item_get(document.root(), locate_dependency(kind)), name).is_none()
}

/// Takes the entry of a dependency out of its section, if it is there, and
/// says whether it was. The section stays, and so does every other entry.
pub fn remove_dependency(document: &mut ManifestDocument, kind: DepKind, name: &str) -> (found:
    bool)
    requires
        is_plain(name@),
    ensures
        found == !(entry_of(old(document).tree(), (Slot { kind, platform: None, name: name@ }))
            is Absent),
        found ==> final(document).tree() == removed(
            old(document).tree(),
            (Slot { kind, platform: None, name: name@ }),
        ),
        !found ==> *final(document) == *old(document),
        forall|other: Slot|
            other != (Slot { kind, platform: None, name: name@ }) ==> #[trigger] entry_of(
                final(document).tree(),
                other,
            ) == entry_of(old(document).tree(), other),
        forall|q: Seq<Seq<char>>|
            !leads_into(seq![section_name(kind), name@], q)
                ==> #[trigger] final(document).decor_at(q) == old(document).decor_at(q),
{
    let ghost slot = Slot { kind, platform: None, name: name@ };
    let ghost tree = document.tree();
    proof {
        lemma_keys_are_plain();
        assert forall|other: Slot| other != slot implies #[trigger] entry_of(
            removed(tree, slot),
            other,
        ) == entry_of(tree, other) by {
            lemma_removed_keeps_other_slots(tree, slot, other);
        }
    }
    let section = locate_dependency(kind);
    if item_get(item_get(document.root(), section), name).is_none() {
        return false;
    }
    let held = document.entry_mut(section);
    let ghost given = *held;
    let entry = item_entry(held, name);
    *entry = empty_item();
    proof {
        assert forall|q: Seq<Seq<char>>|
            !leads_into(seq![section_name(kind), name@], q) implies #[trigger] document.decor_at(
            q,
        ) == old(document).decor_at(q) by {
            assert(seq![section_name(kind), name@] =~= seq![section_name(kind)] + seq![name@]);
            if q.len() > 0 && q[0] == section_name(kind) {
                lemma_leads_into_step(section_name(kind), seq![name@], q);
                let rest = q.skip(1);
                assert(item_tree(given) is Table);
                assert(item_decor_at(given, rest) == old(document).decor_at(
                    seq![section_name(kind)] + rest,
                ));
                if rest.len() > 0 && rest[0] == name@ {
                    lemma_leads_into_step(name@, Seq::empty(), rest);
                    assert(leads_into(Seq::empty(), rest.skip(1))) by {
                        assert(rest.skip(1).subrange(0, 0) =~= Seq::<Seq<char>>::empty());
                    }
                    assert(seq![name@] =~= seq![name@] + Seq::<Seq<char>>::empty());
                }
            }
        }
    }
    true
}

/// Whether a version may be chosen: prereleases only where they are
/// allowed.
pub open spec fn eligible(v: VersionView, allow_prerelease: bool) -> bool {
    allow_prerelease || v.pre.len() == 0
}

/// Whether the candidate at `k` is the latest: it may be chosen, no other
/// candidate that may be chosen comes after it, and every earlier one that
/// may be chosen comes before it.
pub open spec fn is_latest(candidates: Seq<Version>, allow_prerelease: bool, k: int) -> bool {
    &&& 0 <= k < candidates.len()
    &&& eligible(candidates[k]@, allow_prerelease)
    &&& forall|j: int|
        0 <= j < candidates.len() && j != k && eligible(
            #[trigger] candidates[j]@,
            allow_prerelease,
        ) ==> !semver_precedes(candidates[k]@, candidates[j]@)
    &&& forall|j: int|
        0 <= j < k && eligible(#[trigger] candidates[j]@, allow_prerelease) ==> semver_precedes(
            candidates[j]@,
            candidates[k]@,
        )
}

/// The latest of the published versions that a registry has returned for a
/// name and a requirement: the greatest one, prereleases left out unless
/// they are allowed; `None` if nothing is left.
pub fn latest_version<'a>(candidates: &'a Vec<Version>, allow_prerelease: bool) -> (r: Option<
    &'a Version,
>)
    ensures
        r is None <==> forall|j: int|
            0 <= j < candidates@.len() ==> !eligible(#[trigger] candidates@[j]@, allow_prerelease),
        r matches Some(v) ==> exists|k: int|
            is_latest(candidates@, allow_prerelease, k) && *v == candidates@[k],
{
    let mut best: Option<usize> = None;
    let mut i: usize = 0;
    while i < candidates.len()
        invariant
            i <= candidates@.len(),
            best is None ==> forall|j: int|
                0 <= j < i ==> !eligible(#[trigger] candidates@[j]@, allow_prerelease),
            best matches Some(k) ==> {
                &&& k < i
                &&& eligible(candidates@[k as int]@, allow_prerelease)
                &&& forall|j: int|
                    0 <= j < i && j != k && eligible(
                        #[trigger] candidates@[j]@,
                        allow_prerelease,
                    ) ==> !semver_precedes(candidates@[k as int]@, candidates@[j]@)
                &&& forall|j: int|
                    0 <= j < k && eligible(#[trigger] candidates@[j]@, allow_prerelease)
                        ==> semver_precedes(candidates@[j]@, candidates@[k as int]@)
            },
        decreases candidates@.len() - i,
    {
        let candidate = &candidates[i];
        if allow_prerelease || !candidate.is_prerelease() {
            match best {
                None => {
                    best = Some(i);
                },
                Some(k) => {
                    if candidates[k].precedes(candidate) {
                        proof {
                            let a = candidates@[k as int]@;
                            let b = candidates@[i as int]@;
                            assert forall|j: int|
                                0 <= j < i && eligible(
                                    #[trigger] candidates@[j]@,
                                    allow_prerelease,
                                ) implies !semver_precedes(b, candidates@[j]@) by {
                                candidates@[j].lemma_view_is_version();
                                if semver_precedes(b, candidates@[j]@) {
                                    assert(semver_precedes(a, candidates@[j]@));
                                }
                            }
                            assert forall|j: int|
                                0 <= j < i && eligible(
                                    #[trigger] candidates@[j]@,
                                    allow_prerelease,
                                ) implies semver_precedes(candidates@[j]@, b) by {
                                candidates@[j].lemma_view_is_version();
                                if j != k {
                                    assert(!semver_precedes(a, candidates@[j]@));
                                }
                            }
                        }
                        best = Some(i);
                    }
                },
            }
        }
        i += 1;
    }
    match best {
        None => None,
        Some(k) => {
            assert(is_latest(candidates@, allow_prerelease, k as int));
            Some(&candidates[k])
        },
    }
}

/// The most separators that a name may have for its spellings to be tried.
pub const MAX_SEPARATORS: usize = 127;

/// Which spelling of a name a registry was last asked for.
#[derive(Clone, Copy, Debug, PartialEq, Eq, Structural)]
pub enum Attempt {
    /// The name as it was given.
    Verbatim,
    /// The spelling with this number.
    Variant(u128),
}

/// What comes next in the search for a name that a registry may hold under
/// another spelling.
#[derive(Debug)]
pub enum FuzzyStep {
    /// Ask the registry for `name`, and come back with its answer and
    /// `attempt`.
    Ask { name: String, attempt: Attempt },
    /// The registry holds `name`, and `version` is its answer.
    Found { name: String, version: Version },
    /// The registry holds the name under no spelling.
    NotFound,
    /// The name has more separators than `MAX_SEPARATORS`: its spellings
    /// are not tried.
    TooManyVariants,
}

/// A `FuzzyStep` as a mathematical value.
pub ghost enum FuzzyStepView {
    Ask { name: Seq<char>, attempt: Attempt },
    Found { name: Seq<char>, version: VersionView },
    NotFound,
    TooManyVariants,
}

impl View for FuzzyStep {
    type V = FuzzyStepView;

    open spec fn view(&self) -> FuzzyStepView {
        match *self {
            FuzzyStep::Ask { name, attempt } => FuzzyStepView::Ask { name: name@, attempt },
            FuzzyStep::Found { name, version } => FuzzyStepView::Found {
                name: name@,
                version: version@,
            },
            FuzzyStep::NotFound => FuzzyStepView::NotFound,
            FuzzyStep::TooManyVariants => FuzzyStepView::TooManyVariants,
        }
    }
}

/// The name that a registry is asked for in `attempt`.
pub open spec fn asked(name: Seq<char>, attempt: Attempt) -> Seq<char> {
    match attempt {
        Attempt::Verbatim => name,
        Attempt::Variant(mask) => spelling(name, mask as nat),
    }
}

/// What follows the registry's answer to `attempt`. A version ends the
/// search. Without one, a name without separators is not found, one with
/// more than `MAX_SEPARATORS` is given up, and any other has its spellings
/// asked for in the order of their numbers, until there is none left.
pub open spec fn next_step(name: Seq<char>, attempt: Attempt, answer: Option<VersionView>)
    -> FuzzyStepView {
    match answer {
        Some(version) => FuzzyStepView::Found { name: asked(name, attempt), version },
        None => if separators(name) == 0 {
            FuzzyStepView::NotFound
        } else if separators(name) > MAX_SEPARATORS {
            FuzzyStepView::TooManyVariants
        } else {
            match attempt {
                Attempt::Verbatim => FuzzyStepView::Ask {
                    name: spelling(name, 0),
                    attempt: Attempt::Variant(0),
                },
                Attempt::Variant(mask) => if mask + 1 < spelling_count(name) {
                    FuzzyStepView::Ask {
                        name: spelling(name, (mask + 1) as nat),
                        attempt: Attempt::Variant((mask + 1) as u128),
                    }
                } else {
                    FuzzyStepView::NotFound
                },
            }
        },
    }
}

/// One step of the search for the latest version of `name` under any of
/// its spellings: given the attempt that a registry has just answered and
/// its answer, says what to do next. The search starts by asking for `name`
/// itself, which is the attempt `Verbatim`.
pub fn latest_version_fuzzy(name: &str, attempt: Attempt, answer: Option<Version>) -> (r: FuzzyStep)
    ensures
        r@ == next_step(name@, attempt, version_of(answer)),
{
    match answer {
        Some(version) => {
            let found = match attempt {
                Attempt::Verbatim => name.to_owned(),
                Attempt::Variant(mask) => respell(name, mask).0,
            };
            FuzzyStep::Found { name: found, version }
        },
        None => {
            let count = count_separators(name);
            if count == 0 {
                FuzzyStep::NotFound
            } else if count > MAX_SEPARATORS {
                FuzzyStep::TooManyVariants
            } else {
                proof {
                    lemma_count_fits(name@);
                    lemma_leftover(name@, 0);
                }
                let next: u128 = match attempt {
                    Attempt::Verbatim => 0,
                    Attempt::Variant(mask) => {
                        if mask == u128::MAX {
                            return FuzzyStep::NotFound;
                        }
                        mask + 1
                    },
                };
                let (spelled, rest) = respell(name, next);
                if rest == 0 {
                    FuzzyStep::Ask { name: spelled, attempt: Attempt::Variant(next) }
                } else {
                    FuzzyStep::NotFound
                }
            }
        },
    }
}

} // verus!
