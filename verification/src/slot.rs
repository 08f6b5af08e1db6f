//! The places of a manifest where requirements live, and what reading,
//! writing and removing one of them means for the manifest as a tree.

use vstd::prelude::*;
use crate::document::{plain_decor, Decor, Node};
use crate::text::is_plain;

verus! {

/// The kind of a dependency: which section of the manifest declares it.
#[derive(Clone, Copy, Debug, PartialEq, Eq, Structural)]
pub enum DepKind {
    Normal,
    Development,
    Build,
}

/// One place for a requirement in a manifest: the kind of dependency, the
/// platform it is declared for, if any, and the name it is declared under.
pub ghost struct Slot {
    pub kind: DepKind,
    pub platform: Option<Seq<char>>,
    pub name: Seq<char>,
}

/// The name of the table that holds the dependencies of `kind`.
pub open spec fn section_name(kind: DepKind) -> Seq<char> {
    match kind {
        DepKind::Normal => "dependencies"@,
        DepKind::Development => "dev-dependencies"@,
        DepKind::Build => "build-dependencies"@,
    }
}

/// The text of an optional text.
pub open spec fn text_of(o: Option<&str>) -> Option<Seq<char>> {
    match o {
        Some(s) => Some(s@),
        None => None,
    }
}

/// The table above the section of `slot`: the root, or the platform's table
/// under `target`.
pub open spec fn holder_of(tree: Node, slot: Slot) -> Node {
    match slot.platform {
        None => tree,
        Some(p) => tree.child("target"@).child(p),
    }
}

/// The section that `slot` lies in.
pub open spec fn section_of(tree: Node, slot: Slot) -> Node {
    holder_of(tree, slot).child(section_name(slot.kind))
}

/// The entry of `slot`.
pub open spec fn entry_of(tree: Node, slot: Slot) -> Node {
    section_of(tree, slot).child(slot.name)
}

/// The requirement that an entry states: the entry itself where it is a
/// string, else its `version` where that is a string.
pub open spec fn requirement_of(entry: Node) -> Option<Seq<char>> {
    match entry {
        Node::Text(t) => Some(t),
        _ => match entry.child("version"@) {
            Node::Text(t) => Some(t),
            _ => None,
        },
    }
}

/// The requirement text found at `slot`, if there is one.
pub open spec fn located(tree: Node, slot: Slot) -> Option<Seq<char>> {
    requirement_of(entry_of(tree, slot))
}

/// An entry after `text` has been written to it: a string entry or a
/// missing one becomes the string; a table keeps its keys and gets the
/// string as its `version`.
pub open spec fn entry_with(entry: Node, text: Seq<char>) -> Node {
    if entry is Text || entry is Absent {
        Node::Text(text)
    } else {
        entry.with_child("version"@, Node::Text(text))
    }
}

/// `tree` with `sub` in place of the section of `slot`; tables on the way
/// are made where they are missing.
pub open spec fn with_section(tree: Node, slot: Slot, sub: Node) -> Node {
    let section = section_name(slot.kind);
    match slot.platform {
        None => tree.with_child(section, sub),
        Some(p) => {
            let target = tree.child("target"@);
            let holder = target.child(p);
            tree.with_child("target"@, target.with_child(p, holder.with_child(section, sub)))
        },
    }
}

/// The keys that lead from an entry to the value that states its
/// requirement: none where the entry is that value or is missing, `version`
/// where the entry is a table.
pub open spec fn value_keys(entry: Node) -> Seq<Seq<char>> {
    if entry is Text || entry is Absent {
        Seq::empty()
    } else {
        seq!["version"@]
    }
}

/// The keys that lead from the root to the section of `slot`.
pub open spec fn section_path(slot: Slot) -> Seq<Seq<char>> {
    match slot.platform {
        None => seq![section_name(slot.kind)],
        Some(p) => seq!["target"@, p, section_name(slot.kind)],
    }
}

/// The keys that lead from the root to the value that states the
/// requirement of `slot`, or to where a write puts it.
pub open spec fn value_path(tree: Node, slot: Slot) -> Seq<Seq<char>> {
    section_path(slot) + seq![slot.name] + value_keys(entry_of(tree, slot))
}

/// Whether `path` leads to what lies at `target`, or below it: `target` is
/// where `path` begins.
pub open spec fn leads_into(target: Seq<Seq<char>>, path: Seq<Seq<char>>) -> bool {
    target.len() <= path.len() && path.subrange(0, target.len() as int) == target
}

/// A path that begins with `key` leads into `key` and then `target` exactly
/// if its rest leads into `target`.
pub proof fn lemma_leads_into_step(key: Seq<char>, target: Seq<Seq<char>>, path: Seq<Seq<char>>)
    requires
        path.len() > 0,
        path[0] == key,
    ensures
        leads_into(seq![key] + target, path) == leads_into(target, path.skip(1)),
        seq![key] + path.skip(1) == path,
{
    let whole = seq![key] + target;
    assert(seq![key] + path.skip(1) =~= path);
    if leads_into(target, path.skip(1)) {
        assert(path.subrange(0, whole.len() as int) =~= whole) by {
            assert forall|i: int| 0 <= i < whole.len() implies path[i] == whole[i] by {
                if i > 0 {
                    assert(path[i] == path.skip(1).subrange(0, target.len() as int)[i - 1]);
                }
            }
        }
    }
    if leads_into(whole, path) {
        assert(path.skip(1).subrange(0, target.len() as int) =~= target) by {
            assert forall|i: int| 0 <= i < target.len() implies path.skip(1)[i] == target[i] by {
                assert(path.subrange(0, whole.len() as int)[i + 1] == whole[i + 1]);
            }
        }
    }
}

/// A path that does not begin with `key` leads nowhere below `key`.
pub proof fn lemma_leads_elsewhere(key: Seq<char>, target: Seq<Seq<char>>, path: Seq<Seq<char>>)
    requires
        path.len() == 0 || path[0] != key,
    ensures
        !leads_into(seq![key] + target, path),
{
    let whole = seq![key] + target;
    if leads_into(whole, path) {
        assert(path.subrange(0, whole.len() as int)[0] == whole[0]);
    }
}

/// What stands around a value that is written in place of one with the
/// decor `old`: the same space and comments; around one that is written
/// where no value was, a space before it.
pub open spec fn kept_decor(old: Option<Decor>) -> Decor {
    match old {
        Some(decor) => decor,
        None => plain_decor(),
    }
}

/// The manifest after `text` has been written to `slot`.
pub open spec fn written(tree: Node, slot: Slot, text: Seq<char>) -> Node {
    let section = section_of(tree, slot);
    let entry = entry_with(section.child(slot.name), text);
    with_section(tree, slot, section.with_child(slot.name, entry))
}

/// The manifest after the entry of `slot` has been taken out. The section
/// stays, even if empty.
pub open spec fn removed(tree: Node, slot: Slot) -> Node {
    with_section(tree, slot, section_of(tree, slot).with_child(slot.name, Node::Absent))
}

/// Whether `text` can be written to `slot`: name, platform and text are
/// plain, every item on the way is a table or missing, and the entry is
/// missing, a string or a table.
pub open spec fn writable(tree: Node, slot: Slot, text: Seq<char>) -> bool {
    &&& is_plain(slot.name)
    &&& is_plain(text)
    &&& tree is Table
    &&& slot.platform matches Some(p) ==> {
        &&& is_plain(p)
        &&& tree.child("target"@).indexable()
        &&& tree.child("target"@).child(p).indexable()
    }
    &&& section_of(tree, slot).indexable()
    &&& !(entry_of(tree, slot) is Other)
}

/// The names that the library itself uses as keys are plain.
pub proof fn lemma_keys_are_plain()
    ensures
        is_plain("dependencies"@),
        is_plain("dev-dependencies"@),
        is_plain("build-dependencies"@),
        is_plain("target"@),
        is_plain("version"@),
        "target"@ != "dependencies"@,
        "target"@ != "dev-dependencies"@,
        "target"@ != "build-dependencies"@,
        "dependencies"@ != "dev-dependencies"@,
        "dependencies"@ != "build-dependencies"@,
        "dev-dependencies"@ != "build-dependencies"@,
{
    reveal_strlit("dependencies");
    reveal_strlit("dev-dependencies");
    reveal_strlit("build-dependencies");
    reveal_strlit("target");
    reveal_strlit("version");
}

/// A requirement that has been written to a slot is the one read there.
pub proof fn lemma_written_is_located(tree: Node, slot: Slot, text: Seq<char>)
    ensures
        located(written(tree, slot, text), slot) == Some(text),
{
    lemma_keys_are_plain();
}

/// Writing to one slot leaves the entry of every other slot as it was, and
/// so the requirement read there.
pub proof fn lemma_written_keeps_other_slots(tree: Node, slot: Slot, other: Slot, text: Seq<char>)
    requires
        other != slot,
    ensures
        entry_of(written(tree, slot, text), other) == entry_of(tree, other),
        located(written(tree, slot, text), other) == located(tree, other),
{
    lemma_keys_are_plain();
}

/// After a removal the slot is empty.
pub proof fn lemma_removed_is_absent(tree: Node, slot: Slot)
    ensures
        entry_of(removed(tree, slot), slot) is Absent,
        located(removed(tree, slot), slot) is None,
{
    lemma_keys_are_plain();
}

/// Removing one slot leaves the entry of every other slot as it was.
pub proof fn lemma_removed_keeps_other_slots(tree: Node, slot: Slot, other: Slot)
    requires
        other != slot,
    ensures
        entry_of(removed(tree, slot), other) == entry_of(tree, other),
        located(removed(tree, slot), other) == located(tree, other),
{
    lemma_keys_are_plain();
}

/// Writing to a table entry changes its `version` and no other key of it.
pub proof fn lemma_written_keeps_sibling_keys(
    tree: Node,
    slot: Slot,
    text: Seq<char>,
    key: Seq<char>,
)
    requires
        entry_of(tree, slot) is Table,
        key != "version"@,
    ensures
        entry_of(written(tree, slot, text), slot).child(key) == entry_of(tree, slot).child(key),
{
    lemma_keys_are_plain();
}

} // verus!
