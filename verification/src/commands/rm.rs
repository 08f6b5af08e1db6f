//! Removing dependencies from a manifest.

use vstd::prelude::*;
use crate::commands::{locate_manifest, manifest_file, texts};
use crate::crates::{has_dependency, remove_dependency};
use crate::slot::{
    entry_of, leads_into, lemma_removed_keeps_other_slots, removed, section_name, DepKind, Slot,
};
use crate::error::ParseError;
use crate::document::{parsed_tree, ManifestDocument, Node};
use crate::text::{is_plain, is_plain_text};

verus! {

/// The arguments of a removal.
pub struct Rm {
    /// The names of the dependencies to remove.
    pub dependencies: Vec<String>,
    /// The manifest to edit: a file, or the directory that holds it.
    pub manifest: String,
    /// Remove build dependencies.
    pub build: bool,
    /// Remove development dependencies.
    pub dev: bool,
    /// Say what would be done, and write nothing.
    pub dry: bool,
}

/// What became of one name that was to be removed.
#[derive(Debug)]
pub enum RmOutcome {
    /// The entry was there and has been taken out.
    Removed { name: String },
    /// There was no such entry: worth a warning, and nothing was changed.
    NotFound { name: String },
    /// The entry is there, but its name is no plain text and cannot be used
    /// as a key for writing: nothing was changed.
    Refused { name: String },
}

/// An `RmOutcome` as a mathematical value.
pub ghost enum RmOutcomeView {
    Removed { name: Seq<char> },
    NotFound { name: Seq<char> },
    Refused { name: Seq<char> },
}

impl View for RmOutcome {
    type V = RmOutcomeView;

    open spec fn view(&self) -> RmOutcomeView {
        match *self {
            RmOutcome::Removed { name } => RmOutcomeView::Removed { name: name@ },
            RmOutcome::NotFound { name } => RmOutcomeView::NotFound { name: name@ },
            RmOutcome::Refused { name } => RmOutcomeView::Refused { name: name@ },
        }
    }
}

/// The result of a removal.
pub struct RmReport {
    /// What became of each name, in the order of the arguments.
    pub outcomes: Vec<RmOutcome>,
    /// The manifest after the removal.
    pub document: ManifestDocument,
    /// The text to write back in place of the manifest; `None` on a dry run.
    pub text: Option<String>,
}

/// The kind that the flags of a removal select: build before development.
pub open spec fn rm_kind(build: bool, dev: bool) -> DepKind {
    if build {
        DepKind::Build
    } else if dev {
        DepKind::Development
    } else {
        DepKind::Normal
    }
}

/// The manifest after the removal of one name, and what became of the
/// name.
pub open spec fn removal(tree: Node, kind: DepKind, name: Seq<char>) -> (Node, RmOutcomeView) {
    let slot = Slot { kind, platform: None, name };
    if entry_of(tree, slot) is Absent {
        (tree, RmOutcomeView::NotFound { name })
    } else if !is_plain(name) {
        (tree, RmOutcomeView::Refused { name })
    } else {
        (removed(tree, slot), RmOutcomeView::Removed { name })
    }
}

/// The manifest after the removal of the first `n` of `names`, one after
/// the other, and what became of each.
pub open spec fn removals(tree: Node, kind: DepKind, names: Seq<Seq<char>>, n: nat) -> (
    Node,
    Seq<RmOutcomeView>,
)
    decreases n,
{
    if n == 0 {
        (tree, Seq::empty())
    } else {
        let before = removals(tree, kind, names, (n - 1) as nat);
        let step = removal(before.0, kind, names[n - 1]);
        (step.0, before.1.push(step.1))
    }
}

/// The views of a list of outcomes.
pub open spec fn rm_outcomes(list: Seq<RmOutcome>) -> Seq<RmOutcomeView> {
    list.map_values(|o: RmOutcome| o@)
}

/// A removal leaves the entry of every slot but those of its names as it
/// was.
pub proof fn lemma_removals_keep_other_slots(
    tree: Node,
    kind: DepKind,
    names: Seq<Seq<char>>,
    n: nat,
    other: Slot,
)
    requires
        n <= names.len(),
        forall|i: int|
            0 <= i < n ==> other != (Slot { kind, platform: None, name: #[trigger] names[i] }),
    ensures
        entry_of(removals(tree, kind, names, n).0, other) == entry_of(tree, other),
    decreases n,
{
    if n > 0 {
        lemma_removals_keep_other_slots(tree, kind, names, (n - 1) as nat, other);
        let before = removals(tree, kind, names, (n - 1) as nat).0;
        lemma_removed_keeps_other_slots(
            before,
            Slot { kind, platform: None, name: names[n - 1] },
            other,
        );
    }
}

impl Rm {
    /// The manifest file that the arguments name, given whether `manifest`
    /// names a directory.
    pub fn manifest_path(&self, is_dir: bool) -> (r: String)
        ensures
            r@ == manifest_file(self.manifest@, is_dir),
    {
        locate_manifest(self.manifest.as_str(), is_dir)
    }

    /// The kind of dependencies to remove.
    pub fn dependencies_kind(&self) -> (r: DepKind)
        ensures
            r == rm_kind(self.build, self.dev),
    {
        if self.build {
            DepKind::Build
        } else if self.dev {
            DepKind::Development
        } else {
            DepKind::Normal
        }
    }

    /// Removes one dependency from `document`. A name that is not there
    /// leaves the document as it was.
    pub fn remove(&self, document: &mut ManifestDocument, name: &str) -> (r: RmOutcome)
        ensures
            (final(document).tree(), r@) == removal(
                old(document).tree(),
                rm_kind(self.build, self.dev),
                name@,
            ),
            !(r is Removed) ==> *final(document) == *old(document),
            forall|other: Slot|
                other != (Slot {
                    kind: rm_kind(self.build, self.dev),
                    platform: None,
                    name: name@,
                }) ==> #[trigger] entry_of(final(document).tree(), other) == entry_of(
                    old(document).tree(),
                    other,
                ),
            forall|q: Seq<Seq<char>>|
                !leads_into(seq![section_name(rm_kind(self.build, self.dev)), name@], q)
                    ==> #[trigger] final(document).decor_at(q) == old(document).decor_at(q),
    {
        let kind = self.dependencies_kind();
        if !is_plain_text(name) {
            let found = has_dependency(document, kind, name);
            if found {
                RmOutcome::Refused { name: name.to_owned() }
            } else {
                RmOutcome::NotFound { name: name.to_owned() }
            }
        } else if remove_dependency(document, kind, name) {
            RmOutcome::Removed { name: name.to_owned() }
        } else {
            RmOutcome::NotFound { name: name.to_owned() }
        }
    }

    /// Removes every dependency of the arguments from `document`, one after
    /// the other. If none of them is there, the document stays as it was.
    pub fn apply(&self, document: &mut ManifestDocument) -> (r: Vec<RmOutcome>)
        ensures
            (final(document).tree(), rm_outcomes(r@)) == removals(
                old(document).tree(),
                rm_kind(self.build, self.dev),
                texts(self.dependencies@),
                self.dependencies@.len(),
            ),
            (forall|i: int| 0 <= i < r@.len() ==> !(#[trigger] r@[i] is Removed))
                ==> *final(document) == *old(document),
    {
        let mut outcomes: Vec<RmOutcome> = Vec::new();
        let mut i: usize = 0;
        while i < self.dependencies.len()
            invariant
                i <= self.dependencies@.len(),
                outcomes@.len() == i,
                (document.tree(), rm_outcomes(outcomes@)) == removals(
                    old(document).tree(),
                    rm_kind(self.build, self.dev),
                    texts(self.dependencies@),
                    i as nat,
                ),
                (forall|j: int| 0 <= j < outcomes@.len() ==> !(#[trigger] outcomes@[j] is Removed))
                    ==> *document == *old(document),
            decreases self.dependencies@.len() - i,
        {
            let ghost before = outcomes@;
            let outcome = self.remove(document, self.dependencies[i].as_str());
            outcomes.push(outcome);
            proof {
                assert(texts(self.dependencies@)[i as int] == self.dependencies@[i as int]@);
                assert(rm_outcomes(outcomes@) =~= rm_outcomes(before).push(outcome@));
                assert(outcomes@[i as int] == outcome);
                if forall|j: int| 0 <= j < outcomes@.len() ==> !(#[trigger] outcomes@[j] is Removed) {
                    assert forall|j: int| 0 <= j < before.len() implies !(#[trigger] before[j]
                        is Removed) by {
                        assert(before[j] == outcomes@[j]);
                    }
                }
            }
            i += 1;
        }
        outcomes
    }

    /// Reads the manifest from `manifest_text`, removes the dependencies of
    /// the arguments and prints the manifest again, unless this is a dry
    /// run.
    pub fn run(&self, manifest_text: &str) -> (r: Result<RmReport, ParseError>)
        ensures
            match r {
                Err(e) => parsed_tree(manifest_text@) is None && e is Manifest,
                Ok(report) => {
                    &&& parsed_tree(manifest_text@) matches Some(tree)
                    &&& (report.document.tree(), rm_outcomes(report.outcomes@)) == removals(
                        tree,
                        rm_kind(self.build, self.dev),
                        texts(self.dependencies@),
                        self.dependencies@.len(),
                    )
                    &&& match report.text {
                        Some(text) => !self.dry && text@ == report.document.text(),
                        None => self.dry,
                    }
                },
            },
    {
        let mut document = match ManifestDocument::parse(manifest_text) {
            Ok(document) => document,
            Err(e) => {
                return Err(e);
            },
        };
        let outcomes = self.apply(&mut document);
        let text = if self.dry {
            None
        } else {
            Some(document.to_text())
        };
        Ok(RmReport { outcomes, document, text })
    }
}

} // verus!
