//! Upgrading the dependencies of a manifest.

use vstd::prelude::*;
use crate::commands::{contains_text, locate_manifest, manifest_file, texts};
use crate::crates::{
    accepts_dependency_version_req_text, get_dependency_version_req_text,
    put_dependency_version_req_text,
};
use crate::slot::{
    entry_of, kept_decor, leads_into, lemma_written_is_located, lemma_written_keeps_other_slots,
    located, value_path, writable, written, DepKind, Slot,
};
use crate::document::{parsed_tree, ManifestDocument, Node};
use crate::error::ParseError;
use crate::version::{semver_version, version_text, Version, VersionView};

verus! {

/// The arguments of an upgrade.
pub struct Upgrade {
    /// The manifest to upgrade: a file, or the directory that holds it.
    pub manifest: String,
    /// If not empty: upgrade these dependencies and no others.
    pub only: Vec<String>,
    /// Leave these dependencies as they are.
    pub exclude: Vec<String>,
    /// Let prereleases count as the latest version.
    pub pre: bool,
    /// Say what would be done, and write nothing.
    pub dry: bool,
    /// Refresh the registry's index before asking it.
    pub update: bool,
    /// Replace requirements that are no exact version, too.
    pub force: bool,
}

/// A dependency that a manifest declares, as far as an upgrade looks at
/// it.
#[derive(Debug)]
pub struct Dependency {
    /// The name that the manifest declares it under.
    pub name_in_toml: String,
    /// The name of the package in the registry.
    pub package_name: String,
    /// The kind of dependency.
    pub kind: DepKind,
    /// The platform that it is declared for, if any, as the manifest
    /// writes it.
    pub platform: Option<String>,
    /// What tells the source of the package from other sources.
    pub source: String,
    /// Whether the source is a registry.
    pub registry: bool,
}

/// A `Dependency` as a mathematical value.
pub ghost struct DependencyView {
    pub name_in_toml: Seq<char>,
    pub package_name: Seq<char>,
    pub kind: DepKind,
    pub platform: Option<Seq<char>>,
    pub source: Seq<char>,
    pub registry: bool,
}

impl View for Dependency {
    type V = DependencyView;

    open spec fn view(&self) -> DependencyView {
        DependencyView {
            name_in_toml: self.name_in_toml@,
            package_name: self.package_name@,
            kind: self.kind,
            platform: match self.platform {
                Some(p) => Some(p@),
                None => None,
            },
            source: self.source@,
            registry: self.registry,
        }
    }
}

impl Clone for Dependency {
    fn clone(&self) -> (r: Dependency)
        ensures
            r@ == self@,
    {
        Dependency {
            name_in_toml: self.name_in_toml.clone(),
            package_name: self.package_name.clone(),
            kind: self.kind,
            platform: match &self.platform {
                Some(p) => Some(p.clone()),
                None => None,
            },
            source: self.source.clone(),
            registry: self.registry,
        }
    }
}

/// One requirement to rewrite: the dependency, the requirement that the
/// manifest states, and the one to state in its place.
#[derive(Debug)]
pub struct UpgradeTask {
    pub dependency: Dependency,
    pub pre_version: String,
    pub new_version: String,
}

/// An `UpgradeTask` as a mathematical value.
pub ghost struct UpgradeTaskView {
    pub dependency: DependencyView,
    pub pre_version: Seq<char>,
    pub new_version: Seq<char>,
}

impl View for UpgradeTask {
    type V = UpgradeTaskView;

    open spec fn view(&self) -> UpgradeTaskView {
        UpgradeTaskView {
            dependency: self.dependency@,
            pre_version: self.pre_version@,
            new_version: self.new_version@,
        }
    }
}

impl Clone for UpgradeTask {
    fn clone(&self) -> (r: UpgradeTask)
        ensures
            r@ == self@,
    {
        UpgradeTask {
            dependency: self.dependency.clone(),
            pre_version: self.pre_version.clone(),
            new_version: self.new_version.clone(),
        }
    }
}

/// What became of one dependency in an upgrade.
#[derive(Debug)]
pub enum UpgradeOutcome {
    /// It was left out: by the choice of names, or because it does not come
    /// from a registry.
    Skipped,
    /// The manifest states no requirement for it.
    Missing,
    /// The registry holds no version of it: worth a warning.
    Unavailable,
    /// Its requirement stays: it states the latest version already, or it
    /// is no exact version and such are not replaced.
    Unchanged,
    /// Its requirement was to be rewritten, but the manifest cannot take
    /// the new one: the name, the platform or the requirement is no plain
    /// text. Nothing was changed for it.
    Unwritable(UpgradeTask),
    /// Its requirement has been rewritten.
    Upgraded(UpgradeTask),
}

/// An `UpgradeOutcome` as a mathematical value.
pub ghost enum UpgradeOutcomeView {
    Skipped,
    Missing,
    Unavailable,
    Unchanged,
    Unwritable(UpgradeTaskView),
    Upgraded(UpgradeTaskView),
}

impl View for UpgradeOutcome {
    type V = UpgradeOutcomeView;

    open spec fn view(&self) -> UpgradeOutcomeView {
        match *self {
            UpgradeOutcome::Skipped => UpgradeOutcomeView::Skipped,
            UpgradeOutcome::Missing => UpgradeOutcomeView::Missing,
            UpgradeOutcome::Unavailable => UpgradeOutcomeView::Unavailable,
            UpgradeOutcome::Unchanged => UpgradeOutcomeView::Unchanged,
            UpgradeOutcome::Unwritable(task) => UpgradeOutcomeView::Unwritable(task@),
            UpgradeOutcome::Upgraded(task) => UpgradeOutcomeView::Upgraded(task@),
        }
    }
}

/// The result of an upgrade.
pub struct UpgradeReport {
    /// What became of each dependency, in the order in which they were
    /// given.
    pub outcomes: Vec<UpgradeOutcome>,
    /// The manifest after the upgrade.
    pub document: ManifestDocument,
    /// The text to write back in place of the manifest; `None` on a dry run.
    pub text: Option<String>,
}

/// Whether an upgrade looks at the dependency declared as `name`: it is
/// among `only`, unless that is empty, and not among `exclude`.
pub open spec fn selected(only: Seq<Seq<char>>, exclude: Seq<Seq<char>>, name: Seq<char>) -> bool {
    (only.len() == 0 || only.contains(name)) && !exclude.contains(name)
}

/// The requirement to write, if any, in place of one that states the exact
/// version `current`, or, where `current` is `None`, states no exact
/// version, when `latest` is the latest version. An exact version is
/// replaced by the latest one unless it is the latest one. Anything else is
/// replaced only by `force`.
pub open spec fn replacement(current: Option<VersionView>, latest: VersionView, force: bool)
    -> Option<Seq<char>> {
    match current {
        Some(version) => if version == latest {
            None
        } else {
            Some(version_text(latest))
        },
        None => if force {
            Some(version_text(latest))
        } else {
            None
        },
    }
}

/// The requirement to write in place of the text `current`, if any, when
/// `latest` is the latest version: the text is read as an exact version, and
/// `replacement` decides.
pub open spec fn decided(current: Seq<char>, latest: VersionView, force: bool) -> Option<
    Seq<char>,
> {
    replacement(semver_version(current), latest, force)
}

/// The place of a dependency's requirement in the manifest.
pub open spec fn slot_of(dependency: DependencyView) -> Slot {
    Slot {
        kind: dependency.kind,
        platform: dependency.platform,
        name: dependency.name_in_toml,
    }
}

/// The view of an optional version behind a reference.
pub open spec fn latest_of(o: Option<&Version>) -> Option<VersionView> {
    match o {
        Some(v) => Some(v@),
        None => None,
    }
}

/// The task for a dependency, if there is one: none for a dependency that
/// does not come from a registry, none where the registry holds no version,
/// and else what `decided` says of the requirement that the manifest
/// states.
pub open spec fn task_for(
    tree: Node,
    dependency: DependencyView,
    latest: Option<VersionView>,
    force: bool,
) -> Option<UpgradeTaskView> {
    if !dependency.registry || latest is None || located(tree, slot_of(dependency)) is None {
        None
    } else {
        let current = located(tree, slot_of(dependency))->0;
        match decided(current, latest->0, force) {
            Some(text) => Some(
                UpgradeTaskView { dependency, pre_version: current, new_version: text },
            ),
            None => None,
        }
    }
}

/// What an upgrade plans for a dependency, before anything is written;
/// `Upgraded` stands for a task to carry out.
pub open spec fn planned(
    tree: Node,
    only: Seq<Seq<char>>,
    exclude: Seq<Seq<char>>,
    force: bool,
    dependency: DependencyView,
    latest: Option<VersionView>,
) -> UpgradeOutcomeView {
    if !selected(only, exclude, dependency.name_in_toml) || !dependency.registry {
        UpgradeOutcomeView::Skipped
    } else if located(tree, slot_of(dependency)) is None {
        UpgradeOutcomeView::Missing
    } else if latest is None {
        UpgradeOutcomeView::Unavailable
    } else {
        match task_for(tree, dependency, latest, force) {
            Some(task) => UpgradeOutcomeView::Upgraded(task),
            None => UpgradeOutcomeView::Unchanged,
        }
    }
}

/// The manifest after one plan has been carried out, and what became of
/// it: a task is written where the manifest can take it.
pub open spec fn carried_out(tree: Node, plan: UpgradeOutcomeView) -> (Node, UpgradeOutcomeView) {
    match plan {
        UpgradeOutcomeView::Upgraded(task) => if writable(
            tree,
            slot_of(task.dependency),
            task.new_version,
        ) {
            (written(tree, slot_of(task.dependency), task.new_version), plan)
        } else {
            (tree, UpgradeOutcomeView::Unwritable(task))
        },
        _ => (tree, plan),
    }
}

/// The manifest after the first `n` plans have been carried out, one after
/// the other, and what became of each.
pub open spec fn upgraded(tree: Node, plans: Seq<UpgradeOutcomeView>, n: nat) -> (
    Node,
    Seq<UpgradeOutcomeView>,
)
    decreases n,
{
    if n == 0 {
        (tree, Seq::empty())
    } else {
        let before = upgraded(tree, plans, (n - 1) as nat);
        let step = carried_out(before.0, plans[n - 1]);
        (step.0, before.1.push(step.1))
    }
}

/// The latest version that the registry holds for the dependency at `i`; a
/// dependency without an answer counts as one that the registry does not
/// hold.
pub open spec fn latest_at(latest: Seq<Option<VersionView>>, i: int) -> Option<VersionView> {
    if 0 <= i < latest.len() {
        latest[i]
    } else {
        None
    }
}

/// The plans of an upgrade for a list of dependencies, all made on the
/// manifest as it was read.
pub open spec fn plans_for(
    tree: Node,
    only: Seq<Seq<char>>,
    exclude: Seq<Seq<char>>,
    force: bool,
    dependencies: Seq<DependencyView>,
    latest: Seq<Option<VersionView>>,
) -> Seq<UpgradeOutcomeView> {
    Seq::new(
        dependencies.len(),
        |i: int| planned(tree, only, exclude, force, dependencies[i], latest_at(latest, i)),
    )
}

/// The views of a list of dependencies.
pub open spec fn dependency_views(list: Seq<Dependency>) -> Seq<DependencyView> {
    list.map_values(|d: Dependency| d@)
}

/// The views of a list of optional versions.
pub open spec fn latest_views(list: Seq<Option<Version>>) -> Seq<Option<VersionView>> {
    list.map_values(|o: Option<Version>| crate::version::version_of(o))
}

/// The views of a list of outcomes.
pub open spec fn upgrade_outcomes(list: Seq<UpgradeOutcome>) -> Seq<UpgradeOutcomeView> {
    list.map_values(|o: UpgradeOutcome| o@)
}

/// A task that was carried out has put its new requirement in place of
/// the old one.
pub proof fn lemma_upgraded_is_located(tree: Node, plan: UpgradeOutcomeView)
    requires
        carried_out(tree, plan).1 is Upgraded,
    ensures
        plan is Upgraded,
        located(carried_out(tree, plan).0, slot_of(plan->Upgraded_0.dependency)) == Some(
            plan->Upgraded_0.new_version,
        ),
{
    let task = plan->Upgraded_0;
    lemma_written_is_located(tree, slot_of(task.dependency), task.new_version);
}

/// An upgrade leaves the entry of every slot as it was but those of its
/// tasks.
pub proof fn lemma_upgraded_keeps_other_slots(
    tree: Node,
    plans: Seq<UpgradeOutcomeView>,
    n: nat,
    other: Slot,
)
    requires
        n <= plans.len(),
        forall|i: int|
            0 <= i < n && (#[trigger] plans[i]) is Upgraded ==> other != slot_of(
                plans[i]->Upgraded_0.dependency,
            ),
    ensures
        entry_of(upgraded(tree, plans, n).0, other) == entry_of(tree, other),
    decreases n,
{
    if n > 0 {
        lemma_upgraded_keeps_other_slots(tree, plans, (n - 1) as nat, other);
        let before = upgraded(tree, plans, (n - 1) as nat).0;
        let last = plans[n - 1];
        if last is Upgraded {
            let task = last->Upgraded_0;
            lemma_written_keeps_other_slots(
                before,
                slot_of(task.dependency),
                other,
                task.new_version,
            );
        }
    }
}

/// The requirement to write, if any, in place of one that states the exact
/// version `current`, or states no exact version, when `latest` is the
/// latest version.
pub fn replace_requirement(current: Option<&Version>, latest: &Version, force: bool) -> (r: Option<
    String,
>)
    ensures
        match r {
            Some(text) => replacement(latest_of(current), latest@, force) == Some(text@),
            None => replacement(latest_of(current), latest@, force) is None,
        },
{
    let rewrite = match current {
        Some(version) => !(*version == *latest),
        None => force,
    };
    if rewrite {
        Some(latest.to_text())
    } else {
        None
    }
}

/// The requirement to write in place of the text `current`, if any, when
/// `latest` is the latest version.
pub fn upgrade_decision(current: &str, latest: &Version, force: bool) -> (r: Option<String>)
    ensures
        match r {
            Some(text) => decided(current@, latest@, force) == Some(text@),
            None => decided(current@, latest@, force) is None,
        },
{
    match Version::parse(current) {
        Ok(version) => replace_requirement(Some(&version), latest, force),
        Err(_) => replace_requirement(None, latest, force),
    }
}

impl Upgrade {
    /// The manifest file that the arguments name, given whether `manifest`
    /// names a directory.
    pub fn manifest_path(&self, is_dir: bool) -> (r: String)
        ensures
            r@ == manifest_file(self.manifest@, is_dir),
    {
        locate_manifest(self.manifest.as_str(), is_dir)
    }

    /// Whether the upgrade looks at the dependency declared as
    /// `name_in_toml`.
    pub fn selects(&self, name_in_toml: &str) -> (r: bool)
        ensures
            r == selected(texts(self.only@), texts(self.exclude@), name_in_toml@),
    {
        if self.only.len() > 0 && !contains_text(&self.only, name_in_toml) {
            return false;
        }
        !contains_text(&self.exclude, name_in_toml)
    }

    /// Whether a registry has to be asked for the latest version of
    /// `dependency`.
    pub fn asks_registry(&self, dependency: &Dependency) -> (r: bool)
        ensures
            r == (dependency.registry && selected(
                texts(self.only@),
                texts(self.exclude@),
                dependency.name_in_toml@,
            )),
    {
        dependency.registry && self.selects(dependency.name_in_toml.as_str())
    }

    /// Whether the index of `source` is to be refreshed now: only where the
    /// arguments ask for it, and only the first time that the source comes
    /// up. `refreshed` holds the sources that have come up.
    pub fn refreshes(&self, refreshed: &mut Vec<String>, source: &str) -> (r: bool)
        ensures
            r == (self.update && !texts(old(refreshed)@).contains(source@)),
            texts(final(refreshed)@) == if r {
                texts(old(refreshed)@).push(source@)
            } else {
                texts(old(refreshed)@)
            },
    {
        if self.update && !contains_text(refreshed, source) {
            let ghost before = refreshed@;
            refreshed.push(source.to_owned());
            assert(texts(refreshed@) =~= texts(before).push(source@));
            true
        } else {
            false
        }
    }

    /// The task for one dependency, if its requirement is to be rewritten,
    /// given the latest version that the registry holds for it.
    pub fn gen_upgrade_task(
        &self,
        document: &ManifestDocument,
        dependency: &Dependency,
        latest: Option<&Version>,
    ) -> (r: Option<UpgradeTask>)
        ensures
            match r {
                Some(task) => task_for(document.tree(), dependency@, latest_of(latest), self.force)
                    == Some(task@),
                None => task_for(document.tree(), dependency@, latest_of(latest), self.force)
                    is None,
            },
    {
        if !dependency.registry {
            return None;
        }
        let platform: Option<&str> = match &dependency.platform {
            Some(p) => Some(p.as_str()),
            None => None,
        };
        let current = match get_dependency_version_req_text(
            document,
            dependency.kind,
            platform,
            dependency.name_in_toml.as_str(),
        ) {
            Some(text) => text,
            None => {
                return None;
            },
        };
        let latest_version = match latest {
            Some(version) => version,
            None => {
                return None;
            },
        };
        match upgrade_decision(current, latest_version, self.force) {
            Some(new_version) => Some(
                UpgradeTask {
                    dependency: dependency.clone(),
                    pre_version: current.to_owned(),
                    new_version,
                },
            ),
            None => None,
        }
    }

    /// What the upgrade plans for one dependency, before anything is
    /// written.
    pub fn plan(
        &self,
        document: &ManifestDocument,
        dependency: &Dependency,
        latest: &Option<Version>,
    ) -> (r: UpgradeOutcome)
        ensures
            r@ == planned(
                document.tree(),
                texts(self.only@),
                texts(self.exclude@),
                self.force,
                dependency@,
                crate::version::version_of(*latest),
            ),
    {
        if !self.asks_registry(dependency) {
            return UpgradeOutcome::Skipped;
        }
        let platform: Option<&str> = match &dependency.platform {
            Some(p) => Some(p.as_str()),
            None => None,
        };
        if get_dependency_version_req_text(
            document,
            dependency.kind,
            platform,
            dependency.name_in_toml.as_str(),
        ).is_none() {
            return UpgradeOutcome::Missing;
        }
        let latest_version = match latest {
            Some(version) => version,
            None => {
                return UpgradeOutcome::Unavailable;
            },
        };
        match self.gen_upgrade_task(document, dependency, Some(latest_version)) {
            Some(task) => UpgradeOutcome::Upgraded(task),
            None => UpgradeOutcome::Unchanged,
        }
    }

    /// Carries out one plan: writes the new requirement of a task, if the
    /// manifest can take it. Any other plan leaves the manifest as it was.
    pub fn carry_out(document: &mut ManifestDocument, plan: &UpgradeOutcome) -> (r: UpgradeOutcome)
        ensures
            (final(document).tree(), r@) == carried_out(old(document).tree(), plan@),
            !(r is Upgraded) ==> *final(document) == *old(document),
            forall|other: Slot|
                (plan@ matches UpgradeOutcomeView::Upgraded(task) ==> other != slot_of(
                    task.dependency,
                )) ==> #[trigger] entry_of(final(document).tree(), other) == entry_of(
                    old(document).tree(),
                    other,
                ),
            r is Upgraded ==> plan@ is Upgraded && final(document).decor_at(
                value_path(old(document).tree(), slot_of(plan@->Upgraded_0.dependency)),
            ) == Some(
                kept_decor(
                    old(document).decor_at(
                        value_path(old(document).tree(), slot_of(plan@->Upgraded_0.dependency)),
                    ),
                ),
            ),
            forall|q: Seq<Seq<char>>|
                (plan@ matches UpgradeOutcomeView::Upgraded(task) ==> !leads_into(
                    value_path(old(document).tree(), slot_of(task.dependency)),
                    q,
                )) ==> #[trigger] final(document).decor_at(q) == old(document).decor_at(q),
    {
        match plan {
            UpgradeOutcome::Upgraded(task) => {
                let platform: Option<&str> = match &task.dependency.platform {
                    Some(p) => Some(p.as_str()),
                    None => None,
                };
                if accepts_dependency_version_req_text(
                    document,
                    task.dependency.kind,
                    platform,
                    task.dependency.name_in_toml.as_str(),
                    task.new_version.as_str(),
                ) {
                    put_dependency_version_req_text(
                        document,
                        task.dependency.kind,
                        platform,
                        task.dependency.name_in_toml.as_str(),
                        task.new_version.as_str(),
                    );
                    UpgradeOutcome::Upgraded(task.clone())
                } else {
                    UpgradeOutcome::Unwritable(task.clone())
                }
            },
            UpgradeOutcome::Unwritable(task) => UpgradeOutcome::Unwritable(task.clone()),
            UpgradeOutcome::Skipped => UpgradeOutcome::Skipped,
            UpgradeOutcome::Missing => UpgradeOutcome::Missing,
            UpgradeOutcome::Unavailable => UpgradeOutcome::Unavailable,
            UpgradeOutcome::Unchanged => UpgradeOutcome::Unchanged,
        }
    }

    /// Plans the upgrade of every dependency on the manifest as it stands,
    /// then carries the plans out one after the other. `latest` holds, for
    /// each dependency in turn, the latest version that the registry holds
    /// for it; a dependency without an answer counts as one that the
    /// registry does not hold.
    pub fn apply(
        &self,
        document: &mut ManifestDocument,
        dependencies: &Vec<Dependency>,
        latest: &Vec<Option<Version>>,
    ) -> (r: Vec<UpgradeOutcome>)
        ensures
            (final(document).tree(), upgrade_outcomes(r@)) == upgraded(
                old(document).tree(),
                plans_for(
                    old(document).tree(),
                    texts(self.only@),
                    texts(self.exclude@),
                    self.force,
                    dependency_views(dependencies@),
                    latest_views(latest@),
                ),
                dependencies@.len(),
            ),
            (forall|i: int| 0 <= i < r@.len() ==> !(#[trigger] r@[i] is Upgraded))
                ==> *final(document) == *old(document),
    {
        let ghost all = plans_for(
            document.tree(),
            texts(self.only@),
            texts(self.exclude@),
            self.force,
            dependency_views(dependencies@),
            latest_views(latest@),
        );
        let mut plans: Vec<UpgradeOutcome> = Vec::new();
        let unanswered: Option<Version> = None;
        let mut i: usize = 0;
        while i < dependencies.len()
            invariant
                unanswered is None,
                i <= dependencies@.len(),
                plans@.len() == i,
                *document == *old(document),
                all == plans_for(
                    document.tree(),
                    texts(self.only@),
                    texts(self.exclude@),
                    self.force,
                    dependency_views(dependencies@),
                    latest_views(latest@),
                ),
                forall|j: int| 0 <= j < i ==> (#[trigger] plans@[j])@ == all[j],
            decreases dependencies@.len() - i,
        {
            let answer = if i < latest.len() {
                &latest[i]
            } else {
                &unanswered
            };
            let plan = self.plan(document, &dependencies[i], answer);
            plans.push(plan);
            i += 1;
        }
        assert(upgrade_outcomes(plans@) =~= all);
        let mut outcomes: Vec<UpgradeOutcome> = Vec::new();
        let mut k: usize = 0;
        while k < plans.len()
            invariant
                k <= plans@.len(),
                outcomes@.len() == k,
                upgrade_outcomes(plans@) == all,
                (document.tree(), upgrade_outcomes(outcomes@)) == upgraded(
                    old(document).tree(),
                    all,
                    k as nat,
                ),
                (forall|j: int| 0 <= j < outcomes@.len() ==> !(#[trigger] outcomes@[j] is Upgraded))
                    ==> *document == *old(document),
            decreases plans@.len() - k,
        {
            let ghost before = outcomes@;
            let outcome = Upgrade::carry_out(document, &plans[k]);
            outcomes.push(outcome);
            proof {
                assert(upgrade_outcomes(plans@)[k as int] == plans@[k as int]@);
                assert(upgrade_outcomes(outcomes@) =~= upgrade_outcomes(before).push(outcome@));
                assert(outcomes@[k as int] == outcome);
                if forall|j: int|
                    0 <= j < outcomes@.len() ==> !(#[trigger] outcomes@[j] is Upgraded) {
                    assert forall|j: int| 0 <= j < before.len() implies !(#[trigger] before[j]
                        is Upgraded) by {
                        assert(before[j] == outcomes@[j]);
                    }
                }
            }
            k += 1;
        }
        outcomes
    }

    /// Reads the manifest from `manifest_text`, upgrades the dependencies
    /// and prints the manifest again, unless this is a dry run. `latest`
    /// holds, for each dependency in turn, the latest version that the
    /// registry holds for it; a dependency without an answer counts as one
    /// that the registry does not hold.
    pub fn run(
        &self,
        manifest_text: &str,
        dependencies: &Vec<Dependency>,
        latest: &Vec<Option<Version>>,
    ) -> (r: Result<UpgradeReport, ParseError>)
        ensures
            match r {
                Err(e) => parsed_tree(manifest_text@) is None && e is Manifest,
                Ok(report) => {
                    &&& parsed_tree(manifest_text@) matches Some(tree)
                    &&& (report.document.tree(), upgrade_outcomes(report.outcomes@)) == upgraded(
                        tree,
                        plans_for(
                            tree,
                            texts(self.only@),
                            texts(self.exclude@),
                            self.force,
                            dependency_views(dependencies@),
                            latest_views(latest@),
                        ),
                        dependencies@.len(),
                    )
                    &&& match report.text {
                        Some(text) => !self.dry && text@ == report.document.text(),
                        None => self.dry,
                    }
                },
            },
    {
        let mut document = match ManifestDocument::parse(manifest_text) {
            Ok(document) => document,
            Err(e) => {
                return Err(e);
            },
        };
        let outcomes = self.apply(&mut document, dependencies, latest);
        let text = if self.dry {
            None
        } else {
            Some(document.to_text())
        };
        Ok(UpgradeReport { outcomes, document, text })
    }
}

} // verus!
