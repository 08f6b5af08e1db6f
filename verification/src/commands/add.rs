//! Adding dependencies to a manifest.

use vstd::prelude::*;
use crate::commands::{locate_manifest, manifest_file, texts};
use crate::crates::{
    accepts_dependency_version_req_text, get_dependency_version_req_text,
    put_dependency_version_req_text, FuzzyStep, FuzzyStepView,
};
use crate::slot::{
    entry_of, kept_decor, leads_into, lemma_written_is_located, lemma_written_keeps_other_slots,
    located, value_path, writable, written, DepKind, Slot,
};
use crate::document::{parsed_tree, ManifestDocument, Node};
use crate::error::ParseError;
use crate::text::texts_equal;
use crate::version::{check_requirement, semver_requirement, version_text, Version, VersionView};

verus! {

/// The arguments of an addition.
pub struct Add {
    /// The dependencies to add, each a name, or a name, `@` and a version
    /// requirement.
    pub dependencies: Vec<String>,
    /// The manifest to edit: a file, or the directory that holds it.
    pub manifest: String,
    /// Add development dependencies.
    pub dev: bool,
    /// Add build dependencies.
    pub build: bool,
    /// Let prereleases count as the latest version.
    pub pre: bool,
    /// Say what would be done, and write nothing.
    pub dry: bool,
    /// Refresh the registry's index before asking it.
    pub update: bool,
}

/// One dependency to add: its name and the requirement given with it.
#[derive(Debug)]
pub struct AddRequest {
    pub name: String,
    pub requirement: Option<String>,
}

/// An `AddRequest` as a mathematical value.
pub ghost struct AddRequestView {
    pub name: Seq<char>,
    pub requirement: Option<Seq<char>>,
}

impl View for AddRequest {
    type V = AddRequestView;

    open spec fn view(&self) -> AddRequestView {
        AddRequestView {
            name: self.name@,
            requirement: match self.requirement {
                Some(text) => Some(text@),
                None => None,
            },
        }
    }
}

/// What the search of a registry came to for one request.
#[derive(Debug)]
pub enum Lookup {
    /// The registry knows the package by `name`, and `version` is the
    /// latest that meets the requirement.
    Found { name: String, version: Version },
    /// The registry holds nothing that meets the requirement, under any
    /// spelling of the name.
    NotFound,
    /// The name has too many separators for its spellings to be tried.
    TooManyVariants,
}

/// A `Lookup` as a mathematical value.
pub ghost enum LookupView {
    Found { name: Seq<char>, version: VersionView },
    NotFound,
    TooManyVariants,
}

impl View for Lookup {
    type V = LookupView;

    open spec fn view(&self) -> LookupView {
        match *self {
            Lookup::Found { name, version } => LookupView::Found { name: name@, version: version@ },
            Lookup::NotFound => LookupView::NotFound,
            Lookup::TooManyVariants => LookupView::TooManyVariants,
        }
    }
}

/// The lookup that the end of a search stands for; none for a step that
/// asks on.
pub open spec fn lookup_at(step: FuzzyStepView) -> Option<LookupView> {
    match step {
        FuzzyStepView::Ask { .. } => None,
        FuzzyStepView::Found { name, version } => Some(LookupView::Found { name, version }),
        FuzzyStepView::NotFound => Some(LookupView::NotFound),
        FuzzyStepView::TooManyVariants => Some(LookupView::TooManyVariants),
    }
}

/// The lookup that the end of a search stands for; `None` for a step that
/// asks on.
pub fn lookup_of(step: FuzzyStep) -> (r: Option<Lookup>)
    ensures
        match r {
            Some(lookup) => lookup_at(step@) == Some(lookup@),
            None => lookup_at(step@) is None,
        },
{
    match step {
        FuzzyStep::Ask { .. } => None,
        FuzzyStep::Found { name, version } => Some(Lookup::Found { name, version }),
        FuzzyStep::NotFound => Some(Lookup::NotFound),
        FuzzyStep::TooManyVariants => Some(Lookup::TooManyVariants),
    }
}

/// What became of one dependency that was to be added.
#[derive(Debug)]
pub enum AddOutcome {
    /// The registry holds no version for it: worth a warning.
    NoVersions { name: String },
    /// Its name has too many separators for a search: worth an error
    /// message, and the other dependencies go on.
    TooManyVariants { name: String },
    /// The manifest states a requirement for it already: worth a warning,
    /// and nothing was changed.
    AlreadyExists { name: String },
    /// The manifest cannot take the entry: the name or the requirement is
    /// no plain text, or something else than a table is in the way.
    /// Nothing was changed.
    Unwritable { name: String },
    /// The requirement `version` has been written for `name`. `renamed`
    /// says that the registry knows the package by another spelling than
    /// `requested`, the one asked for: worth a warning.
    Added { name: String, version: String, requested: String, renamed: bool },
}

/// An `AddOutcome` as a mathematical value.
pub ghost enum AddOutcomeView {
    NoVersions { name: Seq<char> },
    TooManyVariants { name: Seq<char> },
    AlreadyExists { name: Seq<char> },
    Unwritable { name: Seq<char> },
    Added { name: Seq<char>, version: Seq<char>, requested: Seq<char>, renamed: bool },
}

impl View for AddOutcome {
    type V = AddOutcomeView;

    open spec fn view(&self) -> AddOutcomeView {
        match *self {
            AddOutcome::NoVersions { name } => AddOutcomeView::NoVersions { name: name@ },
            AddOutcome::TooManyVariants { name } => AddOutcomeView::TooManyVariants { name: name@ },
            AddOutcome::AlreadyExists { name } => AddOutcomeView::AlreadyExists { name: name@ },
            AddOutcome::Unwritable { name } => AddOutcomeView::Unwritable { name: name@ },
            AddOutcome::Added { name, version, requested, renamed } => AddOutcomeView::Added {
                name: name@,
                version: version@,
                requested: requested@,
                renamed,
            },
        }
    }
}

/// The result of an addition.
pub struct AddReport {
    /// What became of each dependency, in the order of the arguments.
    pub outcomes: Vec<AddOutcome>,
    /// The manifest after the addition.
    pub document: ManifestDocument,
    /// The text to write back in place of the manifest; `None` on a dry run.
    pub text: Option<String>,
}

/// The kind that the flags of an addition select: development before
/// build.
pub open spec fn add_kind(dev: bool, build: bool) -> DepKind {
    if dev {
        DepKind::Development
    } else if build {
        DepKind::Build
    } else {
        DepKind::Normal
    }
}

/// How many characters stand before the first `@` of `text`; all of them if
/// there is none.
pub open spec fn name_length(text: Seq<char>) -> nat
    decreases text.len(),
{
    if text.len() == 0 || text[0] == '@' {
        0
    } else {
        1 + name_length(text.drop_first())
    }
}

/// The request that an argument states: the name is what stands before the
/// first `@`, the requirement what stands behind it.
pub open spec fn request_of(text: Seq<char>) -> AddRequestView {
    let n = name_length(text) as int;
    AddRequestView {
        name: text.subrange(0, n),
        requirement: if n < text.len() {
            Some(text.subrange(n + 1, text.len() as int))
        } else {
            None
        },
    }
}

/// Whether the requirement of a request, if it has one, is a version
/// requirement.
pub open spec fn request_ok(request: AddRequestView) -> bool {
    request.requirement matches Some(text) ==> semver_requirement(text)
}

/// The requests that a list of arguments states.
pub open spec fn requests_of(arguments: Seq<Seq<char>>) -> Seq<AddRequestView> {
    arguments.map_values(|text: Seq<char>| request_of(text))
}

/// The requirement that is written for a request: the one given with it,
/// as it was given; without one, the latest version, exactly.
pub open spec fn requirement_for(request: AddRequestView, version: VersionView) -> Seq<char> {
    match request.requirement {
        Some(text) => text,
        None => version_text(version),
    }
}

/// The manifest after one request has been dealt with, given what the
/// search of the registry came to, and what became of the request. Only a
/// package that was found, and that the manifest states no requirement for,
/// is written.
pub open spec fn recorded(tree: Node, kind: DepKind, request: AddRequestView, found: LookupView)
    -> (Node, AddOutcomeView) {
    match found {
        LookupView::NotFound => (tree, AddOutcomeView::NoVersions { name: request.name }),
        LookupView::TooManyVariants => (
            tree,
            AddOutcomeView::TooManyVariants { name: request.name },
        ),
        LookupView::Found { name, version } => {
            let slot = Slot { kind, platform: None, name };
            let text = requirement_for(request, version);
            if located(tree, slot) is Some {
                (tree, AddOutcomeView::AlreadyExists { name })
            } else if !writable(tree, slot, text) {
                (tree, AddOutcomeView::Unwritable { name })
            } else {
                (
                    written(tree, slot, text),
                    AddOutcomeView::Added {
                        name,
                        version: text,
                        requested: request.name,
                        renamed: name != request.name,
                    },
                )
            }
        },
    }
}

/// What the search came to for the request at `i`; a request without an
/// answer counts as not found.
pub open spec fn answer_at(found: Seq<LookupView>, i: int) -> LookupView {
    if 0 <= i < found.len() {
        found[i]
    } else {
        LookupView::NotFound
    }
}

/// The manifest after the first `n` requests have been dealt with, one
/// after the other, and what became of each.
pub open spec fn added(
    tree: Node,
    kind: DepKind,
    requests: Seq<AddRequestView>,
    found: Seq<LookupView>,
    n: nat,
) -> (Node, Seq<AddOutcomeView>)
    decreases n,
{
    if n == 0 {
        (tree, Seq::empty())
    } else {
        let before = added(tree, kind, requests, found, (n - 1) as nat);
        let step = recorded(before.0, kind, requests[n - 1], answer_at(found, n - 1));
        (step.0, before.1.push(step.1))
    }
}

/// The views of a list of requests.
pub open spec fn request_views(list: Seq<AddRequest>) -> Seq<AddRequestView> {
    list.map_values(|r: AddRequest| r@)
}

/// The views of a list of lookups.
pub open spec fn lookup_views(list: Seq<Lookup>) -> Seq<LookupView> {
    list.map_values(|l: Lookup| l@)
}

/// The views of a list of outcomes.
pub open spec fn add_outcomes(list: Seq<AddOutcome>) -> Seq<AddOutcomeView> {
    list.map_values(|o: AddOutcome| o@)
}

/// The first `@` of a text is where no `@` stands before.
proof fn lemma_name_length(text: Seq<char>, n: int)
    requires
        0 <= n <= text.len(),
        forall|j: int| 0 <= j < n ==> text[j] != '@',
        n < text.len() ==> text[n] == '@',
    ensures
        name_length(text) == n,
    decreases n,
{
    if n > 0 {
        let rest = text.drop_first();
        assert forall|j: int| 0 <= j < n - 1 implies rest[j] != '@' by {
            assert(rest[j] == text[j + 1]);
        }
        lemma_name_length(rest, n - 1);
    }
}

/// An addition that was made is not made again: with the same answer of
/// the registry, the same request finds its entry in place, and leaves the
/// manifest as the first addition left it.
pub proof fn lemma_add_twice(tree: Node, kind: DepKind, request: AddRequestView, found: LookupView)
    requires
        recorded(tree, kind, request, found).1 is Added,
    ensures
        found is Found,
        recorded(recorded(tree, kind, request, found).0, kind, request, found) == (
            recorded(tree, kind, request, found).0,
            AddOutcomeView::AlreadyExists { name: found->name },
        ),
{
    let slot = Slot { kind, platform: None, name: found->name };
    lemma_written_is_located(tree, slot, requirement_for(request, found->version));
}

/// What an addition writes is what is read afterwards.
pub proof fn lemma_added_is_located(
    tree: Node,
    kind: DepKind,
    request: AddRequestView,
    found: LookupView,
)
    requires
        recorded(tree, kind, request, found).1 is Added,
    ensures
        found is Found,
        located(
            recorded(tree, kind, request, found).0,
            (Slot { kind, platform: None, name: found->name }),
        ) == Some(requirement_for(request, found->version)),
{
    let slot = Slot { kind, platform: None, name: found->name };
    lemma_written_is_located(tree, slot, requirement_for(request, found->version));
}

/// An addition leaves the entry of every slot as it was but those of the
/// names that were found.
pub proof fn lemma_added_keeps_other_slots(
    tree: Node,
    kind: DepKind,
    requests: Seq<AddRequestView>,
    found: Seq<LookupView>,
    n: nat,
    other: Slot,
)
    requires
        forall|i: int|
            0 <= i < n && i < found.len() && (#[trigger] found[i]) is Found ==> other != (Slot {
                kind,
                platform: None,
                name: found[i]->name,
            }),
    ensures
        entry_of(added(tree, kind, requests, found, n).0, other) == entry_of(tree, other),
    decreases n,
{
    if n > 0 {
        lemma_added_keeps_other_slots(tree, kind, requests, found, (n - 1) as nat, other);
        let before = added(tree, kind, requests, found, (n - 1) as nat).0;
        let last = answer_at(found, n - 1);
        if last is Found {
            lemma_written_keeps_other_slots(
                before,
                Slot { kind, platform: None, name: last->name },
                other,
                requirement_for(requests[n - 1], last->version),
            );
        }
    }
}

impl Add {
    /// The manifest file that the arguments name, given whether `manifest`
    /// names a directory.
    pub fn manifest_path(&self, is_dir: bool) -> (r: String)
        ensures
            r@ == manifest_file(self.manifest@, is_dir),
    {
        locate_manifest(self.manifest.as_str(), is_dir)
    }

    /// The kind of dependencies to add.
    pub fn kind(&self) -> (r: DepKind)
        ensures
            r == add_kind(self.dev, self.build),
    {
        if self.dev {
            DepKind::Development
        } else if self.build {
            DepKind::Build
        } else {
            DepKind::Normal
        }
    }

    /// Reads one argument: a name, or a name, `@` and a version
    /// requirement. The requirement has to be one that `semver` reads.
    pub fn request(dependency: &str) -> (r: Result<AddRequest, ParseError>)
        ensures
            r is Ok == request_ok(request_of(dependency@)),
            r matches Ok(request) ==> request@ == request_of(dependency@),
            r matches Err(e) ==> e is Requirement,
    {
        let n = dependency.unicode_len();
        let mut i: usize = 0;
        while i < n && dependency.get_char(i) != '@'
            invariant
                n == dependency@.len(),
                i <= n,
                forall|j: int| 0 <= j < i ==> dependency@[j] != '@',
            decreases n - i,
        {
            i += 1;
        }
        proof {
            lemma_name_length(dependency@, i as int);
        }
        let name = dependency.substring_char(0, i).to_owned();
        if i == n {
            return Ok(AddRequest { name, requirement: None });
        }
        let requirement = dependency.substring_char(i + 1, n);
        match check_requirement(requirement) {
            Ok(()) => Ok(AddRequest { name, requirement: Some(requirement.to_owned()) }),
            Err(e) => Err(e),
        }
    }

    /// Deals with one request, given what the search of the registry came
    /// to. A dependency that the manifest states already is left alone. A
    /// new one gets the requirement of the request, or, without one, the
    /// version that was found.
    pub fn record(
        &self,
        document: &mut ManifestDocument,
        request: &AddRequest,
        found: &Lookup,
    ) -> (r: AddOutcome)
        ensures
            (final(document).tree(), r@) == recorded(
                old(document).tree(),
                add_kind(self.dev, self.build),
                request@,
                found@,
            ),
            !(r is Added) ==> *final(document) == *old(document),
            forall|other: Slot|
                (found@ matches LookupView::Found { name, .. } ==> other != (Slot {
                    kind: add_kind(self.dev, self.build),
                    platform: None,
                    name,
                })) ==> #[trigger] entry_of(final(document).tree(), other) == entry_of(
                    old(document).tree(),
                    other,
                ),
            r is Added ==> found@ is Found && final(document).decor_at(
                value_path(
                    old(document).tree(),
                    (Slot {
                        kind: add_kind(self.dev, self.build),
                        platform: None,
                        name: found@->name,
                    }),
                ),
            ) == Some(
                kept_decor(
                    old(document).decor_at(
                        value_path(
                            old(document).tree(),
                            (Slot {
                                kind: add_kind(self.dev, self.build),
                                platform: None,
                                name: found@->name,
                            }),
                        ),
                    ),
                ),
            ),
            forall|q: Seq<Seq<char>>|
                (found@ matches LookupView::Found { name, .. } ==> !leads_into(
                    value_path(
                        old(document).tree(),
                        (Slot { kind: add_kind(self.dev, self.build), platform: None, name }),
                    ),
                    q,
                )) ==> #[trigger] final(document).decor_at(q) == old(document).decor_at(q),
    {
        let (found_name, found_version) = match found {
            Lookup::NotFound => {
                return AddOutcome::NoVersions { name: request.name.clone() };
            },
            Lookup::TooManyVariants => {
                return AddOutcome::TooManyVariants { name: request.name.clone() };
            },
            Lookup::Found { name, version } => (name, version),
        };
        let kind = self.kind();
        let name = found_name.as_str();
        if get_dependency_version_req_text(document, kind, None, name).is_some() {
            return AddOutcome::AlreadyExists { name: name.to_owned() };
        }
        let version = match &request.requirement {
            Some(text) => text.clone(),
            None => found_version.to_text(),
        };
        if !accepts_dependency_version_req_text(document, kind, None, name, version.as_str()) {
            return AddOutcome::Unwritable { name: name.to_owned() };
        }
        put_dependency_version_req_text(document, kind, None, name, version.as_str());
        let renamed = !texts_equal(name, request.name.as_str());
        AddOutcome::Added {
            name: name.to_owned(),
            version,
            requested: request.name.clone(),
            renamed,
        }
    }

    /// Deals with the requests one after the other, `found` holding for
    /// each in turn what the search of the registry came to. A request
    /// without an answer counts as not found.
    pub fn apply(
        &self,
        document: &mut ManifestDocument,
        requests: &Vec<AddRequest>,
        found: &Vec<Lookup>,
    ) -> (r: Vec<AddOutcome>)
        ensures
            (final(document).tree(), add_outcomes(r@)) == added(
                old(document).tree(),
                add_kind(self.dev, self.build),
                request_views(requests@),
                lookup_views(found@),
                requests@.len(),
            ),
            (forall|i: int| 0 <= i < r@.len() ==> !(#[trigger] r@[i] is Added))
                ==> *final(document) == *old(document),
    {
        let mut outcomes: Vec<AddOutcome> = Vec::new();
        let unanswered = Lookup::NotFound;
        let mut i: usize = 0;
        while i < requests.len()
            invariant
                unanswered@ == LookupView::NotFound,
                i <= requests@.len(),
                outcomes@.len() == i,
                (document.tree(), add_outcomes(outcomes@)) == added(
                    old(document).tree(),
                    add_kind(self.dev, self.build),
                    request_views(requests@),
                    lookup_views(found@),
                    i as nat,
                ),
                (forall|j: int| 0 <= j < outcomes@.len() ==> !(#[trigger] outcomes@[j] is Added))
                    ==> *document == *old(document),
            decreases requests@.len() - i,
        {
            let ghost before = outcomes@;
            let answer = if i < found.len() {
                &found[i]
            } else {
                &unanswered
            };
            let outcome = self.record(document, &requests[i], answer);
            outcomes.push(outcome);
            proof {
                assert(request_views(requests@)[i as int] == requests@[i as int]@);
                assert(answer@ == answer_at(lookup_views(found@), i as int));
                assert(add_outcomes(outcomes@) =~= add_outcomes(before).push(outcome@));
                assert(outcomes@[i as int] == outcome);
                if forall|j: int| 0 <= j < outcomes@.len() ==> !(#[trigger] outcomes@[j] is Added) {
                    assert forall|j: int| 0 <= j < before.len() implies !(#[trigger] before[j]
                        is Added) by {
                        assert(before[j] == outcomes@[j]);
                    }
                }
            }
            i += 1;
        }
        outcomes
    }

    /// Reads every argument. The first that does not state a version
    /// requirement behind its `@` ends the reading with its error.
    pub fn requests(&self) -> (r: Result<Vec<AddRequest>, ParseError>)
        ensures
            r matches Err(e) ==> e is Requirement,
            r is Ok == (forall|i: int|
                0 <= i < self.dependencies@.len() ==> request_ok(
                    request_of(#[trigger] self.dependencies@[i]@),
                )),
            r matches Ok(requests) ==> request_views(requests@) == requests_of(
                texts(self.dependencies@),
            ),
    {
        let mut requests: Vec<AddRequest> = Vec::new();
        let mut i: usize = 0;
        while i < self.dependencies.len()
            invariant
                i <= self.dependencies@.len(),
                requests@.len() == i,
                forall|j: int|
                    0 <= j < i ==> request_ok(request_of(#[trigger] self.dependencies@[j]@)),
                forall|j: int|
                    0 <= j < i ==> (#[trigger] requests@[j])@ == request_of(
                        self.dependencies@[j]@,
                    ),
            decreases self.dependencies@.len() - i,
        {
            match Add::request(self.dependencies[i].as_str()) {
                Ok(request) => {
                    requests.push(request);
                },
                Err(e) => {
                    return Err(e);
                },
            }
            i += 1;
        }
        assert(request_views(requests@) =~= requests_of(texts(self.dependencies@)));
        Ok(requests)
    }

    /// Reads the manifest from `manifest_text`, adds the dependencies of
    /// the arguments and prints the manifest again, unless this is a dry
    /// run. `found` holds, for each argument in turn, what the search of
    /// the registry came to; an argument without an answer counts as not
    /// found.
    pub fn run(&self, manifest_text: &str, found: &Vec<Lookup>) -> (r: Result<
        AddReport,
        ParseError,
    >)
        ensures
            match r {
                Err(ParseError::Manifest(_)) => parsed_tree(manifest_text@) is None,
                Err(ParseError::Requirement(_)) => parsed_tree(manifest_text@) is Some && exists|
                    i: int,
                |
                    0 <= i < self.dependencies@.len() && !request_ok(
                        request_of(#[trigger] self.dependencies@[i]@),
                    ),
                Err(ParseError::Version(_)) => false,
                Ok(report) => {
                    &&& parsed_tree(manifest_text@) matches Some(tree)
                    &&& forall|i: int|
                        0 <= i < self.dependencies@.len() ==> request_ok(
                            request_of(#[trigger] self.dependencies@[i]@),
                        )
                    &&& (report.document.tree(), add_outcomes(report.outcomes@)) == added(
                        tree,
                        add_kind(self.dev, self.build),
                        requests_of(texts(self.dependencies@)),
                        lookup_views(found@),
                        self.dependencies@.len(),
                    )
                    &&& match report.text {
                        Some(text) => !self.dry && text@ == report.document.text(),
                        None => self.dry,
                    }
                },
            },
    {
        let mut document = match ManifestDocument::parse(manifest_text) {
            Ok(document) => document,
            Err(e) => {
                return Err(e);
            },
        };
        let requests = match self.requests() {
            Ok(requests) => requests,
            Err(e) => {
                return Err(e);
            },
        };
        assert(requests@.len() == request_views(requests@).len());
        let outcomes = self.apply(&mut document, &requests, found);
        let text = if self.dry {
            None
        } else {
            Some(document.to_text())
        };
        Ok(AddReport { outcomes, document, text })
    }
}

} // verus!
