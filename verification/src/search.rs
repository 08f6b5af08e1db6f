//! The search for a package under all spellings of its name, as a whole:
//! what the steps of `latest_version_fuzzy` come to when a registry answers
//! each of them.

use vstd::prelude::*;
use crate::crates::{asked, next_step, Attempt, FuzzyStepView, MAX_SEPARATORS};
use crate::spelling::{
    is_respelling, lemma_count_fits, lemma_leftover, lemma_respelling_is_numbered,
    lemma_respelling_without_separators, lemma_spelling_is_respelling, mask_of, separators,
    spelling, spelling_count,
};
use crate::version::VersionView;

verus! {

/// A registry, for what the search asks of it: the latest version that it
/// holds for a name, if any. It answers each name the same way throughout.
pub type Registry = spec_fn(Seq<char>) -> Option<VersionView>;

/// How many attempts can follow `attempt` at most.
pub open spec fn attempts_left(name: Seq<char>, attempt: Attempt) -> nat {
    match attempt {
        Attempt::Verbatim => spelling_count(name) + 1,
        Attempt::Variant(mask) => if mask < spelling_count(name) {
            (spelling_count(name) - mask) as nat
        } else {
            0
        },
    }
}

/// Where the search for `name` ends when it goes on from `attempt`, each
/// name asked of `registry` and each answer handed to `next_step`.
pub open spec fn search_from(name: Seq<char>, attempt: Attempt, registry: Registry)
    -> FuzzyStepView
    decreases attempts_left(name, attempt),
    via search_from_decreases
{
    let step = next_step(name, attempt, registry(asked(name, attempt)));
    match step {
        FuzzyStepView::Ask { name: _, attempt: next } => search_from(name, next, registry),
        _ => step,
    }
}

#[via_fn]
proof fn search_from_decreases(name: Seq<char>, attempt: Attempt, registry: Registry) {
    if separators(name) <= MAX_SEPARATORS {
        lemma_count_fits(name);
    }
    lemma_leftover(name, 0);
}

/// The number of the first spelling of `name`, from `mask` on, that
/// `registry` holds.
pub open spec fn first_published(name: Seq<char>, registry: Registry, mask: nat) -> Option<nat>
    decreases spelling_count(name) - mask,
{
    if mask >= spelling_count(name) {
        None
    } else if registry(spelling(name, mask)) is Some {
        Some(mask)
    } else {
        first_published(name, registry, mask + 1)
    }
}

/// What the search for `name` in `registry` comes to: the name itself if
/// the registry holds it; else, for a name with separators and no more than
/// `MAX_SEPARATORS` of them, the first of its spellings that the registry
/// holds.
pub open spec fn resolved(name: Seq<char>, registry: Registry) -> FuzzyStepView {
    match registry(name) {
        Some(version) => FuzzyStepView::Found { name, version },
        None => if separators(name) == 0 {
            FuzzyStepView::NotFound
        } else if separators(name) > MAX_SEPARATORS {
            FuzzyStepView::TooManyVariants
        } else {
            match first_published(name, registry, 0) {
                Some(mask) => FuzzyStepView::Found {
                    name: spelling(name, mask),
                    version: registry(spelling(name, mask))->0,
                },
                None => FuzzyStepView::NotFound,
            }
        },
    }
}

/// What `first_published` finds is a spelling that the registry holds, with
/// none before it from `mask` on; it finds none only if the registry holds
/// no spelling from `mask` on.
pub proof fn lemma_first_published(name: Seq<char>, registry: Registry, mask: nat)
    ensures
        match first_published(name, registry, mask) {
            Some(found) => {
                &&& mask <= found < spelling_count(name)
                &&& registry(spelling(name, found)) is Some
                &&& forall|m: nat|
                    mask <= m < found ==> registry(#[trigger] spelling(name, m)) is None
            },
            None => forall|m: nat|
                mask <= m < spelling_count(name) ==> registry(#[trigger] spelling(name, m)) is None,
        },
    decreases spelling_count(name) - mask,
{
    if mask < spelling_count(name) && registry(spelling(name, mask)) is None {
        lemma_first_published(name, registry, mask + 1);
    }
}

/// From any spelling on, the steps of the search end at the first spelling
/// that the registry holds.
pub proof fn lemma_search_from_variant(name: Seq<char>, registry: Registry, mask: u128)
    requires
        0 < separators(name) <= MAX_SEPARATORS,
        mask < spelling_count(name),
    ensures
        search_from(name, Attempt::Variant(mask), registry) == match first_published(
            name,
            registry,
            mask as nat,
        ) {
            Some(found) => FuzzyStepView::Found {
                name: spelling(name, found),
                version: registry(spelling(name, found))->0,
            },
            None => FuzzyStepView::NotFound,
        },
    decreases spelling_count(name) - mask,
{
    lemma_count_fits(name);
    if registry(spelling(name, mask as nat)) is None && mask + 1 < spelling_count(name) {
        lemma_search_from_variant(name, registry, (mask + 1) as u128);
    }
}

/// The steps of the search, each answered by the registry, end at what
/// `resolved` states.
pub proof fn lemma_search_resolves(name: Seq<char>, registry: Registry)
    ensures
        search_from(name, Attempt::Verbatim, registry) == resolved(name, registry),
{
    lemma_leftover(name, 0);
    if registry(name) is None && 0 < separators(name) <= MAX_SEPARATORS {
        lemma_search_from_variant(name, registry, 0);
    }
}

/// If the registry holds the name under any spelling, and the name has no
/// more than `MAX_SEPARATORS` separators, the search finds it: under the
/// name as given, or under one of its spellings, with the registry's answer
/// for that spelling.
pub proof fn lemma_search_finds_respelling(name: Seq<char>, registry: Registry, other: Seq<char>)
    requires
        separators(name) <= MAX_SEPARATORS,
        is_respelling(name, other),
        registry(other) is Some,
    ensures
        search_from(name, Attempt::Verbatim, registry) matches FuzzyStepView::Found {
            name: found,
            version,
        } && registry(found) == Some(version) && (found == name || is_respelling(name, found)),
{
    lemma_search_resolves(name, registry);
    if registry(name) is None {
        if separators(name) == 0 {
            lemma_respelling_without_separators(name, other);
        } else {
            lemma_respelling_is_numbered(name, other);
            lemma_first_published(name, registry, 0);
            let found = first_published(name, registry, 0);
            assert(found is Some) by {
                if found is None {
                    assert(registry(spelling(name, mask_of(name, other))) is None);
                }
            }
            lemma_spelling_is_respelling(name, found->0);
        }
    }
}

/// A name with more than `MAX_SEPARATORS` separators that the registry does
/// not hold as given is given up at once: the first answer ends the search,
/// and no spelling is asked for.
pub proof fn lemma_search_gives_up(name: Seq<char>, registry: Registry)
    requires
        separators(name) > MAX_SEPARATORS,
        registry(name) is None,
    ensures
        next_step(name, Attempt::Verbatim, None) == FuzzyStepView::TooManyVariants,
        search_from(name, Attempt::Verbatim, registry) == FuzzyStepView::TooManyVariants,
{
}

} // verus!
