//! The spellings of a package name: every way to choose between `-` and `_`
//! at each place where the name has one of the two.
//!
//! The spellings of a name are numbered by a mask. The separators of the
//! name, from left to right, take the bits of the mask from the lowest up:
//! a set bit gives `-`, a clear bit gives `_`.

use vstd::prelude::*;
use vstd::arithmetic::power2::{lemma2_to64, lemma2_to64_rest, pow2};
use vstd::arithmetic::power2::{lemma_pow2_adds, lemma_pow2_strictly_increases, lemma_pow2_unfold};

verus! {

/// A hyphen or an underscore.
pub open spec fn is_separator(c: char) -> bool {
    c == '-' || c == '_'
}

/// How many separators `name` has.
pub open spec fn separators(name: Seq<char>) -> nat
    decreases name.len(),
{
    if name.len() == 0 {
        0
    } else {
        separators(name.drop_first()) + if is_separator(name[0]) {
            1nat
        } else {
            0nat
        }
    }
}

/// How many spellings `name` has: two for each separator.
pub open spec fn spelling_count(name: Seq<char>) -> nat
    decreases name.len(),
{
    if name.len() == 0 {
        1
    } else if is_separator(name[0]) {
        2 * spelling_count(name.drop_first())
    } else {
        spelling_count(name.drop_first())
    }
}

/// The separator that a bit stands for.
pub open spec fn separator_for(mask: nat) -> char {
    if mask % 2 == 1 {
        '-'
    } else {
        '_'
    }
}

/// The spelling of `name` with number `mask`.
pub open spec fn spelling(name: Seq<char>, mask: nat) -> Seq<char>
    decreases name.len(),
{
    if name.len() == 0 {
        Seq::empty()
    } else if is_separator(name[0]) {
        seq![separator_for(mask)] + spelling(name.drop_first(), mask / 2)
    } else {
        seq![name[0]] + spelling(name.drop_first(), mask)
    }
}

/// What is left of `mask` when every separator of `name` has taken its bit.
pub open spec fn leftover(name: Seq<char>, mask: nat) -> nat
    decreases name.len(),
{
    if name.len() == 0 {
        mask
    } else if is_separator(name[0]) {
        leftover(name.drop_first(), mask / 2)
    } else {
        leftover(name.drop_first(), mask)
    }
}

/// Whether `other` is `name` but for the choice of separators: as long as
/// `name`, a separator wherever `name` has one, and the same character
/// everywhere else.
pub open spec fn is_respelling(name: Seq<char>, other: Seq<char>) -> bool {
    &&& other.len() == name.len()
    &&& forall|i: int|
        0 <= i < name.len() ==> if is_separator(#[trigger] name[i]) {
            is_separator(other[i])
        } else {
            other[i] == name[i]
        }
}

/// The number of the spelling `other` of `name`.
pub open spec fn mask_of(name: Seq<char>, other: Seq<char>) -> nat
    decreases name.len(),
{
    if name.len() == 0 || other.len() == 0 {
        0
    } else if is_separator(name[0]) {
        2 * mask_of(name.drop_first(), other.drop_first()) + if other[0] == '-' {
            1nat
        } else {
            0nat
        }
    } else {
        mask_of(name.drop_first(), other.drop_first())
    }
}

/// A mask is the number of a spelling exactly if nothing of it is left
/// over.
pub proof fn lemma_leftover(name: Seq<char>, mask: nat)
    ensures
        leftover(name, mask) == 0 <==> mask < spelling_count(name),
        spelling_count(name) > 0,
    decreases name.len(),
{
    if name.len() > 0 {
        if is_separator(name[0]) {
            lemma_leftover(name.drop_first(), mask / 2);
        } else {
            lemma_leftover(name.drop_first(), mask);
        }
    }
}

/// A name has two to the number of its separators spellings.
pub proof fn lemma_count_is_power(name: Seq<char>)
    ensures
        spelling_count(name) == pow2(separators(name)),
    decreases name.len(),
{
    lemma2_to64();
    if name.len() > 0 {
        lemma_count_is_power(name.drop_first());
        if is_separator(name[0]) {
            lemma_pow2_unfold(separators(name));
        }
    }
}

/// With at most 127 separators the numbers of all spellings, and the number
/// after the last, fit in 128 bits.
pub proof fn lemma_count_fits(name: Seq<char>)
    requires
        separators(name) <= 127,
    ensures
        spelling_count(name) <= 0x8000_0000_0000_0000_0000_0000_0000_0000,
{
    lemma_count_is_power(name);
    lemma2_to64();
    lemma2_to64_rest();
    lemma_pow2_adds(64, 63);
    assert(pow2(127) == 0x8000_0000_0000_0000_0000_0000_0000_0000) by {
        assert(0x1_0000_0000_0000_0000 * 0x8000_0000_0000_0000
            == 0x8000_0000_0000_0000_0000_0000_0000_0000) by (nonlinear_arith);
    }
    if separators(name) < 127 {
        lemma_pow2_strictly_increases(separators(name), 127);
    }
}

/// Every numbered spelling of a name is a respelling of it.
pub proof fn lemma_spelling_is_respelling(name: Seq<char>, mask: nat)
    ensures
        is_respelling(name, spelling(name, mask)),
    decreases name.len(),
{
    if name.len() > 0 {
        let rest = name.drop_first();
        let next = if is_separator(name[0]) {
            mask / 2
        } else {
            mask
        };
        lemma_spelling_is_respelling(rest, next);
        let s = spelling(name, mask);
        assert forall|i: int| 0 <= i < name.len() implies if is_separator(#[trigger] name[i]) {
            is_separator(s[i])
        } else {
            s[i] == name[i]
        } by {
            if i > 0 {
                assert(name[i] == rest[i - 1]);
                assert(s[i] == spelling(rest, next)[i - 1]);
            }
        }
    }
}

/// Every respelling of a name is one of its numbered spellings.
pub proof fn lemma_respelling_is_numbered(name: Seq<char>, other: Seq<char>)
    requires
        is_respelling(name, other),
    ensures
        mask_of(name, other) < spelling_count(name),
        spelling(name, mask_of(name, other)) == other,
    decreases name.len(),
{
    if name.len() == 0 {
        assert(other =~= Seq::empty());
    } else {
        let rest = name.drop_first();
        let tail = other.drop_first();
        assert(is_respelling(rest, tail)) by {
            assert forall|i: int| 0 <= i < rest.len() implies if is_separator(#[trigger] rest[i]) {
                is_separator(tail[i])
            } else {
                tail[i] == rest[i]
            } by {
                assert(rest[i] == name[i + 1]);
                assert(tail[i] == other[i + 1]);
            }
        }
        lemma_respelling_is_numbered(rest, tail);
        assert(is_separator(name[0]) ==> is_separator(other[0]));
        assert(!is_separator(name[0]) ==> other[0] == name[0]);
        assert(other =~= seq![other[0]] + tail);
    }
}

/// A name without separators has no spelling but itself.
pub proof fn lemma_respelling_without_separators(name: Seq<char>, other: Seq<char>)
    requires
        separators(name) == 0,
        is_respelling(name, other),
    ensures
        other == name,
    decreases name.len(),
{
    if name.len() > 0 {
        let rest = name.drop_first();
        let tail = other.drop_first();
        assert(is_respelling(rest, tail)) by {
            assert forall|i: int| 0 <= i < rest.len() implies if is_separator(#[trigger] rest[i]) {
                is_separator(tail[i])
            } else {
                tail[i] == rest[i]
            } by {
                assert(rest[i] == name[i + 1]);
                assert(tail[i] == other[i + 1]);
            }
        }
        lemma_respelling_without_separators(rest, tail);
        assert(other[0] == name[0]);
        assert(other =~= seq![other[0]] + tail);
        assert(name =~= seq![name[0]] + rest);
    } else {
        assert(other =~= name);
    }
}

/// Whether `c` is a separator.
pub fn is_separator_char(c: char) -> (r: bool)
    ensures
        r == is_separator(c),
{
    c == '-' || c == '_'
}

/// Counts the separators of `name`.
pub fn count_separators(name: &str) -> (r: usize)
    ensures
        r == separators(name@),
{
    let n = name.unicode_len();
    let mut count: usize = 0;
    let mut i: usize = 0;
    assert(name@.skip(0) == name@);
    while i < n
        invariant
            n == name@.len(),
            i <= n,
            count <= i,
            separators(name@) == count + separators(name@.skip(i as int)),
        decreases n - i,
    {
        let c = name.get_char(i);
        proof {
            assert(name@.skip(i as int).drop_first() == name@.skip(i + 1));
            assert(name@.skip(i as int)[0] == c);
        }
        if is_separator_char(c) {
            count += 1;
        }
        i += 1;
    }
    count
}

/// Writes the spelling of `name` with number `mask`, and says what is left
/// of the mask: zero exactly if the name has a spelling with that number.
pub fn respell(name: &str, mask: u128) -> (r: (String, u128))
    ensures
        r.0@ == spelling(name@, mask as nat),
        r.1 == leftover(name@, mask as nat),
        (r.1 == 0) == (mask < spelling_count(name@)),
{
    let n = name.unicode_len();
    let mut out = String::new();
    let mut rest = mask;
    let mut i: usize = 0;
    assert(name@.skip(0) == name@);
    while i < n
        invariant
            n == name@.len(),
            i <= n,
            spelling(name@, mask as nat) == out@ + spelling(name@.skip(i as int), rest as nat),
            leftover(name@, mask as nat) == leftover(name@.skip(i as int), rest as nat),
        decreases n - i,
    {
        let c = name.get_char(i);
        proof {
            assert(name@.skip(i as int).drop_first() == name@.skip(i + 1));
            assert(name@.skip(i as int)[0] == c);
        }
        let ghost before = out@;
        if is_separator_char(c) {
            if rest % 2 == 1 {
                out.push('-');
            } else {
                out.push('_');
            }
            rest = rest / 2;
        } else {
            out.push(c);
        }
        proof {
            let tail = spelling(name@.skip(i + 1), rest as nat);
            assert(before + (seq![out@.last()] + tail) =~= out@ + tail);
        }
        i += 1;
    }
    proof {
        lemma_leftover(name@, mask as nat);
    }
    (out, rest)
}

} // verus!
