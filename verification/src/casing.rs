use vstd::prelude::*;

verus! {

/// What lowercasing yields for a given character sequence. Unicode
/// lowercasing takes pages to state, so the result only carries a name here;
/// the trusted item below ties the name to the real mapping, and the facts
/// stated beside it are the ones version comparison needs.
pub uninterp spec fn lower_of(s: Seq<char>) -> Seq<char>;

pub open spec fn is_ascii_char(c: char) -> bool {
    (c as int) < 128
}

pub open spec fn is_ascii_seq(s: Seq<char>) -> bool {
    forall|i: int| 0 <= i < s.len() ==> is_ascii_char(s[i])
}

/// `low` is what lowercasing does to the single ASCII character `orig`: an
/// ASCII capital letter moves down the alphabet's 32-place offset, every
/// other ASCII character stays itself.
pub open spec fn ascii_lowered_char(orig: char, low: char) -> bool {
    if 'A' <= orig && orig <= 'Z' {
        low as int == orig as int + 32
    } else {
        low == orig
    }
}

/// `low` is what lowercasing does to the ASCII sequence `s`, character by
/// character.
pub open spec fn ascii_lowered_seq(s: Seq<char>, low: Seq<char>) -> bool {
    low.len() == s.len() && forall|i: int| 0 <= i < s.len() ==> ascii_lowered_char(s[i], low[i])
}

/// The two characters are the same letter up to ASCII case.
pub open spec fn same_char_ignoring_ascii_case(a: char, b: char) -> bool {
    a == b || ('A' <= a && a <= 'Z' && b as int == a as int + 32) || ('A' <= b && b <= 'Z'
        && a as int == b as int + 32)
}

/// The two sequences are the same text up to ASCII case.
pub open spec fn same_ignoring_ascii_case(a: Seq<char>, b: Seq<char>) -> bool {
    a.len() == b.len() && forall|i: int| 0 <= i < a.len() ==> same_char_ignoring_ascii_case(
        a[i],
        b[i],
    )
}

/// Relies on str::to_lowercase: the result is a function of the characters
/// alone, and on ASCII text it is the character-by-character mapping that
/// sends each capital letter 'A' through 'Z' down by 32 and keeps every other
/// character, as std documents.
#[verifier::external_body]
fn to_lowercase(s: &str) -> (r: String)
    ensures
        r@ == lower_of(s@),
        is_ascii_seq(s@) ==> ascii_lowered_seq(s@, r@),
{
    s.to_lowercase()
}

/// Whether two version strings are the same after lowercasing, the
/// case-insensitive comparison the validation pipeline applies. Two ASCII
/// strings that are the same text up to case always match.
pub fn versions_match(a: &str, b: &str) -> (r: bool)
    ensures
        r == (lower_of(a@) == lower_of(b@)),
        is_ascii_seq(a@) && is_ascii_seq(b@) && same_ignoring_ascii_case(a@, b@) ==> r,
{
    let lowered_a = to_lowercase(a);
    let lowered_b = to_lowercase(b);
    proof {
        if is_ascii_seq(a@) && is_ascii_seq(b@) && same_ignoring_ascii_case(a@, b@) {
            assert forall|i: int| 0 <= i < a@.len() implies lowered_a@[i] == lowered_b@[i] by {
                assert(ascii_lowered_char(a@[i], lowered_a@[i]));
                assert(ascii_lowered_char(b@[i], lowered_b@[i]));
                assert(same_char_ignoring_ascii_case(a@[i], b@[i]));
            }
            assert(lowered_a@ =~= lowered_b@);
        }
    }
    lowered_a == lowered_b
}

} // verus!
