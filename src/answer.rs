//! Reading the operator's answer to the retry prompt.
use vstd::prelude::*;

verus! {

/// `c` with an ASCII upper-case letter turned to lower case.
pub open spec fn ascii_lower_char(c: char) -> char {
    if 'A' <= c && c <= 'Z' {
        ((c as u32) + 32) as char
    } else {
        c
    }
}

/// `s` with every ASCII upper-case letter turned to lower case.
pub open spec fn ascii_lower(s: Seq<char>) -> Seq<char> {
    s.map_values(|c: char| ascii_lower_char(c))
}

/// What `str::trim` leaves of a text.
pub uninterp spec fn trimmed(s: Seq<char>) -> Seq<char>;

/// Relies on `str::to_ascii_lowercase`: ASCII letters are lowered, every other character is
/// kept.
#[verifier::external_body]
fn lowercase_ascii(s: &str) -> (r: String)
    ensures
        r@ == ascii_lower(s@),
{
    s.to_ascii_lowercase()
}

/// Whether `c` is an ASCII letter or digit, which no trimming removes.
pub open spec fn ascii_alphanumeric(c: char) -> bool {
    ('a' <= c && c <= 'z') || ('A' <= c && c <= 'Z') || ('0' <= c && c <= '9')
}

/// Relies on `str::trim`: the result depends on the text alone and drops only leading and
/// trailing white space, so it is no longer than the text, made of its characters, and the
/// whole text when that is all ASCII letters and digits.
#[verifier::external_body]
fn trim_text(s: &str) -> (r: String)
    ensures
        r@ == trimmed(s@),
        r@.len() <= s@.len() && forall|k: int| 0 <= k < r@.len() ==> s@.contains(#[trigger] r@[k]),
        (forall|k: int| 0 <= k < s@.len() ==> ascii_alphanumeric(#[trigger] s@[k])) ==> r@ == s@,
{
    s.trim().to_string()
}

/// Whether an answer, already lowered and trimmed, is the affirmative `y`.
pub fn answer_is_yes(normalized: &str) -> (r: bool)
    ensures
        r == (normalized@ == seq!['y']),
{
    proof {
        reveal_strlit("y");
    }
    let yes = String::from_str("y");
    proof {
        assert(yes@ =~= seq!['y']);
    }
    let n = normalized.to_owned();
    n == yes
}

/// Whether the operator's answer asks for another round: after lowering and trimming it
/// reads `y`.
pub fn wants_retry(answer: &str) -> (r: bool)
    ensures
        r == (trimmed(ascii_lower(answer@)) == seq!['y']),
        (forall|k: int| 0 <= k < answer@.len() ==> answer@[k] != 'y' && answer@[k] != 'Y') ==> !r,
        answer@ == seq!['y'] || answer@ == seq!['Y'] ==> r,
{
    let lowered = lowercase_ascii(answer);
    let t = trim_text(lowered.as_str());
    let r = answer_is_yes(t.as_str());
    proof {
        if r && forall|k: int| 0 <= k < answer@.len() ==> answer@[k] != 'y' && answer@[k] != 'Y' {
            assert(lowered@.contains(t@[0]));
            let i = choose|i: int| 0 <= i < lowered@.len() && lowered@[i] == t@[0];
            assert(ascii_lower_char(answer@[i]) == 'y');
        }
        if answer@ == seq!['y'] || answer@ == seq!['Y'] {
            assert(lowered@ =~= seq!['y']);
            assert(ascii_alphanumeric(lowered@[0]));
        }
    }
    r
}

} // verus!
