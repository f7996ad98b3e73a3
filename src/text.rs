use vstd::prelude::*;

verus! {

/// What `str::trim` leaves of a text.
pub uninterp spec fn trim_of(s: Seq<char>) -> Seq<char>;

/// Relies on `str::trim`: the text without leading and trailing white space
/// (Unicode `White_Space`); the result depends on the text alone.
#[verifier::external_body]
pub(crate) fn trimmed(s: &str) -> (r: String)
    ensures
        r@ == trim_of(s@),
{
    s.trim().to_string()
}

/// `needle` occurs as a contiguous run of characters in `hay`.
pub open spec fn has_infix(hay: Seq<char>, needle: Seq<char>) -> bool {
    exists|i: int|
        0 <= i && i + needle.len() <= hay.len() && #[trigger] hay.subrange(i, i + needle.len())
            == needle
}

/// Relies on `str::contains` with a `&str` pattern: true exactly when the
/// pattern matches a sub-slice of the text (an empty pattern always does).
#[verifier::external_body]
pub(crate) fn contains_text(hay: &str, needle: &str) -> (r: bool)
    ensures
        r == has_infix(hay@, needle@),
{
    hay.contains(needle)
}

/// Relies on `str::split_once` with a `char` pattern: the parts before and
/// after the first occurrence of `'/'`, or nothing when there is none.
#[verifier::external_body]
pub(crate) fn split_at_first_slash(s: &str) -> (r: Option<(String, String)>)
    ensures
        match r {
            None => !s@.contains('/'),
            Some((a, b)) => !a@.contains('/') && s@ == a@ + seq!['/'] + b@,
        },
{
    match s.split_once('/') {
        Some((a, b)) => Some((a.to_string(), b.to_string())),
        None => None,
    }
}

/// Copies a list of strings.
pub fn copy_strings(v: &Vec<String>) -> (r: Vec<String>)
    ensures
        r@ == v@,
{
    let mut r: Vec<String> = Vec::new();
    let mut i: usize = 0;
    while i < v.len()
        invariant
            i <= v@.len(),
            r@ == v@.take(i as int),
        decreases v@.len() - i,
    {
        r.push(v[i].clone());
        assert(r@ == v@.take(i + 1));
        i += 1;
    }
    assert(v@.take(i as int) == v@);
    r
}

} // verus!
