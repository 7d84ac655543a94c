//! Text primitives: lowercasing, word extraction and character access.
use vstd::prelude::*;

verus! {

/// The character sequences of a sequence of strings.
pub open spec fn views(s: Seq<String>) -> Seq<Seq<char>> {
    s.map_values(|t: String| t@)
}

/// What `str::to_lowercase` makes of a string.
pub uninterp spec fn lower_of(s: Seq<char>) -> Seq<char>;

/// The maximal runs of word characters of a string, in order, as the
/// pattern `\w+` of the regex crate finds them.
pub uninterp spec fn word_runs_of(s: Seq<char>) -> Seq<Seq<char>>;

/// The word tokens of a text: the runs of word characters of its lowercase
/// form, in order.
pub open spec fn tokens_of(text: Seq<char>) -> Seq<Seq<char>> {
    word_runs_of(lower_of(text))
}

/// Splits `text` into its word tokens.
pub fn tokenize(text: &str) -> (r: Vec<String>)
    ensures
        views(r@) == tokens_of(text@),
{
    let lower = lowercase(text);
    word_runs(lower.as_str())
}

/// Relies on `str::to_lowercase`: its result depends on the characters alone.
#[verifier::external_body]
pub(crate) fn lowercase(s: &str) -> (r: String)
    ensures
        r@ == lower_of(s@),
{
    s.to_lowercase()
}

/// Relies on `regex::Regex::new` and `regex::Regex::find_iter`: the pattern
/// `\w+` is valid and compiles within the default size limit, and the
/// successive non-overlapping matches in the haystack are its runs of
/// Unicode word characters, left to right.
#[verifier::external_body]
pub(crate) fn word_runs(s: &str) -> (r: Vec<String>)
    ensures
        views(r@) == word_runs_of(s@),
{
    let re = regex::Regex::new(r"\w+").unwrap();
    re.find_iter(s).map(|m| m.as_str().to_string()).collect()
}

/// Relies on `String::push`: the character is appended at the end.
#[verifier::external_body]
pub(crate) fn push_char(s: &mut String, c: char)
    ensures
        final(s)@ == old(s)@.push(c),
{
    s.push(c);
}

/// The characters of `s`, in order.
pub(crate) fn chars_of(s: &str) -> (r: Vec<char>)
    ensures
        r@ == s@,
{
    let n = s.unicode_len();
    let mut r: Vec<char> = Vec::new();
    let mut i: usize = 0;
    while i < n
        invariant
            n == s@.len(),
            i <= n,
            r@ == s@.subrange(0, i as int),
        decreases n - i,
    {
        r.push(s.get_char(i));
        i = i + 1;
    }
    r
}

/// Appends the characters `cs[lo..hi]` to `s`.
pub(crate) fn push_chars(s: &mut String, cs: &Vec<char>, lo: usize, hi: usize)
    requires
        lo <= hi <= cs@.len(),
    ensures
        final(s)@ == old(s)@ + cs@.subrange(lo as int, hi as int),
{
    let mut i: usize = lo;
    while i < hi
        invariant
            lo <= i <= hi <= cs@.len(),
            s@ == old(s)@ + cs@.subrange(lo as int, i as int),
        decreases hi - i,
    {
        push_char(s, cs[i]);
        i = i + 1;
        assert(s@ =~= old(s)@ + cs@.subrange(lo as int, i as int));
    }
}

} // verus!
