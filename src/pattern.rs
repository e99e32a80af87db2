use vstd::prelude::*;

verus! {

#[verifier::external_type_specification]
#[verifier::external_body]
pub struct ExRegex(regex::Regex);

#[verifier::external_type_specification]
#[verifier::external_body]
pub struct ExRegexError(regex::Error);

/// A character that a regular expression matches as itself, outside any
/// character class and without the verbose flag.
pub open spec fn is_literal_char(c: char) -> bool {
    ('a' <= c <= 'z') || ('A' <= c <= 'Z') || ('0' <= c <= '9') || c == '_' || c == '-' || c == ' '
        || c == ':'
}

/// Text that, read as a regular expression, matches exactly itself.
pub open spec fn is_literal_pattern(p: Seq<char>) -> bool {
    p.len() > 0 && forall|i: int| 0 <= i < p.len() ==> #[trigger] is_literal_char(p[i])
}

/// Whether `p` occurs in `s` at index `i`.
pub open spec fn occurs_at(s: Seq<char>, p: Seq<char>, i: int) -> bool {
    0 <= i && i + p.len() <= s.len() && s.subrange(i, i + p.len()) == p
}

/// `s` with every occurrence of `p` replaced by `r`, scanning from the left
/// and never letting two replaced occurrences overlap.
pub open spec fn replace_literal(s: Seq<char>, p: Seq<char>, r: Seq<char>) -> Seq<char>
    decreases s.len(),
{
    if p.len() == 0 || s.len() < p.len() {
        s
    } else if s.subrange(0, p.len() as int) == p {
        r + replace_literal(s.subrange(p.len() as int, s.len() as int), p, r)
    } else {
        seq![s[0]] + replace_literal(s.subrange(1, s.len() as int), p, r)
    }
}

/// Whether the regular-expression engine accepts `p` as a pattern.
pub uninterp spec fn regex_accepts(p: Seq<char>) -> bool;

/// A compiled regular expression together with the text it was built from.
pub struct LiteralRegex {
    regex: regex::Regex,
    source: String,
}

impl LiteralRegex {
    pub closed spec fn source(&self) -> Seq<char> {
        self.source@
    }
}

/// Relies on regex::Regex::new: it fails exactly on the patterns the engine
/// refuses, which depends on the pattern text alone; it refuses only invalid
/// patterns and those whose compiled form exceeds the default size limit, which
/// a short run of literal characters is far below.
#[verifier::external_body]
pub(crate) fn compile(pattern: &str) -> (r: Result<LiteralRegex, regex::Error>)
    ensures
        r is Ok <==> regex_accepts(pattern@),
        is_literal_pattern(pattern@) && pattern@.len() <= 256 ==> r is Ok,
        r matches Ok(re) ==> re.source() == pattern@,
{
    regex::Regex::new(pattern).map(|regex| LiteralRegex { regex, source: pattern.to_string() })
}

/// Relies on regex::Regex::replace_all: every leftmost non-overlapping match
/// is replaced; a pattern of literal characters matches only itself, and a
/// replacement without `$` is inserted as it stands.
#[verifier::external_body]
pub(crate) fn replace_all(re: &LiteralRegex, haystack: &str, replacement: &str) -> (r: String)
    requires
        is_literal_pattern(re.source()),
        forall|i: int| 0 <= i < replacement@.len() ==> replacement@[i] != '$',
    ensures
        r@ == replace_literal(haystack@, re.source(), replacement@),
{
    re.regex.replace_all(haystack, replacement).into_owned()
}

} // verus!
