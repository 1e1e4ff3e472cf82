//! Compiled search patterns.  Compilation and matching come from the regex
//! crate; both are functions of the pattern text, the case flag, and the
//! searched text, and are given names here.

use vstd::prelude::*;

verus! {

#[verifier::external_type_specification]
#[verifier::external_body]
pub struct ExRegex(regex::Regex);

/// Whether the given pattern text compiles as a regular expression under
/// the given case flag.  The flag matters: case-insensitive translation
/// case-folds literals and classes, which can push a pattern over the
/// builder's compiled-size limit.
pub uninterp spec fn regex_compiles(q: Seq<char>, ci: bool) -> bool;

/// The non-overlapping matches regex search finds for a pattern (its text
/// and case flag) over one line of text: byte-offset pairs in ascending
/// order.
pub uninterp spec fn regex_matches(q: Seq<char>, ci: bool, text: Seq<char>) -> Seq<(int, int)>;

/// Whether a character counts as uppercase for the smart-case rule.
pub uninterp spec fn char_is_upper(c: char) -> bool;

/// A compiled matcher together with the text and case flag it was compiled
/// from.  Values exist only through `compile_pattern`, which keeps the
/// matcher and the recorded text in step.
pub struct Pattern {
    re: regex::Regex,
    query: String,
    case_insensitive: bool,
}

impl Pattern {
    /// The pattern text this matcher was compiled from.
    pub closed spec fn spec_query(&self) -> Seq<char> {
        self.query@
    }

    /// The case flag this matcher was compiled with.
    pub closed spec fn ci(&self) -> bool {
        self.case_insensitive
    }

    /// The pattern text, for display.
    pub fn query_text(&self) -> (r: &String)
        ensures
            r@ == self.spec_query(),
    {
        &self.query
    }

    /// Relies on `Regex::clone`: the copy matches exactly as the original
    /// does, so it stands for the same pattern text and case flag.
    #[verifier::external_body]
    pub fn duplicate(&self) -> (r: Pattern)
        ensures
            r.spec_query() == self.spec_query(),
            r.ci() == self.ci(),
    {
        Pattern {
            re: self.re.clone(),
            query: self.query.clone(),
            case_insensitive: self.case_insensitive,
        }
    }
}

/// Relies on regex's `RegexBuilder::build`: whether compilation succeeds
/// is a function of the pattern text and the case flag together (the
/// flag's case folding can push a pattern over the builder's compiled-size
/// limit); the error case hands back the crate's message.
#[verifier::external_body]
pub fn compile_pattern(query: &str, case_insensitive: bool) -> (r: Result<Pattern, String>)
    ensures
        r is Ok <==> regex_compiles(query@, case_insensitive),
        r matches Ok(p) ==> p.spec_query() == query@ && p.ci() == case_insensitive,
{
    match regex::RegexBuilder::new(query).case_insensitive(case_insensitive).build() {
        Ok(re) => Ok(Pattern { re, query: query.to_string(), case_insensitive }),
        Err(e) => Err(e.to_string()),
    }
}

/// Relies on `Regex::find_iter`: yields every non-overlapping match over
/// the text in ascending byte order, a function of the compiled pattern
/// and the text alone.
#[verifier::external_body]
pub fn find_matches(p: &Pattern, text: &str) -> (r: Vec<(usize, usize)>)
    ensures
        r@.map_values(|m: (usize, usize)| (m.0 as int, m.1 as int)) == regex_matches(
            p.spec_query(),
            p.ci(),
            text@,
        ),
        forall|k: int| 0 <= k < r@.len() ==> (#[trigger] r@[k]).0 <= r@[k].1,
        forall|k: int| 0 <= k < r@.len() - 1 ==> (#[trigger] r@[k]).1 <= r@[k + 1].0,
{
    p.re.find_iter(text).map(|m| (m.start(), m.end())).collect()
}

/// Relies on `char::is_uppercase`: a function of the character alone;
/// ASCII characters are classified as the ASCII table says.
#[verifier::external_body]
pub fn is_uppercase_char(c: char) -> (r: bool)
    ensures
        r == char_is_upper(c),
        65 <= c as u32 && c as u32 <= 90 ==> r,
        97 <= c as u32 && c as u32 <= 122 ==> !r,
        (c as u32) < 65 ==> !r,
{
    c.is_uppercase()
}

} // verus!
