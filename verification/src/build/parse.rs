//! Reading `NAME = 0x...;` assignments out of a linker script.

use vstd::prelude::*;
use vstd::string::StringExecFns;

use crate::libs::dtb::props::parse_hex_spec;
use crate::libs::dtb::props::parse_hex_usize;

verus! {

#[verifier::external_type_specification]
#[verifier::external_body]
pub struct ExRegex(regex::Regex);

#[verifier::external_type_specification]
#[verifier::external_body]
pub struct ExRegexError(regex::Error);

/// Whether `regex::Regex::new` compiles a pattern (it is well formed and within the
/// default size limit).
pub uninterp spec fn regex_compiles(pattern: Seq<char>) -> bool;

/// What `Regex::captures` followed by `Captures::get(1)` gives for a pattern and a text:
/// `None` when nothing matches, else the text of the first group if it took part.
pub uninterp spec fn regex_first_group(pattern: Seq<char>, text: Seq<char>) -> Option<Option<Seq<char>>>;

/// A compiled regular expression with the pattern it was compiled from.
pub struct CompiledRegex {
    pattern: String,
    re: regex::Regex,
}

impl CompiledRegex {
    /// The pattern.
    pub closed spec fn spec_pattern(&self) -> Seq<char> {
        self.pattern@
    }
}

/// `regex::Regex::new`: compiles `pattern`; an error when the pattern is invalid or too
/// big. Which patterns compile is named, not stated.
#[verifier::external_body]
pub(crate) fn compile_regex(pattern: &str) -> (r: Result<CompiledRegex, regex::Error>)
    ensures
        r is Ok <==> regex_compiles(pattern@),
        r matches Ok(c) ==> c.spec_pattern() == pattern@,
{
    regex::Regex::new(pattern).map(|re| CompiledRegex { pattern: pattern.to_string(), re })
}

/// `regex::Regex::captures` and `Captures::get(1)`: the text of the first group of the
/// leftmost match in `text`. What is matched is named, not stated.
#[verifier::external_body]
pub(crate) fn first_group<'h>(re: &CompiledRegex, text: &'h str) -> (r: Option<Option<&'h str>>)
    ensures
        regex_first_group(re.spec_pattern(), text@) == match r {
            None => None,
            Some(None) => Some(None::<Seq<char>>),
            Some(Some(s)) => Some(Some(s@)),
        },
{
    re.re.captures(text).map(|caps| caps.get(1).map(|m| m.as_str()))
}

/// The pattern that finds `name = 0x...;` and captures the hexadecimal literal.
pub open spec fn assignment_pattern(name: Seq<char>) -> Seq<char> {
    name + r"\s*=\s*(0x[0-9a-fA-F_]+)\s*;"@
}

/// `b` without its underscores.
pub open spec fn strip_underscores(b: Seq<u8>) -> Seq<u8> {
    b.filter(|c: u8| c != 0x5F)
}

/// Whether byte index 2 of `b` is a character boundary of the UTF-8 text it encodes.
pub open spec fn boundary_at_2(b: Seq<u8>) -> bool {
    b.len() == 2 || (b.len() > 2 && !(0x80 <= b[2] <= 0xBF))
}

/// The value of a captured literal: underscores dropped, the two-character prefix skipped,
/// the rest read as hexadecimal. `None` where that fails.
pub open spec fn literal_value(text: Seq<char>) -> Option<usize> {
    let b = strip_underscores(vstd::utf8::encode_utf8(text));
    if b.len() >= 2 && boundary_at_2(b) {
        parse_hex_spec(b.subrange(2, b.len() as int))
    } else {
        None
    }
}

/// The value assigned to `name` in `content`, `None` where the lookup fails.
pub open spec fn parse_value_spec(content: Seq<char>, name: Seq<char>) -> Option<usize> {
    if !regex_compiles(assignment_pattern(name)) {
        None
    } else {
        match regex_first_group(assignment_pattern(name), content) {
            Some(Some(lit)) => literal_value(lit),
            _ => None,
        }
    }
}

/// Drops the underscores of `b`.
fn strip_underscores_exec(b: &[u8]) -> (r: Vec<u8>)
    ensures
        r@ == strip_underscores(b@),
{
    let mut out: Vec<u8> = Vec::new();
    let mut i: usize = 0;
    while i < b.len()
        invariant
            i <= b@.len(),
            out@ == strip_underscores(b@.take(i as int)),
        decreases b@.len() - i,
    {
        proof {
            assert(b@.take(i + 1) =~= b@.take(i as int).push(b@[i as int]));
            reveal(Seq::filter);
            assert(b@.take(i + 1).drop_last() =~= b@.take(i as int));
        }
        if b[i] != 0x5F {
            out.push(b[i]);
        }
        i = i + 1;
    }
    proof {
        assert(b@.take(b@.len() as int) =~= b@);
    }
    out
}

/// The value assigned to `name` in `content`, or `None` where the lookup fails:
/// when the pattern does not compile, nothing matches, or the literal does not parse.
pub fn try_parse_value(content: &str, name: &str) -> (r: Option<usize>)
    ensures
        r == parse_value_spec(content@, name@),
{
    let mut pattern = String::from_str(name);
    pattern.append(r"\s*=\s*(0x[0-9a-fA-F_]+)\s*;");
    let re = match compile_regex(pattern.as_str()) {
        Ok(re) => re,
        Err(_) => {
            return None;
        },
    };
    let lit = match first_group(&re, content) {
        Some(Some(lit)) => lit,
        _ => {
            return None;
        },
    };
    literal_hex_value(lit)
}

/// The value of a captured literal `0x...`: underscores dropped, the two-character prefix
/// skipped, the rest read as hexadecimal; `None` where that fails.
pub fn literal_hex_value(lit: &str) -> (r: Option<usize>)
    ensures
        r == literal_value(lit@),
{
    let hex = strip_underscores_exec(lit.as_bytes());
    if hex.len() < 2 {
        return None;
    }
    if hex.len() > 2 && 0x80 <= hex[2] && hex[2] <= 0xBF {
        return None;
    }
    let digits = crate::libs::dtb::cpu::slice_range(hex.as_slice(), 2, hex.len());
    parse_hex_usize(digits)
}

/// The value assigned to `name` in `content`; the lookup must succeed.
pub fn parse_value(content: &str, name: &str) -> (r: usize)
    requires
        parse_value_spec(content@, name@) is Some,
    ensures
        Some(r) == parse_value_spec(content@, name@),
{
    try_parse_value(content, name).unwrap()
}

} // verus!
