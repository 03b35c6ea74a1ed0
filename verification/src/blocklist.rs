//! Pattern-based exclusion rules over type names and field names.
//!
//! A rule pairs a type pattern with an optional field pattern, both regular
//! expressions. A rule without a field pattern excludes whole types; one with
//! a field pattern excludes single fields of matching types. Rules are
//! append-only and purely additive: a match from any rule excludes, and no
//! rule ever re-includes.

use vstd::prelude::*;
use vstd::string::StringExecFns;

use crate::text::has_substring;

verus! {

/// Whether the pattern text compiles as a regular expression.
pub uninterp spec fn regex_accepts(pattern: Seq<char>) -> bool;

/// Whether the regular expression written as `pattern` matches anywhere in
/// `text`.
pub uninterp spec fn regex_matches(pattern: Seq<char>, text: Seq<char>) -> bool;

/// The pattern text a compiled regular expression was built from.
pub uninterp spec fn regex_pattern(re: regex::Regex) -> Seq<char>;

#[verifier::external_type_specification]
#[verifier::external_body]
pub struct ExRegex(regex::Regex);

#[verifier::external_type_specification]
#[verifier::external_body]
pub struct ExRegexError(regex::Error);

/// A character that regular-expression syntax treats as ordinary: it matches
/// exactly itself.
pub open spec fn plain_char(c: char) -> bool {
    ('a' <= c && c <= 'z') || ('A' <= c && c <= 'Z') || ('0' <= c && c <= '9') || c == '_'
}

/// A non-empty pattern of ordinary identifier characters. Such a pattern is
/// a valid regular expression whenever the compiler's size limit allows it,
/// and it matches a text exactly when it occurs in it as a substring.
pub open spec fn plain_pattern(p: Seq<char>) -> bool {
    p.len() > 0 && (forall|i: int| 0 <= i < p.len() ==> plain_char(#[trigger] p[i]))
}

/// A plain pattern short enough that compiling it cannot run into the
/// compiler's default size limit.
pub open spec fn short_plain_pattern(p: Seq<char>) -> bool {
    plain_pattern(p) && p.len() <= 1024
}

/// Decides whether a text is a non-empty run of ordinary identifier
/// characters.
pub fn is_plain_name(s: &str) -> (r: bool)
    ensures
        r == plain_pattern(s@),
{
    let n = s.unicode_len();
    if n == 0 {
        return false;
    }
    let mut i: usize = 0;
    while i < n
        invariant
            i <= n,
            n == s@.len(),
            forall|j: int| 0 <= j < i ==> plain_char(#[trigger] s@[j]),
        decreases n - i,
    {
        let c = s.get_char(i);
        let plain = (c >= 'a' && c <= 'z') || (c >= 'A' && c <= 'Z') || (c >= '0' && c <= '9')
            || c == '_';
        if !plain {
            return false;
        }
        i += 1;
    }
    true
}

/// Relies on `regex::Regex::new`: it returns `Ok` exactly for the pattern
/// texts that are valid regular expressions, and the compiled value keeps the
/// pattern it was built from (`Regex::as_str` returns it). A pattern made of
/// ordinary identifier characters is syntactically valid and, per the
/// crate's syntax documentation, matches exactly the texts that contain it
/// as a substring; compilation of such a pattern can still be refused by the
/// compiler's default size limit, so success is only promised while the
/// pattern stays far below that limit.
#[verifier::external_body]
fn regex_compile(pattern: &str) -> (r: Result<regex::Regex, regex::Error>)
    ensures
        r is Ok <==> regex_accepts(pattern@),
        r is Ok ==> regex_pattern(r->Ok_0) == pattern@,
        r is Err ==> !short_plain_pattern(pattern@),
        r is Ok && plain_pattern(pattern@) ==> (forall|t: Seq<char>|
            #[trigger] regex_matches(pattern@, t) == has_substring(t, pattern@)),
{
    regex::Regex::new(pattern)
}

/// Relies on `regex::Regex::is_match`: true if and only if the regular
/// expression matches anywhere in the given text, a function of the compiled
/// pattern and the text alone.
#[verifier::external_body]
fn regex_is_match(re: &regex::Regex, text: &str) -> (m: bool)
    ensures
        m == regex_matches(regex_pattern(*re), text@),
{
    re.is_match(text)
}

/// A pattern that failed to compile as a regular expression: a rule-authoring
/// bug, reported to the caller so that generation can abort.
#[derive(Debug)]
pub struct PatternError {
    pub pattern: String,
}

/// A field-level pattern with the compiled form it was built from.
struct FieldPattern {
    pattern: String,
    regex: regex::Regex,
}

/// One exclusion rule: a type pattern and, for field-level rules, a field
/// pattern.
struct BlocklistRule {
    type_pattern: String,
    type_regex: regex::Regex,
    field: Option<FieldPattern>,
}

impl BlocklistRule {
    spec fn wf(self) -> bool {
        &&& regex_pattern(self.type_regex) == self.type_pattern@
        &&& match self.field {
            Some(f) => regex_pattern(f.regex) == f.pattern@,
            None => true,
        }
    }

    spec fn pair(self) -> (Seq<char>, Option<Seq<char>>) {
        (
            self.type_pattern@,
            match self.field {
                Some(f) => Some(f.pattern@),
                None => None,
            },
        )
    }
}

/// The registered exclusion rules, in registration order. Its mathematical
/// view is the sequence of (type pattern, optional field pattern) pairs.
pub struct BlocklistMatcher {
    rules: Vec<BlocklistRule>,
}

impl View for BlocklistMatcher {
    type V = Seq<(Seq<char>, Option<Seq<char>>)>;

    closed spec fn view(&self) -> Seq<(Seq<char>, Option<Seq<char>>)> {
        self.rules@.map_values(|r: BlocklistRule| r.pair())
    }
}

/// A whole-type rule (one without a field pattern) matches the type name.
pub open spec fn type_excluded(rules: Seq<(Seq<char>, Option<Seq<char>>)>, t: Seq<char>) -> bool {
    exists|i: int|
        0 <= i < rules.len() && rules[i].1 is None && #[trigger] regex_matches(rules[i].0, t)
}

/// A field-level rule matches both the type name and the field name.
pub open spec fn field_excluded(
    rules: Seq<(Seq<char>, Option<Seq<char>>)>,
    t: Seq<char>,
    f: Seq<char>,
) -> bool {
    exists|i: int|
        0 <= i < rules.len() && rules[i].1 is Some && #[trigger] regex_matches(rules[i].0, t)
            && regex_matches(rules[i].1->0, f)
}

impl BlocklistMatcher {
    pub closed spec fn wf(self) -> bool {
        forall|i: int| 0 <= i < self.rules@.len() ==> (#[trigger] self.rules@[i]).wf()
    }

    /// An empty rule set: nothing is excluded.
    pub fn new() -> (m: BlocklistMatcher)
        ensures
            m.wf(),
            m@ == Seq::<(Seq<char>, Option<Seq<char>>)>::empty(),
    {
        let m = BlocklistMatcher { rules: Vec::new() };
        proof {
            assert(m@ =~= Seq::<(Seq<char>, Option<Seq<char>>)>::empty());
        }
        m
    }

    /// Registers a whole-type rule. Returns an error, and changes nothing,
    /// exactly when the pattern does not compile as a regular expression.
    pub fn exclude_type(&mut self, pattern: &str) -> (r: Result<(), PatternError>)
        requires
            old(self).wf(),
        ensures
            final(self).wf(),
            r is Ok <==> regex_accepts(pattern@),
            r is Ok ==> final(self)@ == old(self)@.push((pattern@, None)),
            r is Err ==> final(self)@ == old(self)@ && r->Err_0.pattern@ == pattern@,
            short_plain_pattern(pattern@) ==> regex_accepts(pattern@),
            regex_accepts(pattern@) && plain_pattern(pattern@) ==> (forall|t: Seq<char>|
                #[trigger] regex_matches(pattern@, t) == has_substring(t, pattern@)),
    {
        match regex_compile(pattern) {
            Ok(re) => {
                let rule = BlocklistRule {
                    type_pattern: String::from_str(pattern),
                    type_regex: re,
                    field: None,
                };
                self.rules.push(rule);
                proof {
                    assert(self@ =~= old(self)@.push((pattern@, None)));
                }
                Ok(())
            },
            Err(_) => Err(PatternError { pattern: String::from_str(pattern) }),
        }
    }

    /// Registers a field-level rule. Returns an error, and changes nothing,
    /// exactly when either pattern does not compile; the error names the
    /// first pattern that failed.
    pub fn exclude_field(&mut self, type_pattern: &str, field_pattern: &str) -> (r: Result<
        (),
        PatternError,
    >)
        requires
            old(self).wf(),
        ensures
            final(self).wf(),
            r is Ok <==> regex_accepts(type_pattern@) && regex_accepts(field_pattern@),
            r is Ok ==> final(self)@ == old(self)@.push((type_pattern@, Some(field_pattern@))),
            r is Err ==> final(self)@ == old(self)@,
            r is Err && !regex_accepts(type_pattern@) ==> r->Err_0.pattern@ == type_pattern@,
            r is Err && regex_accepts(type_pattern@) ==> r->Err_0.pattern@ == field_pattern@,
            short_plain_pattern(type_pattern@) ==> regex_accepts(type_pattern@),
            regex_accepts(type_pattern@) && short_plain_pattern(field_pattern@) ==> regex_accepts(
                field_pattern@,
            ),
            regex_accepts(type_pattern@) && plain_pattern(type_pattern@) ==> (forall|t: Seq<char>|
                #[trigger] regex_matches(type_pattern@, t) == has_substring(t, type_pattern@)),
            regex_accepts(type_pattern@) && regex_accepts(field_pattern@) && plain_pattern(
                field_pattern@,
            ) ==> (forall|t: Seq<char>|
                #[trigger] regex_matches(field_pattern@, t) == has_substring(t, field_pattern@)),
    {
        let type_regex = match regex_compile(type_pattern) {
            Ok(re) => re,
            Err(_) => {
                return Err(PatternError { pattern: String::from_str(type_pattern) });
            },
        };
        match regex_compile(field_pattern) {
            Ok(re) => {
                let rule = BlocklistRule {
                    type_pattern: String::from_str(type_pattern),
                    type_regex,
                    field: Some(FieldPattern { pattern: String::from_str(field_pattern), regex: re }),
                };
                self.rules.push(rule);
                proof {
                    assert(self@ =~= old(self)@.push((type_pattern@, Some(field_pattern@))));
                }
                Ok(())
            },
            Err(_) => Err(PatternError { pattern: String::from_str(field_pattern) }),
        }
    }

    /// Whether some whole-type rule matches the type name.
    pub fn is_type_excluded(&self, tname: &str) -> (r: bool)
        requires
            self.wf(),
        ensures
            r == type_excluded(self@, tname@),
    {
        let n = self.rules.len();
        let mut i: usize = 0;
        while i < n
            invariant
                i <= n,
                n == self.rules.len(),
                self.wf(),
                forall|j: int|
                    0 <= j < i ==> !(self@[j].1 is None && #[trigger] regex_matches(
                        self@[j].0,
                        tname@,
                    )),
            decreases n - i,
        {
            let rule = &self.rules[i];
            proof {
                assert(self@[i as int] == self.rules@[i as int].pair());
            }
            if rule.field.is_none() {
                if regex_is_match(&rule.type_regex, tname) {
                    proof {
                        assert(self@[i as int].1 is None);
                        assert(regex_matches(self@[i as int].0, tname@));
                    }
                    return true;
                }
            }
            i += 1;
        }
        false
    }

    /// Whether some field-level rule matches both the type name and the
    /// field name.
    pub fn is_field_excluded(&self, tname: &str, fname: &str) -> (r: bool)
        requires
            self.wf(),
        ensures
            r == field_excluded(self@, tname@, fname@),
    {
        let n = self.rules.len();
        let mut i: usize = 0;
        while i < n
            invariant
                i <= n,
                n == self.rules.len(),
                self.wf(),
                forall|j: int|
                    0 <= j < i ==> !(self@[j].1 is Some && #[trigger] regex_matches(
                        self@[j].0,
                        tname@,
                    ) && regex_matches(self@[j].1->0, fname@)),
            decreases n - i,
        {
            let rule = &self.rules[i];
            proof {
                assert(self@[i as int] == self.rules@[i as int].pair());
            }
            if let Some(field) = &rule.field {
                if regex_is_match(&rule.type_regex, tname) && regex_is_match(
                    &field.regex,
                    fname,
                ) {
                    proof {
                        assert(self@[i as int].1 is Some);
                        assert(regex_matches(self@[i as int].0, tname@));
                        assert(regex_matches(self@[i as int].1->0, fname@));
                    }
                    return true;
                }
            }
            i += 1;
        }
        false
    }
}

} // verus!
