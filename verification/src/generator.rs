//! The generation session: a callback adapter feeding the fact store and the
//! blocklist, and the synthesis of the formatted test suite.
//!
//! The external binding generator drives a single parse pass, reporting one
//! visitation event at a time; the session only accumulates during that
//! phase. Synthesis reads the accumulated state afterwards and emits the
//! suite text, pretty-printed.

use vstd::prelude::*;
use vstd::string::StringExecFns;

use crate::blocklist::is_plain_name;
use crate::blocklist::plain_pattern;
use crate::blocklist::regex_accepts;
use crate::blocklist::regex_matches;
use crate::blocklist::short_plain_pattern;
use crate::blocklist::type_excluded;
use crate::blocklist::BlocklistMatcher;
use crate::blocklist::PatternError;
use crate::facts::record_field_rep;
use crate::facts::record_header_rep;
use crate::facts::LayoutFactsCollector;
use crate::facts::RecordRep;
use crate::synth::build_tests;
use crate::synth::notice_texts;
use crate::synth::plain_records;
use crate::synth::suite_notices;
use crate::synth::suite_text;
use crate::synth::RuleRep;
use crate::text::has_substring;
use crate::text::lemma_has_substring_self;

verus! {

/// The formatted suite text is a function of the source text alone; this
/// names whether the source is well formed enough to format.
pub uninterp spec fn pretty_formats(src: Seq<char>) -> bool;

/// The pretty-printed form of a well-formed source text.
pub uninterp spec fn pretty_of(src: Seq<char>) -> Seq<char>;

#[verifier::external_type_specification]
#[verifier::external_body]
pub struct ExFormatError(rust_format::Error);

/// Relies on `rust_format::PrettyPlease::format_str`: it parses the source
/// text and pretty-prints it, both pure functions of the text, returning an
/// error exactly for text it cannot parse. The printer aborts on source
/// forms it does not implement (such as macro-definition items), so the
/// wrapper admits only synthesized suite text over identifier-shaped names:
/// such text either fails to parse or parses as a sequence of attributed
/// test functions holding macro-call statements, forms the printer
/// implements.
#[verifier::external_body]
fn format_rust_source(src: &str) -> (r: Result<String, rust_format::Error>)
    requires
        exists|recs: Seq<RecordRep>, rules: Seq<RuleRep>|
            src@ == #[trigger] suite_text(recs, rules) && plain_records(recs),
    ensures
        r is Ok <==> pretty_formats(src@),
        r is Ok ==> r->Ok_0@ == pretty_of(src@),
{
    rust_format::Formatter::format_str(&rust_format::PrettyPlease::new(), src)
}

/// The notice printed when a union is auto-excluded.
pub open spec fn union_notice(t: Seq<char>) -> Seq<char> {
    "Skipping layout tests for union "@ + t
}

/// The kind the generator reports for a type it is about to derive traits
/// for.
pub enum TypeKind {
    Struct,
    Union,
    Enum,
}

/// One visitation event from the external binding generator.
pub enum Event {
    /// A header file was read.
    HeaderSeen { path: String },
    /// A type is about to have traits derived for it.
    TypeDiscovered { name: String, kind: TypeKind },
    /// The generator asks whether a blocklisted (opaque) type implements a
    /// trait.
    OpaqueTraitQuery { name: String },
    /// A field of a type was visited.
    FieldSeen { owner: String, field: String },
}

/// What the adapter answers back to the generator.
pub enum Response {
    /// The event was recorded; nothing was asked.
    Recorded,
    /// A derive query: contribute no extra derives.
    NoExtraDerives,
    /// A trait query about an opaque type: decline to answer.
    Unknown,
    /// A field-visibility query: defer to the generator's default.
    NoOverride,
}

/// The adapter's reaction to one event: the answer, and a notice to print if
/// the event caused a skip.
pub struct Handled {
    pub response: Response,
    pub notice: Option<String>,
}

/// One generation session: the fact store and the exclusion rules, mutated
/// only during the callback phase and read by synthesis afterwards.
pub struct LayoutTestGenerator {
    /// Structural facts accumulated from events.
    pub facts: LayoutFactsCollector,
    /// The exclusion rules, authored and auto-registered.
    pub blocklist: BlocklistMatcher,
}

/// The synthesized output: the pretty-printed suite and the notices of the
/// pass.
#[derive(Debug)]
pub struct GeneratedOutput {
    /// The formatted test source, one test per surviving type.
    pub suite: String,
    /// One notice per skipped type and per skipped field.
    pub notices: Vec<String>,
}

impl LayoutTestGenerator {
    pub open spec fn wf(self) -> bool {
        self.facts.wf() && self.blocklist.wf()
    }

    /// A fresh session with no facts and no rules.
    pub fn new() -> (g: LayoutTestGenerator)
        ensures
            g.wf(),
            g.facts.headers_view() == Seq::<Seq<char>>::empty(),
            g.facts.records_view() == Seq::<crate::facts::RecordRep>::empty(),
            g.blocklist@ == Seq::<(Seq<char>, Option<Seq<char>>)>::empty(),
    {
        LayoutTestGenerator { facts: LayoutFactsCollector::new(), blocklist: BlocklistMatcher::new() }
    }

    /// Registers a whole-type exclusion rule; fails exactly when the pattern
    /// does not compile as a regular expression.
    pub fn blocklist_type(&mut self, pattern: &str) -> (r: Result<(), PatternError>)
        requires
            old(self).wf(),
        ensures
            final(self).wf(),
            final(self).facts == old(self).facts,
            r is Ok <==> regex_accepts(pattern@),
            r is Ok ==> final(self).blocklist@ == old(self).blocklist@.push((pattern@, None)),
            r is Err ==> final(self).blocklist@ == old(self).blocklist@,
            short_plain_pattern(pattern@) ==> regex_accepts(pattern@),
            regex_accepts(pattern@) && plain_pattern(pattern@) ==> (forall|t: Seq<char>|
                #[trigger] regex_matches(pattern@, t) == has_substring(t, pattern@)),
    {
        self.blocklist.exclude_type(pattern)
    }

    /// Registers a field-level exclusion rule; fails exactly when either
    /// pattern does not compile.
    pub fn blocklist_field(&mut self, struct_pattern: &str, field_pattern: &str) -> (r: Result<
        (),
        PatternError,
    >)
        requires
            old(self).wf(),
        ensures
            final(self).wf(),
            final(self).facts == old(self).facts,
            r is Ok <==> regex_accepts(struct_pattern@) && regex_accepts(field_pattern@),
            r is Ok ==> final(self).blocklist@ == old(self).blocklist@.push(
                (struct_pattern@, Some(field_pattern@)),
            ),
            r is Err ==> final(self).blocklist@ == old(self).blocklist@,
            short_plain_pattern(struct_pattern@) ==> regex_accepts(struct_pattern@),
            regex_accepts(struct_pattern@) && short_plain_pattern(field_pattern@)
                ==> regex_accepts(field_pattern@),
            regex_accepts(struct_pattern@) && plain_pattern(struct_pattern@) ==> (forall|
                t: Seq<char>,
            |
                #[trigger] regex_matches(struct_pattern@, t) == has_substring(t, struct_pattern@)),
            regex_accepts(struct_pattern@) && regex_accepts(field_pattern@) && plain_pattern(
                field_pattern@,
            ) ==> (forall|t: Seq<char>|
                #[trigger] regex_matches(field_pattern@, t) == has_substring(t, field_pattern@)),
    {
        self.blocklist.exclude_field(struct_pattern, field_pattern)
    }

    /// Reacts to one visitation event: records facts, auto-excludes unions
    /// and opaque types, and answers the generator's query. Fails exactly
    /// when an auto-registered type name does not compile as a pattern.
    pub fn handle_event(&mut self, event: Event) -> (r: Result<Handled, PatternError>)
        requires
            old(self).wf(),
        ensures
            final(self).wf(),
            match event {
                Event::HeaderSeen { path } => {
                    &&& r is Ok
                    &&& r->Ok_0.response is Recorded
                    &&& r->Ok_0.notice is None
                    &&& final(self).facts.headers_view() == record_header_rep(
                        old(self).facts.headers_view(),
                        path@,
                    )
                    &&& final(self).facts.records_view() == old(self).facts.records_view()
                    &&& final(self).blocklist@ == old(self).blocklist@
                },
                Event::TypeDiscovered { name, kind } => match kind {
                    TypeKind::Union => {
                        &&& final(self).facts == old(self).facts
                        &&& (r is Ok <==> regex_accepts(name@))
                        &&& r is Ok ==> final(self).blocklist@ == old(self).blocklist@.push(
                            (name@, None),
                        ) && r->Ok_0.response is NoExtraDerives && r->Ok_0.notice is Some && (
                        r->Ok_0.notice->0)@ == union_notice(name@)
                        &&& r is Err ==> final(self).blocklist@ == old(self).blocklist@
                        &&& short_plain_pattern(name@) ==> r is Ok && type_excluded(
                            final(self).blocklist@,
                            name@,
                        )
                    },
                    _ => {
                        &&& r is Ok
                        &&& r->Ok_0.response is NoExtraDerives
                        &&& r->Ok_0.notice is None
                        &&& final(self).facts == old(self).facts
                        &&& final(self).blocklist@ == old(self).blocklist@
                    },
                },
                Event::OpaqueTraitQuery { name } => {
                    &&& final(self).facts == old(self).facts
                    &&& (r is Ok <==> regex_accepts(name@))
                    &&& r is Ok ==> final(self).blocklist@ == old(self).blocklist@.push(
                        (name@, None),
                    ) && r->Ok_0.response is Unknown && r->Ok_0.notice is None
                    &&& r is Err ==> final(self).blocklist@ == old(self).blocklist@
                    &&& short_plain_pattern(name@) ==> r is Ok && type_excluded(
                        final(self).blocklist@,
                        name@,
                    )
                },
                Event::FieldSeen { owner, field } => {
                    &&& r is Ok
                    &&& r->Ok_0.response is NoOverride
                    &&& r->Ok_0.notice is None
                    &&& final(self).facts.headers_view() == old(self).facts.headers_view()
                    &&& final(self).facts.records_view() == record_field_rep(
                        old(self).facts.records_view(),
                        owner@,
                        field@,
                    )
                    &&& final(self).blocklist@ == old(self).blocklist@
                },
            },
    {
        match event {
            Event::HeaderSeen { path } => {
                self.facts.record_header(path.as_str());
                Ok(Handled { response: Response::Recorded, notice: None })
            },
            Event::TypeDiscovered { name, kind } => match kind {
                TypeKind::Union => {
                    match self.blocklist.exclude_type(name.as_str()) {
                        Ok(_) => {
                            proof {
                                if short_plain_pattern(name@) {
                                    lemma_has_substring_self(name@);
                                    assert(regex_matches(name@, name@));
                                    let rules = self.blocklist@;
                                    assert(rules[rules.len() - 1] == (name@, None::<Seq<char>>));
                                    assert(rules[rules.len() - 1].1 is None);
                                    assert(regex_matches(rules[rules.len() - 1].0, name@));
                                    assert(type_excluded(rules, name@));
                                }
                            }
                            let mut notice = String::from_str("Skipping layout tests for union ");
                            notice.append(name.as_str());
                            Ok(Handled {
                                response: Response::NoExtraDerives,
                                notice: Some(notice),
                            })
                        },
                        Err(e) => Err(e),
                    }
                },
                _ => Ok(Handled { response: Response::NoExtraDerives, notice: None }),
            },
            Event::OpaqueTraitQuery { name } => {
                match self.blocklist.exclude_type(name.as_str()) {
                    Ok(_) => {
                        proof {
                            if short_plain_pattern(name@) {
                                lemma_has_substring_self(name@);
                                assert(regex_matches(name@, name@));
                                let rules = self.blocklist@;
                                assert(rules[rules.len() - 1] == (name@, None::<Seq<char>>));
                                assert(rules[rules.len() - 1].1 is None);
                                assert(regex_matches(rules[rules.len() - 1].0, name@));
                                assert(type_excluded(rules, name@));
                            }
                        }
                        Ok(Handled { response: Response::Unknown, notice: None })
                    },
                    Err(e) => Err(e),
                }
            },
            Event::FieldSeen { owner, field } => {
                self.facts.record_field(owner.as_str(), field.as_str());
                Ok(Handled { response: Response::NoOverride, notice: None })
            },
        }
    }

    /// The recorded headers, in arrival order, for the output's verbatim
    /// foreign include block.
    pub fn headers(&self) -> (h: &Vec<String>)
        ensures
            h.deep_view() == self.facts.headers_view(),
    {
        self.facts.headers()
    }

    /// The first recorded type or field name that is not a plain identifier
    /// text, if any.
    fn first_unembeddable_name(&self) -> (r: Option<String>)
        ensures
            r is None <==> plain_records(self.facts.records_view()),
    {
        let ghost rv = self.facts.records_view();
        let n = self.facts.record_count();
        let mut i: usize = 0;
        while i < n
            invariant
                i <= n,
                n == rv.len(),
                rv == self.facts.records_view(),
                forall|a: int|
                    0 <= a < i ==> plain_pattern((#[trigger] rv[a]).0) && (forall|b: int|
                        0 <= b < rv[a].1.len() ==> plain_pattern(#[trigger] rv[a].1[b])),
            decreases n - i,
        {
            let name = self.facts.record_name(i);
            if !is_plain_name(name.as_str()) {
                proof {
                    assert(!plain_pattern(rv[i as int].0));
                }
                return Some(name.clone());
            }
            let fields = self.facts.record_fields(i);
            let m = fields.len();
            let mut j: usize = 0;
            while j < m
                invariant
                    i < n,
                    n == rv.len(),
                    rv == self.facts.records_view(),
                    j <= m,
                    m == fields.deep_view().len(),
                    fields.deep_view() == rv[i as int].1,
                    forall|b: int| 0 <= b < j ==> plain_pattern(#[trigger] fields.deep_view()[b]),
                decreases m - j,
            {
                proof {
                    assert(fields.deep_view()[j as int] == fields@[j as int]@);
                }
                if !is_plain_name(fields[j].as_str()) {
                    proof {
                        assert(!plain_pattern(rv[i as int].1[j as int]));
                    }
                    return Some(fields[j].clone());
                }
                j += 1;
            }
            i += 1;
        }
        None
    }

    /// Synthesizes and pretty-prints the test suite. The result is a
    /// function of the recorded facts and rules alone. It fails when a
    /// recorded name is not a plain identifier text (such a name cannot be
    /// embedded in the suite), or when the formatter rejects the synthesized
    /// text; a formatter failure carries the formatter's error unmodified.
    pub fn generate_layout_tests(&self) -> (r: Result<GeneratedOutput, GenerateError>)
        requires
            self.wf(),
        ensures
            r is Ok <==> plain_records(self.facts.records_view()) && pretty_formats(
                suite_text(self.facts.records_view(), self.blocklist@),
            ),
            r is Ok ==> r->Ok_0.suite@ == pretty_of(
                suite_text(self.facts.records_view(), self.blocklist@),
            ),
            r is Ok ==> r->Ok_0.notices.deep_view() == notice_texts(
                suite_notices(self.facts.records_view(), self.blocklist@),
            ),
            r is Err ==> (r->Err_0 is Format <==> plain_records(self.facts.records_view())),
    {
        match self.first_unembeddable_name() {
            Some(name) => Err(GenerateError::Name { name }),
            None => {
                let (raw, notices) = build_tests(&self.facts, &self.blocklist);
                proof {
                    assert(raw@ == suite_text(self.facts.records_view(), self.blocklist@)
                        && plain_records(self.facts.records_view()));
                }
                match format_rust_source(raw.as_str()) {
                    Ok(suite) => Ok(GeneratedOutput { suite, notices }),
                    Err(cause) => Err(GenerateError::Format { cause }),
                }
            },
        }
    }

    /// The full output artifact: the verbatim foreign include block for the
    /// recorded headers, then the given suite text. The block is assembled by
    /// hand and never formatted, so a formatter cannot corrupt the embedded
    /// foreign syntax.
    pub fn render_artifact(&self, suite: &str) -> (out: String)
        ensures
            out@ == artifact_text(self.facts.headers_view(), suite@),
    {
        let mut out = String::from_str("cpp! {{");
        let headers = self.facts.headers();
        let ghost hv = headers.deep_view();
        proof {
            assert(out@ =~= "cpp! {{"@ + header_block(hv.take(0)));
        }
        let n = headers.len();
        let mut i: usize = 0;
        while i < n
            invariant
                i <= n,
                n == hv.len(),
                hv == headers.deep_view(),
                out@ == "cpp! {{"@ + header_block(hv.take(i as int)),
            decreases n - i,
        {
            out.append("    #include \"");
            out.append(headers[i].as_str());
            out.append("\"\n");
            proof {
                assert(hv.take(i + 1).drop_last() =~= hv.take(i as int));
                assert(hv.take(i + 1).last() == hv[i as int]);
                assert(hv[i as int] == headers@[i as int]@);
                assert(out@ =~= "cpp! {{"@ + header_block(hv.take(i + 1)));
            }
            i += 1;
        }
        proof {
            assert(hv.take(n as int) =~= hv);
        }
        out.append("}}\n");
        out.append(suite);
        proof {
            assert(out@ =~= artifact_text(self.facts.headers_view(), suite@));
        }
        out
    }
}

/// The verbatim foreign include block: one directive per recorded header, in
/// arrival order.
pub open spec fn header_block(headers: Seq<Seq<char>>) -> Seq<char>
    decreases headers.len(),
{
    if headers.len() == 0 {
        Seq::empty()
    } else {
        header_block(headers.drop_last()) + "    #include \""@ + headers.last() + "\"\n"@
    }
}

/// The whole output artifact: the embedded include block, then the suite.
pub open spec fn artifact_text(headers: Seq<Seq<char>>, suite: Seq<char>) -> Seq<char> {
    "cpp! {{"@ + header_block(headers) + "}}\n"@ + suite
}

/// Why no formatted suite could be produced; fatal for the session.
#[derive(Debug)]
pub enum GenerateError {
    /// A recorded type or field name is not a plain identifier text, so the
    /// suite cannot embed it; carries that name.
    Name { name: String },
    /// The formatter rejected the synthesized text; carries the formatter's
    /// error unmodified.
    Format { cause: rust_format::Error },
}

} // verus!
