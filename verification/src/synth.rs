//! Synthesis of the layout-test suite from collected facts and the blocklist.
//!
//! One test unit is emitted per non-excluded type, holding two type-level
//! assertions (size, alignment) and three per surviving field (size,
//! alignment, byte offset). Every assertion compares a reflected value of the
//! generated binding with the same quantity computed natively from an
//! embedded foreign expression, and its failure message names both compared
//! expressions. Output is a function of the facts and the rules alone.

use vstd::prelude::*;
use vstd::string::StringExecFns;

use crate::blocklist::field_excluded;
use crate::blocklist::plain_pattern;
use crate::blocklist::type_excluded;
use crate::blocklist::BlocklistMatcher;
use crate::facts::LayoutFactsCollector;
use crate::facts::RecordRep;

verus! {

/// The exclusion rules as their view: (type pattern, optional field pattern).
pub type RuleRep = (Seq<char>, Option<Seq<char>>);

// ---------------------------------------------------------------------------
// The emitted text, as spec functions.
// ---------------------------------------------------------------------------
/// Reflected size of the generated binding type or field.
pub open spec fn rust_size_expr(path: Seq<char>) -> Seq<char> {
    "size_of!("@ + path + ")"@
}

/// Native size of the true type or field.
pub open spec fn cpp_size_expr(path: Seq<char>) -> Seq<char> {
    "sizeof("@ + path + ")"@
}

/// Reflected alignment of the generated binding type or field.
pub open spec fn rust_align_expr(path: Seq<char>) -> Seq<char> {
    "align_of!("@ + path + ")"@
}

/// Native alignment of the true type or field.
pub open spec fn cpp_align_expr(path: Seq<char>) -> Seq<char> {
    "alignof("@ + path + ")"@
}

/// The `type::field` member path.
pub open spec fn member_path(t: Seq<char>, f: Seq<char>) -> Seq<char> {
    t + "::"@ + f
}

/// Reflected byte offset of a field of the generated binding type.
pub open spec fn rust_offset_expr(t: Seq<char>, f: Seq<char>) -> Seq<char> {
    "offset_of!("@ + t + ", "@ + f + ")"@
}

/// Native byte offset of the field in the true type.
pub open spec fn cpp_offset_expr(t: Seq<char>, f: Seq<char>) -> Seq<char> {
    "offsetof("@ + t + ", "@ + f + ")"@
}

/// One emitted assertion: the reflected value must equal the value the
/// native backend computes for the embedded foreign expression, and the
/// failure message names both compared expressions.
pub open spec fn assert_stmt(rust_expr: Seq<char>, cpp_expr: Seq<char>) -> Seq<char> {
    "    assert_eq!("@ + rust_expr + ", cpp!(unsafe [] -> usize as \"size_t\" { return "@
        + cpp_expr + "; }), \"{} != {}\", stringify!("@ + rust_expr + "), stringify!("@ + cpp_expr
        + "));\n"@
}

/// The two type-level assertions of a unit: size and alignment.
pub open spec fn type_assertions(t: Seq<char>) -> Seq<Seq<char>> {
    seq![
        assert_stmt(rust_size_expr(t), cpp_size_expr(t)),
        assert_stmt(rust_align_expr(t), cpp_align_expr(t)),
    ]
}

/// The three assertions of one field: size, alignment, byte offset.
pub open spec fn field_assertions(t: Seq<char>, f: Seq<char>) -> Seq<Seq<char>> {
    seq![
        assert_stmt(rust_size_expr(member_path(t, f)), cpp_size_expr(member_path(t, f))),
        assert_stmt(rust_align_expr(member_path(t, f)), cpp_align_expr(member_path(t, f))),
        assert_stmt(rust_offset_expr(t, f), cpp_offset_expr(t, f)),
    ]
}

/// The field-level assertions of a unit: three per field not excluded by any
/// field-level rule, none for an excluded field.
pub open spec fn unit_field_assertions(
    t: Seq<char>,
    fields: Seq<Seq<char>>,
    rules: Seq<RuleRep>,
) -> Seq<Seq<char>>
    decreases fields.len(),
{
    if fields.len() == 0 {
        Seq::empty()
    } else {
        unit_field_assertions(t, fields.drop_last(), rules) + (if field_excluded(
            rules,
            t,
            fields.last(),
        ) {
            Seq::empty()
        } else {
            field_assertions(t, fields.last())
        })
    }
}

/// All assertions of the unit for one type.
pub open spec fn unit_assertions(
    t: Seq<char>,
    fields: Seq<Seq<char>>,
    rules: Seq<RuleRep>,
) -> Seq<Seq<char>> {
    type_assertions(t) + unit_field_assertions(t, fields, rules)
}

/// Every recorded type name and field name is a plain identifier text, the
/// shape the binding generator reports and the only one that can be embedded
/// in the suite.
pub open spec fn plain_records(recs: Seq<RecordRep>) -> bool {
    forall|i: int|
        0 <= i < recs.len() ==> plain_pattern((#[trigger] recs[i]).0) && (forall|j: int|
            0 <= j < recs[i].1.len() ==> plain_pattern(#[trigger] recs[i].1[j]))
}

/// A build-time notice naming a skipped type or field.
pub enum SkipNotice {
    Type { t: Seq<char> },
    Field { t: Seq<char>, f: Seq<char> },
}

/// The printed form of a notice.
pub open spec fn notice_text(n: SkipNotice) -> Seq<char> {
    match n {
        SkipNotice::Type { t } => "Skipping layout tests for "@ + t,
        SkipNotice::Field { t, f } => "Skipping layout tests for "@ + t + "::"@ + f,
    }
}

/// The printed forms of a list of notices.
pub open spec fn notice_texts(ns: Seq<SkipNotice>) -> Seq<Seq<char>> {
    ns.map_values(|n: SkipNotice| notice_text(n))
}

/// One notice for each field of the type that a field-level rule excludes.
pub open spec fn field_notices(t: Seq<char>, fields: Seq<Seq<char>>, rules: Seq<RuleRep>) -> Seq<
    SkipNotice,
>
    decreases fields.len(),
{
    if fields.len() == 0 {
        Seq::empty()
    } else {
        field_notices(t, fields.drop_last(), rules) + (if field_excluded(
            rules,
            t,
            fields.last(),
        ) {
            seq![SkipNotice::Field { t, f: fields.last() }]
        } else {
            Seq::empty()
        })
    }
}

/// How many fields of the type survive the field-level rules.
pub open spec fn included_count(t: Seq<char>, fields: Seq<Seq<char>>, rules: Seq<RuleRep>) -> nat
    decreases fields.len(),
{
    if fields.len() == 0 {
        0
    } else {
        included_count(t, fields.drop_last(), rules) + (if field_excluded(
            rules,
            t,
            fields.last(),
        ) {
            0nat
        } else {
            1nat
        })
    }
}

/// The fields of the type that survive the field-level rules, in order.
pub open spec fn kept_fields(t: Seq<char>, fields: Seq<Seq<char>>, rules: Seq<RuleRep>) -> Seq<
    Seq<char>,
>
    decreases fields.len(),
{
    if fields.len() == 0 {
        Seq::empty()
    } else {
        kept_fields(t, fields.drop_last(), rules) + (if field_excluded(rules, t, fields.last()) {
            Seq::empty()
        } else {
            seq![fields.last()]
        })
    }
}

/// Concatenation of emitted text pieces.
pub open spec fn concat_texts(parts: Seq<Seq<char>>) -> Seq<char>
    decreases parts.len(),
{
    if parts.len() == 0 {
        Seq::empty()
    } else {
        concat_texts(parts.drop_last()) + parts.last()
    }
}

/// The full text of one test unit: a test function named after the type,
/// holding its assertions.
pub open spec fn unit_text(t: Seq<char>, asserts: Seq<Seq<char>>) -> Seq<char> {
    "#[test]\nfn layout_test_"@ + t + "() {\n"@ + concat_texts(asserts) + "}\n"@
}

/// The units of the suite: one per type that no whole-type rule matches, in
/// the stored (sorted) record order, each with its type name and assertions.
pub open spec fn suite_units(recs: Seq<RecordRep>, rules: Seq<RuleRep>) -> Seq<
    (Seq<char>, Seq<Seq<char>>),
>
    decreases recs.len(),
{
    if recs.len() == 0 {
        Seq::empty()
    } else {
        suite_units(recs.drop_last(), rules) + (if type_excluded(rules, recs.last().0) {
            Seq::empty()
        } else {
            seq![(recs.last().0, unit_assertions(recs.last().0, recs.last().1, rules))]
        })
    }
}

/// The notices of a synthesis pass: one per excluded type, and one per
/// excluded field of each surviving type.
pub open spec fn suite_notices(recs: Seq<RecordRep>, rules: Seq<RuleRep>) -> Seq<SkipNotice>
    decreases recs.len(),
{
    if recs.len() == 0 {
        Seq::empty()
    } else {
        suite_notices(recs.drop_last(), rules) + (if type_excluded(rules, recs.last().0) {
            seq![SkipNotice::Type { t: recs.last().0 }]
        } else {
            field_notices(recs.last().0, recs.last().1, rules)
        })
    }
}

/// The full suite text: the units' texts, in order.
pub open spec fn suite_text(recs: Seq<RecordRep>, rules: Seq<RuleRep>) -> Seq<char>
    decreases recs.len(),
{
    if recs.len() == 0 {
        Seq::empty()
    } else {
        suite_text(recs.drop_last(), rules) + (if type_excluded(rules, recs.last().0) {
            Seq::empty()
        } else {
            unit_text(recs.last().0, unit_assertions(recs.last().0, recs.last().1, rules))
        })
    }
}

// ---------------------------------------------------------------------------
// Executable rendering.
// ---------------------------------------------------------------------------
/// `head` + `arg` + `)`.
fn call1(head: &str, arg: &str) -> (s: String)
    ensures
        s@ == head@ + arg@ + ")"@,
{
    let mut s = String::from_str(head);
    s.append(arg);
    s.append(")");
    s
}

/// `head` + `a` + `, ` + `b` + `)`.
fn call2(head: &str, a: &str, b: &str) -> (s: String)
    ensures
        s@ == head@ + a@ + ", "@ + b@ + ")"@,
{
    let mut s = String::from_str(head);
    s.append(a);
    s.append(", ");
    s.append(b);
    s.append(")");
    s
}

/// `t` + `::` + `f`.
fn render_member_path(t: &str, f: &str) -> (s: String)
    ensures
        s@ == member_path(t@, f@),
{
    let mut s = String::from_str(t);
    s.append("::");
    s.append(f);
    s
}

/// One assertion statement comparing a reflected and a native value.
fn render_assert(rust_expr: &str, cpp_expr: &str) -> (s: String)
    ensures
        s@ == assert_stmt(rust_expr@, cpp_expr@),
{
    let mut s = String::from_str("    assert_eq!(");
    s.append(rust_expr);
    s.append(", cpp!(unsafe [] -> usize as \"size_t\" { return ");
    s.append(cpp_expr);
    s.append("; }), \"{} != {}\", stringify!(");
    s.append(rust_expr);
    s.append("), stringify!(");
    s.append(cpp_expr);
    s.append("));\n");
    s
}

/// One ephemeral test unit, derived per type during synthesis.
pub struct GeneratedTest {
    /// The type under test; the unit is named `layout_test_<type>`.
    pub target_type: String,
    /// The emitted assertion statements, in order.
    pub assertions: Vec<String>,
}

impl GeneratedTest {
    /// The unit as (type name, assertion texts).
    pub open spec fn rep(self) -> (Seq<char>, Seq<Seq<char>>) {
        (self.target_type@, self.assertions.deep_view())
    }
}

/// Appends one text piece, extending the view.
fn push_text(dst: &mut Vec<String>, s: String)
    ensures
        final(dst).deep_view() == old(dst).deep_view().push(s@),
{
    let ghost sv = s@;
    dst.push(s);
    proof {
        assert forall|k: int| 0 <= k < dst@.len() implies dst.deep_view()[k] == old(
            dst,
        ).deep_view().push(sv)[k] by {
            if k < old(dst)@.len() {
                assert(dst@[k] == old(dst)@[k]);
            }
        }
        assert(dst.deep_view() =~= old(dst).deep_view().push(sv));
    }
}

/// Appends copies of all pieces of `src`, extending the view by them.
fn append_texts(dst: &mut Vec<String>, src: &Vec<String>)
    ensures
        final(dst).deep_view() == old(dst).deep_view() + src.deep_view(),
{
    let n = src.len();
    let mut i: usize = 0;
    while i < n
        invariant
            i <= n,
            n == src@.len(),
            dst.deep_view() == old(dst).deep_view() + src.deep_view().take(i as int),
        decreases n - i,
    {
        push_text(dst, src[i].clone());
        proof {
            assert(src.deep_view()[i as int] == src@[i as int]@);
            assert(old(dst).deep_view() + src.deep_view().take(i + 1) =~= (old(dst).deep_view()
                + src.deep_view().take(i as int)).push(src@[i as int]@));
        }
        i += 1;
    }
    proof {
        assert(src.deep_view().take(n as int) =~= src.deep_view());
    }
}

/// Builds the test unit for one type, together with one notice per excluded
/// field. The unit always holds its two type-level assertions, even if every
/// field was excluded.
pub fn build_struct_test(tname: &str, fields: &Vec<String>, blocklist: &BlocklistMatcher) -> (r: (
    GeneratedTest,
    Vec<String>,
))
    requires
        blocklist.wf(),
    ensures
        r.0.rep() == (tname@, unit_assertions(tname@, fields.deep_view(), blocklist@)),
        r.1.deep_view() == notice_texts(field_notices(tname@, fields.deep_view(), blocklist@)),
        r.0.assertions.deep_view().len() >= 2,
{
    let mut assertions: Vec<String> = Vec::new();
    push_text(&mut assertions, render_assert(call1("size_of!(", tname).as_str(), call1("sizeof(", tname).as_str()));
    push_text(&mut assertions, render_assert(call1("align_of!(", tname).as_str(), call1("alignof(", tname).as_str()));
    proof {
        assert(assertions.deep_view() =~= type_assertions(tname@));
    }
    let mut notices: Vec<String> = Vec::new();
    let ghost fv = fields.deep_view();
    let n = fields.len();
    let mut i: usize = 0;
    while i < n
        invariant
            i <= n,
            n == fields@.len(),
            fv == fields.deep_view(),
            blocklist.wf(),
            assertions.deep_view() == type_assertions(tname@) + unit_field_assertions(
                tname@,
                fv.take(i as int),
                blocklist@,
            ),
            notices.deep_view() == notice_texts(
                field_notices(tname@, fv.take(i as int), blocklist@),
            ),
        decreases n - i,
    {
        let field = &fields[i];
        proof {
            assert(fv[i as int] == fields@[i as int]@);
            assert(fv.take(i + 1).drop_last() =~= fv.take(i as int));
            assert(fv.take(i + 1).last() == fv[i as int]);
        }
        if blocklist.is_field_excluded(tname, field.as_str()) {
            let mut notice = String::from_str("Skipping layout tests for ");
            notice.append(tname);
            notice.append("::");
            notice.append(field.as_str());
            push_text(&mut notices, notice);
            proof {
                assert(notice_texts(field_notices(tname@, fv.take(i + 1), blocklist@))
                    =~= notice_texts(field_notices(tname@, fv.take(i as int), blocklist@)).push(
                    notice_text(SkipNotice::Field { t: tname@, f: fv[i as int] }),
                ));
                assert(assertions.deep_view() =~= type_assertions(tname@)
                    + unit_field_assertions(tname@, fv.take(i + 1), blocklist@));
            }
        } else {
            let path = render_member_path(tname, field.as_str());
            push_text(&mut assertions, render_assert(
                call1("size_of!(", path.as_str()).as_str(),
                call1("sizeof(", path.as_str()).as_str(),
            ));
            push_text(&mut assertions, render_assert(
                call1("align_of!(", path.as_str()).as_str(),
                call1("alignof(", path.as_str()).as_str(),
            ));
            push_text(&mut assertions, render_assert(
                call2("offset_of!(", tname, field.as_str()).as_str(),
                call2("offsetof(", tname, field.as_str()).as_str(),
            ));
            proof {
                assert(unit_field_assertions(tname@, fv.take(i + 1), blocklist@)
                    =~= unit_field_assertions(tname@, fv.take(i as int), blocklist@)
                    + field_assertions(tname@, fv[i as int]));
                assert(assertions.deep_view() =~= type_assertions(tname@)
                    + unit_field_assertions(tname@, fv.take(i + 1), blocklist@));
                assert(notice_texts(field_notices(tname@, fv.take(i + 1), blocklist@))
                    =~= notice_texts(field_notices(tname@, fv.take(i as int), blocklist@)));
            }
        }
        i += 1;
    }
    proof {
        assert(fv.take(n as int) =~= fv);
        assert(type_assertions(tname@).len() == 2);
    }
    let unit = GeneratedTest { target_type: String::from_str(tname), assertions };
    (unit, notices)
}

/// The full text of one unit: `#[test] fn layout_test_<type>() { ... }`.
pub fn render_unit(unit: &GeneratedTest) -> (s: String)
    ensures
        s@ == unit_text(unit.target_type@, unit.assertions.deep_view()),
{
    let mut s = String::from_str("#[test]\nfn layout_test_");
    s.append(unit.target_type.as_str());
    s.append("() {\n");
    proof {
        assert(s@ =~= "#[test]\nfn layout_test_"@ + unit.target_type@ + "() {\n"@ + concat_texts(
            unit.assertions.deep_view().take(0),
        ));
    }
    let n = unit.assertions.len();
    let mut i: usize = 0;
    while i < n
        invariant
            i <= n,
            n == unit.assertions@.len(),
            s@ == "#[test]\nfn layout_test_"@ + unit.target_type@ + "() {\n"@ + concat_texts(
                unit.assertions.deep_view().take(i as int),
            ),
        decreases n - i,
    {
        s.append(unit.assertions[i].as_str());
        proof {
            let adv = unit.assertions.deep_view();
            assert(adv.take(i + 1).drop_last() =~= adv.take(i as int));
            assert(adv.take(i + 1).last() == adv[i as int]);
            assert(adv[i as int] == unit.assertions@[i as int]@);
        }
        i += 1;
    }
    proof {
        assert(unit.assertions.deep_view().take(n as int) =~= unit.assertions.deep_view());
    }
    s.append("}\n");
    proof {
        assert(s@ =~= unit_text(unit.target_type@, unit.assertions.deep_view()));
    }
    s
}

/// Synthesizes the suite: one rendered unit per non-excluded type, in the
/// deterministic stored order, together with all notices of the pass.
pub fn build_tests(facts: &LayoutFactsCollector, blocklist: &BlocklistMatcher) -> (r: (
    String,
    Vec<String>,
))
    requires
        facts.wf(),
        blocklist.wf(),
    ensures
        r.0@ == suite_text(facts.records_view(), blocklist@),
        r.1.deep_view() == notice_texts(suite_notices(facts.records_view(), blocklist@)),
{
    let mut out = String::new();
    let mut notices: Vec<String> = Vec::new();
    let ghost rv = facts.records_view();
    let n = facts.record_count();
    let mut i: usize = 0;
    while i < n
        invariant
            i <= n,
            n == rv.len(),
            rv == facts.records_view(),
            facts.wf(),
            blocklist.wf(),
            out@ == suite_text(rv.take(i as int), blocklist@),
            notices.deep_view() == notice_texts(suite_notices(rv.take(i as int), blocklist@)),
        decreases n - i,
    {
        let tname = facts.record_name(i);
        proof {
            assert(rv.take(i + 1).drop_last() =~= rv.take(i as int));
            assert(rv.take(i + 1).last() == rv[i as int]);
        }
        if blocklist.is_type_excluded(tname.as_str()) {
            let mut notice = String::from_str("Skipping layout tests for ");
            notice.append(tname.as_str());
            push_text(&mut notices, notice);
            proof {
                assert(notice_texts(suite_notices(rv.take(i + 1), blocklist@)) =~= notice_texts(
                    suite_notices(rv.take(i as int), blocklist@),
                ).push(notice_text(SkipNotice::Type { t: rv[i as int].0 })));
                assert(out@ == suite_text(rv.take(i + 1), blocklist@));
            }
        } else {
            let fields = facts.record_fields(i);
            let (unit, field_notes) = build_struct_test(tname.as_str(), fields, blocklist);
            let text = render_unit(&unit);
            out.append(text.as_str());
            append_texts(&mut notices, &field_notes);
            proof {
                assert(out@ == suite_text(rv.take(i + 1), blocklist@));
                assert(notice_texts(suite_notices(rv.take(i + 1), blocklist@)) =~= notice_texts(
                    suite_notices(rv.take(i as int), blocklist@),
                ) + notice_texts(field_notices(rv[i as int].0, rv[i as int].1, blocklist@)));
            }
        }
        i += 1;
    }
    proof {
        assert(rv.take(n as int) =~= rv);
    }
    (out, notices)
}

} // verus!
