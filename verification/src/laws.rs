//! Laws of the synthesis: what the emitted suite is guaranteed to contain,
//! proved from the spec functions the executable contracts are stated over.

use vstd::prelude::*;

use crate::blocklist::field_excluded;
use crate::blocklist::type_excluded;
use crate::facts::fields_of_rep;
use crate::facts::has_type;
use crate::facts::lemma_fields_of_rep_at;
use crate::facts::lemma_record_keys_unique;
use crate::facts::sorted_records;
use crate::facts::RecordRep;
use crate::synth::field_assertions;
use crate::synth::field_notices;
use crate::synth::included_count;
use crate::synth::kept_fields;
use crate::synth::suite_notices;
use crate::synth::suite_text;
use crate::synth::suite_units;
use crate::synth::unit_assertions;
use crate::synth::unit_field_assertions;
use crate::synth::RuleRep;
use crate::synth::SkipNotice;

verus! {

proof fn lemma_field_assertion_len(t: Seq<char>, fields: Seq<Seq<char>>, rules: Seq<RuleRep>)
    ensures
        unit_field_assertions(t, fields, rules).len() == 3 * included_count(t, fields, rules),
    decreases fields.len(),
{
    if fields.len() > 0 {
        lemma_field_assertion_len(t, fields.drop_last(), rules);
    }
}

/// A type with no whole-type match and `n` surviving fields gets a unit of
/// exactly `2 + 3 n` assertions; in particular never an empty unit.
pub proof fn lemma_unit_assertion_count(t: Seq<char>, fields: Seq<Seq<char>>, rules: Seq<RuleRep>)
    ensures
        unit_assertions(t, fields, rules).len() == 2 + 3 * included_count(t, fields, rules),
        unit_assertions(t, fields, rules).len() >= 2,
{
    lemma_field_assertion_len(t, fields, rules);
}

/// The assertions of the surviving fields, with no exclusion involved.
pub open spec fn kept_assertions(t: Seq<char>, fields: Seq<Seq<char>>) -> Seq<Seq<char>>
    decreases fields.len(),
{
    if fields.len() == 0 {
        Seq::empty()
    } else {
        kept_assertions(t, fields.drop_last()) + field_assertions(t, fields.last())
    }
}

/// An excluded field contributes nothing: the unit's field assertions are
/// exactly those of the fields that survive, and every surviving field is
/// one that no rule excludes.
pub proof fn lemma_excluded_field_contributes_nothing(
    t: Seq<char>,
    fields: Seq<Seq<char>>,
    rules: Seq<RuleRep>,
)
    ensures
        unit_field_assertions(t, fields, rules) == kept_assertions(
            t,
            kept_fields(t, fields, rules),
        ),
        forall|k: int|
            0 <= k < kept_fields(t, fields, rules).len() ==> !field_excluded(
                rules,
                t,
                #[trigger] kept_fields(t, fields, rules)[k],
            ),
    decreases fields.len(),
{
    if fields.len() == 0 {
    } else {
        lemma_excluded_field_contributes_nothing(t, fields.drop_last(), rules);
        let kept = kept_fields(t, fields, rules);
        let kept_dl = kept_fields(t, fields.drop_last(), rules);
        if field_excluded(rules, t, fields.last()) {
            assert(kept =~= kept_dl);
            assert(unit_field_assertions(t, fields, rules) =~= unit_field_assertions(
                t,
                fields.drop_last(),
                rules,
            ));
        } else {
            assert(kept =~= kept_dl.push(fields.last()));
            assert(kept.len() > 0);
            assert(kept.drop_last() =~= kept_dl);
            assert(kept.last() == fields.last());
            assert(kept_assertions(t, kept) == kept_assertions(t, kept_dl) + field_assertions(
                t,
                fields.last(),
            ));
            assert forall|k: int| 0 <= k < kept.len() implies !field_excluded(
                rules,
                t,
                #[trigger] kept[k],
            ) by {
                if k < kept_dl.len() {
                    assert(kept[k] == kept_dl[k]);
                } else {
                    assert(kept[k] == fields.last());
                }
            }
        }
    }
}

/// A type matched by a whole-type rule gets no unit.
pub proof fn lemma_excluded_type_yields_no_unit(
    recs: Seq<RecordRep>,
    rules: Seq<RuleRep>,
    t: Seq<char>,
)
    requires
        type_excluded(rules, t),
    ensures
        forall|k: int|
            0 <= k < suite_units(recs, rules).len() ==> (#[trigger] suite_units(recs, rules)[k]).0
                != t,
    decreases recs.len(),
{
    if recs.len() > 0 {
        lemma_excluded_type_yields_no_unit(recs.drop_last(), rules, t);
        let u = suite_units(recs, rules);
        let v = suite_units(recs.drop_last(), rules);
        assert forall|k: int| 0 <= k < u.len() implies (#[trigger] u[k]).0 != t by {
            if type_excluded(rules, recs.last().0) {
                assert(u[k] == v[k]);
            } else {
                if k < v.len() {
                    assert(u[k] == v[k]);
                } else {
                    assert(u[k].0 == recs.last().0);
                    assert(recs.last().0 != t);
                }
            }
        }
    }
}

/// How often the skip notice for one type occurs.
pub open spec fn count_type_notices(ns: Seq<SkipNotice>, t: Seq<char>) -> nat
    decreases ns.len(),
{
    if ns.len() == 0 {
        0
    } else {
        count_type_notices(ns.drop_last(), t) + (if ns.last() == (SkipNotice::Type { t }) {
            1nat
        } else {
            0nat
        })
    }
}

proof fn lemma_count_concat(a: Seq<SkipNotice>, b: Seq<SkipNotice>, t: Seq<char>)
    ensures
        count_type_notices(a + b, t) == count_type_notices(a, t) + count_type_notices(b, t),
    decreases b.len(),
{
    if b.len() == 0 {
        assert(a + b =~= a);
    } else {
        lemma_count_concat(a, b.drop_last(), t);
        assert((a + b).drop_last() =~= a + b.drop_last());
        assert((a + b).last() == b.last());
    }
}

proof fn lemma_count_single(n: SkipNotice, t: Seq<char>)
    ensures
        count_type_notices(seq![n], t) == (if n == (SkipNotice::Type { t }) {
            1nat
        } else {
            0nat
        }),
{
    assert(count_type_notices(Seq::<SkipNotice>::empty(), t) == 0);
    assert(seq![n].drop_last() =~= Seq::<SkipNotice>::empty());
    assert(seq![n].last() == n);
}

proof fn lemma_field_notices_count(
    t2: Seq<char>,
    fields: Seq<Seq<char>>,
    rules: Seq<RuleRep>,
    t: Seq<char>,
)
    ensures
        count_type_notices(field_notices(t2, fields, rules), t) == 0,
    decreases fields.len(),
{
    if fields.len() > 0 {
        lemma_field_notices_count(t2, fields.drop_last(), rules, t);
        let ns = field_notices(t2, fields, rules);
        let dl = field_notices(t2, fields.drop_last(), rules);
        if field_excluded(rules, t2, fields.last()) {
            assert(ns.drop_last() =~= dl);
            assert(!(ns.last() == (SkipNotice::Type { t })));
        } else {
            assert(ns =~= dl);
        }
    }
}

proof fn lemma_no_record_no_type_notice(recs: Seq<RecordRep>, rules: Seq<RuleRep>, t: Seq<char>)
    requires
        !has_type(recs, t),
    ensures
        count_type_notices(suite_notices(recs, rules), t) == 0,
    decreases recs.len(),
{
    if recs.len() > 0 {
        assert(!has_type(recs.drop_last(), t)) by {
            if has_type(recs.drop_last(), t) {
                let k = choose|i: int|
                    0 <= i < recs.drop_last().len() && (#[trigger] recs.drop_last()[i]).0 == t;
                assert(recs[k].0 == t);
            }
        }
        lemma_no_record_no_type_notice(recs.drop_last(), rules, t);
        assert(recs.last().0 != t) by {
            if recs.last().0 == t {
                assert(recs[recs.len() - 1].0 == t);
            }
        }
        if type_excluded(rules, recs.last().0) {
            lemma_count_single(SkipNotice::Type { t: recs.last().0 }, t);
            lemma_count_concat(
                suite_notices(recs.drop_last(), rules),
                seq![SkipNotice::Type { t: recs.last().0 }],
                t,
            );
        } else {
            lemma_field_notices_count(recs.last().0, recs.last().1, rules, t);
            lemma_count_concat(
                suite_notices(recs.drop_last(), rules),
                field_notices(recs.last().0, recs.last().1, rules),
                t,
            );
        }
    }
}

/// A recorded type matched by a whole-type rule yields exactly one notice
/// naming it (and, by `lemma_excluded_type_yields_no_unit`, no unit).
pub proof fn lemma_excluded_type_one_notice(
    recs: Seq<RecordRep>,
    rules: Seq<RuleRep>,
    t: Seq<char>,
)
    requires
        sorted_records(recs),
        has_type(recs, t),
        type_excluded(rules, t),
    ensures
        count_type_notices(suite_notices(recs, rules), t) == 1,
    decreases recs.len(),
{
    let w = choose|i: int| 0 <= i < recs.len() && (#[trigger] recs[i]).0 == t;
    assert(0 <= w < recs.len() && recs[w].0 == t);
    let dl = recs.drop_last();
    assert(sorted_records(dl)) by {
        assert forall|i: int| 0 <= i && i + 1 < dl.len() implies crate::text::lex_lt(
            (#[trigger] dl[i]).0,
            dl[i + 1].0,
        ) by {
            assert(dl[i] == recs[i]);
            assert(dl[i + 1] == recs[i + 1]);
        }
    }
    if recs.last().0 == t {
        assert(!has_type(dl, t)) by {
            if has_type(dl, t) {
                let k = choose|i: int| 0 <= i < dl.len() && (#[trigger] dl[i]).0 == t;
                assert(recs[k].0 == t);
                lemma_record_keys_unique(recs, k, recs.len() - 1);
            }
        }
        lemma_no_record_no_type_notice(dl, rules, t);
        lemma_count_single(SkipNotice::Type { t }, t);
        lemma_count_concat(suite_notices(dl, rules), seq![SkipNotice::Type { t }], t);
    } else {
        assert(w < recs.len() - 1);
        assert(dl[w] == recs[w]);
        assert(has_type(dl, t));
        lemma_excluded_type_one_notice(dl, rules, t);
        if type_excluded(rules, recs.last().0) {
            lemma_count_single(SkipNotice::Type { t: recs.last().0 }, t);
            lemma_count_concat(
                suite_notices(dl, rules),
                seq![SkipNotice::Type { t: recs.last().0 }],
                t,
            );
        } else {
            lemma_field_notices_count(recs.last().0, recs.last().1, rules, t);
            lemma_count_concat(
                suite_notices(dl, rules),
                field_notices(recs.last().0, recs.last().1, rules),
                t,
            );
        }
    }
}

/// A recorded type that no whole-type rule matches always gets its unit,
/// with exactly the assertions synthesized from its recorded fields — even
/// when every one of its fields is excluded.
#[verifier::rlimit(50)]
pub proof fn lemma_surviving_type_has_unit(
    recs: Seq<RecordRep>,
    rules: Seq<RuleRep>,
    t: Seq<char>,
)
    requires
        sorted_records(recs),
        has_type(recs, t),
        !type_excluded(rules, t),
    ensures
        exists|k: int|
            0 <= k < suite_units(recs, rules).len() && #[trigger] suite_units(recs, rules)[k] == (
            t,
            unit_assertions(t, fields_of_rep(recs, t), rules),
            ),
    decreases recs.len(),
{
    let w = choose|i: int| 0 <= i < recs.len() && (#[trigger] recs[i]).0 == t;
    assert(0 <= w < recs.len() && recs[w].0 == t);
    let dl = recs.drop_last();
    assert(sorted_records(dl)) by {
        assert forall|i: int| 0 <= i && i + 1 < dl.len() implies crate::text::lex_lt(
            (#[trigger] dl[i]).0,
            dl[i + 1].0,
        ) by {
            assert(dl[i] == recs[i]);
            assert(dl[i + 1] == recs[i + 1]);
        }
    }
    let u = suite_units(recs, rules);
    let v = suite_units(dl, rules);
    if recs.last().0 == t {
        lemma_fields_of_rep_at(recs, t, recs.len() - 1);
        assert(u == v + seq![(t, unit_assertions(t, recs.last().1, rules))]);
        assert(u[v.len() as int] == (t, unit_assertions(t, fields_of_rep(recs, t), rules)));
    } else {
        assert(w != recs.len() - 1);
        assert(dl[w] == recs[w]);
        assert(has_type(dl, t));
        lemma_surviving_type_has_unit(dl, rules, t);
        lemma_fields_of_rep_at(dl, t, w);
        lemma_fields_of_rep_at(recs, t, w);
        assert(fields_of_rep(dl, t) == fields_of_rep(recs, t));
        let k = choose|k: int|
            0 <= k < v.len() && #[trigger] v[k] == (
            t,
            unit_assertions(t, fields_of_rep(dl, t), rules),
            );
        assert(0 <= k < v.len() && v[k] == (t, unit_assertions(t, fields_of_rep(dl, t), rules)));
        if type_excluded(rules, recs.last().0) {
            assert(u =~= v);
        } else {
            assert(u == v + seq![
                (recs.last().0, unit_assertions(recs.last().0, recs.last().1, rules)),
            ]);
        }
        assert(u[k] == (t, unit_assertions(t, fields_of_rep(recs, t), rules)));
    }
}

/// The output is a function of the recorded facts and the registered rules
/// alone: two sessions with equal views emit byte-identical suites and
/// identical notices.
pub proof fn lemma_output_deterministic(
    recs1: Seq<RecordRep>,
    rules1: Seq<RuleRep>,
    recs2: Seq<RecordRep>,
    rules2: Seq<RuleRep>,
)
    requires
        recs1 == recs2,
        rules1 == rules2,
    ensures
        suite_text(recs1, rules1) == suite_text(recs2, rules2),
        suite_notices(recs1, rules1) == suite_notices(recs2, rules2),
{
}

proof fn lemma_unit_same_rules(
    t: Seq<char>,
    fields: Seq<Seq<char>>,
    r1: Seq<RuleRep>,
    r2: Seq<RuleRep>,
)
    requires
        forall|f: Seq<char>| #[trigger] field_excluded(r1, t, f) == field_excluded(r2, t, f),
    ensures
        unit_field_assertions(t, fields, r1) == unit_field_assertions(t, fields, r2),
        field_notices(t, fields, r1) == field_notices(t, fields, r2),
    decreases fields.len(),
{
    if fields.len() > 0 {
        lemma_unit_same_rules(t, fields.drop_last(), r1, r2);
    }
}

proof fn lemma_suite_same_rules(recs: Seq<RecordRep>, r1: Seq<RuleRep>, r2: Seq<RuleRep>)
    requires
        forall|t: Seq<char>| #[trigger] type_excluded(r1, t) == type_excluded(r2, t),
        forall|t: Seq<char>, f: Seq<char>| #[trigger] field_excluded(r1, t, f) == field_excluded(
            r2,
            t,
            f,
        ),
    ensures
        suite_units(recs, r1) == suite_units(recs, r2),
        suite_notices(recs, r1) == suite_notices(recs, r2),
        suite_text(recs, r1) == suite_text(recs, r2),
    decreases recs.len(),
{
    if recs.len() > 0 {
        lemma_suite_same_rules(recs.drop_last(), r1, r2);
        lemma_unit_same_rules(recs.last().0, recs.last().1, r1, r2);
    }
}

/// A rule that is already registered adds nothing: a type or field matched
/// by two rules is excluded exactly once, and the emitted output is the same
/// as with one of them.
pub proof fn lemma_duplicate_rule_no_effect(recs: Seq<RecordRep>, rules: Seq<RuleRep>, i: int)
    requires
        0 <= i < rules.len(),
    ensures
        forall|t: Seq<char>| #[trigger] type_excluded(rules.push(rules[i]), t) == type_excluded(
            rules,
            t,
        ),
        forall|t: Seq<char>, f: Seq<char>| #[trigger] field_excluded(rules.push(rules[i]), t, f)
            == field_excluded(rules, t, f),
        suite_units(recs, rules.push(rules[i])) == suite_units(recs, rules),
        suite_notices(recs, rules.push(rules[i])) == suite_notices(recs, rules),
        suite_text(recs, rules.push(rules[i])) == suite_text(recs, rules),
{
    let r2 = rules.push(rules[i]);
    assert forall|t: Seq<char>| #[trigger] type_excluded(r2, t) == type_excluded(rules, t) by {
        if type_excluded(rules, t) {
            let k = choose|k: int|
                0 <= k < rules.len() && rules[k].1 is None && #[trigger] crate::blocklist::regex_matches(
                    rules[k].0,
                    t,
                );
            assert(r2[k] == rules[k]);
            assert(type_excluded(r2, t));
        }
        if type_excluded(r2, t) {
            let k = choose|k: int|
                0 <= k < r2.len() && r2[k].1 is None && #[trigger] crate::blocklist::regex_matches(
                    r2[k].0,
                    t,
                );
            if k < rules.len() {
                assert(type_excluded(rules, t));
            } else {
                assert(r2[k] == rules[i]);
                assert(type_excluded(rules, t));
            }
        }
    }
    assert forall|t: Seq<char>, f: Seq<char>| #[trigger] field_excluded(r2, t, f)
        == field_excluded(rules, t, f) by {
        if field_excluded(rules, t, f) {
            let k = choose|k: int|
                0 <= k < rules.len() && rules[k].1 is Some && #[trigger] crate::blocklist::regex_matches(
                    rules[k].0,
                    t,
                ) && crate::blocklist::regex_matches(rules[k].1->0, f);
            assert(r2[k] == rules[k]);
            assert(field_excluded(r2, t, f));
        }
        if field_excluded(r2, t, f) {
            let k = choose|k: int|
                0 <= k < r2.len() && r2[k].1 is Some && #[trigger] crate::blocklist::regex_matches(
                    r2[k].0,
                    t,
                ) && crate::blocklist::regex_matches(r2[k].1->0, f);
            if k < rules.len() {
                assert(field_excluded(rules, t, f));
            } else {
                assert(r2[k] == rules[i]);
                assert(field_excluded(rules, t, f));
            }
        }
    }
    lemma_suite_same_rules(recs, r2, rules);
}

} // verus!
