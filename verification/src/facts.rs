//! Accumulated structural facts: headers seen, and which fields each type
//! has.
//!
//! Headers are kept in arrival order, first occurrence only. Type records are
//! kept strictly sorted by type name, and each field list strictly sorted by
//! field name, so the store is canonical: recording the same fact twice
//! leaves it unchanged, and equal fact sets have equal representations.

use vstd::prelude::*;
use vstd::string::StrSliceExecFns;
use vstd::string::StringExecFns;

use crate::text::lemma_lex_lt_connected;
use crate::text::lemma_lex_lt_irreflexive;
use crate::text::lemma_lex_lt_trans;
use crate::text::lex_lt;
use crate::text::str_eq;
use crate::text::str_lex_lt;
use crate::text::strictly_sorted;

verus! {

/// One type with its recorded field names.
struct TypeRecord {
    name: String,
    fields: Vec<String>,
}

/// The view of one record: the type name and its field names.
pub type RecordRep = (Seq<char>, Seq<Seq<char>>);

/// Records are strictly ascending by type name.
pub open spec fn sorted_records(recs: Seq<RecordRep>) -> bool {
    forall|i: int| 0 <= i && i + 1 < recs.len() ==> lex_lt((#[trigger] recs[i]).0, recs[i + 1].0)
}

/// Sorted by type name, and each field list sorted too.
pub open spec fn rep_wf(recs: Seq<RecordRep>) -> bool {
    sorted_records(recs) && (forall|i: int|
        0 <= i < recs.len() ==> strictly_sorted((#[trigger] recs[i]).1))
}

/// Some record carries this type name.
pub open spec fn has_type(recs: Seq<RecordRep>, t: Seq<char>) -> bool {
    exists|i: int| 0 <= i < recs.len() && (#[trigger] recs[i]).0 == t
}

/// Some record carries this type name with this field recorded.
pub open spec fn has_field(recs: Seq<RecordRep>, t: Seq<char>, f: Seq<char>) -> bool {
    exists|i: int| 0 <= i < recs.len() && (#[trigger] recs[i]).0 == t && recs[i].1.contains(f)
}

/// Insertion of a name into a sorted list of names, keeping order and
/// dropping nothing; inserting a present name changes nothing.
pub open spec fn insert_name(s: Seq<Seq<char>>, x: Seq<char>) -> Seq<Seq<char>>
    decreases s.len(),
{
    if s.len() == 0 {
        seq![x]
    } else if lex_lt(x, s[0]) {
        seq![x] + s
    } else if x == s[0] {
        s
    } else {
        seq![s[0]] + insert_name(s.drop_first(), x)
    }
}

/// Recording one (type, field) fact in the sorted record list.
pub open spec fn record_field_rep(recs: Seq<RecordRep>, t: Seq<char>, f: Seq<char>) -> Seq<
    RecordRep,
>
    decreases recs.len(),
{
    if recs.len() == 0 {
        seq![(t, seq![f])]
    } else if lex_lt(t, recs[0].0) {
        seq![(t, seq![f])] + recs
    } else if t == recs[0].0 {
        seq![(recs[0].0, insert_name(recs[0].1, f))] + recs.drop_first()
    } else {
        seq![recs[0]] + record_field_rep(recs.drop_first(), t, f)
    }
}

/// Recording a header: appended on first arrival, a no-op afterwards.
pub open spec fn record_header_rep(hs: Seq<Seq<char>>, h: Seq<char>) -> Seq<Seq<char>> {
    if hs.contains(h) {
        hs
    } else {
        hs.push(h)
    }
}

/// The type names of the records, in their stored order.
pub open spec fn record_keys(recs: Seq<RecordRep>) -> Seq<Seq<char>> {
    recs.map_values(|r: RecordRep| r.0)
}

/// The recorded fields of a type, or the empty sequence if the type is
/// unknown.
pub open spec fn fields_of_rep(recs: Seq<RecordRep>, t: Seq<char>) -> Seq<Seq<char>>
    decreases recs.len(),
{
    if recs.len() == 0 {
        Seq::empty()
    } else if recs[0].0 == t {
        recs[0].1
    } else {
        fields_of_rep(recs.drop_first(), t)
    }
}

proof fn lemma_sorted_names_drop_first(s: Seq<Seq<char>>)
    requires
        strictly_sorted(s),
        s.len() > 0,
    ensures
        strictly_sorted(s.drop_first()),
{
    assert forall|i: int| 0 <= i && i + 1 < s.drop_first().len() implies lex_lt(
        #[trigger] s.drop_first()[i],
        s.drop_first()[i + 1],
    ) by {
        assert(s.drop_first()[i] == s[i + 1]);
        assert(s.drop_first()[i + 1] == s[i + 2]);
        assert(lex_lt(s[i + 1], s[i + 2]));
    }
}

pub proof fn lemma_sorted_records_drop_first(recs: Seq<RecordRep>)
    requires
        sorted_records(recs),
        recs.len() > 0,
    ensures
        sorted_records(recs.drop_first()),
{
    assert forall|i: int| 0 <= i && i + 1 < recs.drop_first().len() implies lex_lt(
        (#[trigger] recs.drop_first()[i]).0,
        recs.drop_first()[i + 1].0,
    ) by {
        assert(recs.drop_first()[i] == recs[i + 1]);
        assert(recs.drop_first()[i + 1] == recs[i + 2]);
        assert(lex_lt(recs[i + 1].0, recs[i + 2].0));
    }
}

/// In a strictly ascending name list, earlier names precede later ones.
pub proof fn lemma_sorted_names_indices(s: Seq<Seq<char>>, i: int, j: int)
    requires
        strictly_sorted(s),
        0 <= i < j < s.len(),
    ensures
        lex_lt(s[i], s[j]),
    decreases j - i,
{
    if i + 1 < j {
        lemma_sorted_names_indices(s, i + 1, j);
        lemma_lex_lt_trans(s[i], s[i + 1], s[j]);
    }
}

/// In a sorted record list, earlier type names precede later ones.
pub proof fn lemma_sorted_records_indices(recs: Seq<RecordRep>, i: int, j: int)
    requires
        sorted_records(recs),
        0 <= i < j < recs.len(),
    ensures
        lex_lt(recs[i].0, recs[j].0),
    decreases j - i,
{
    if i + 1 < j {
        lemma_sorted_records_indices(recs, i + 1, j);
        lemma_lex_lt_trans(recs[i].0, recs[i + 1].0, recs[j].0);
    }
}

/// Distinct records of a sorted list carry distinct type names.
pub proof fn lemma_record_keys_unique(recs: Seq<RecordRep>, i: int, j: int)
    requires
        sorted_records(recs),
        0 <= i < recs.len(),
        0 <= j < recs.len(),
        i != j,
    ensures
        recs[i].0 != recs[j].0,
{
    if i < j {
        lemma_sorted_records_indices(recs, i, j);
    } else {
        lemma_sorted_records_indices(recs, j, i);
    }
    lemma_lex_lt_irreflexive(recs[i].0);
}

/// The recorded fields of a type are those of its one record.
pub proof fn lemma_fields_of_rep_at(recs: Seq<RecordRep>, t: Seq<char>, j: int)
    requires
        sorted_records(recs),
        0 <= j < recs.len(),
        recs[j].0 == t,
    ensures
        fields_of_rep(recs, t) == recs[j].1,
    decreases recs.len(),
{
    if recs[0].0 == t {
        if j != 0 {
            lemma_record_keys_unique(recs, 0, j);
            assert(false);
        }
    } else {
        lemma_sorted_records_drop_first(recs);
        assert(recs.drop_first()[j - 1] == recs[j]);
        lemma_fields_of_rep_at(recs.drop_first(), t, j - 1);
    }
}

/// A type with no record has no recorded fields.
pub proof fn lemma_fields_of_rep_absent(recs: Seq<RecordRep>, t: Seq<char>)
    requires
        !has_type(recs, t),
    ensures
        fields_of_rep(recs, t) == Seq::<Seq<char>>::empty(),
    decreases recs.len(),
{
    if recs.len() > 0 {
        assert(recs[0].0 != t);
        assert(!has_type(recs.drop_first(), t)) by {
            if has_type(recs.drop_first(), t) {
                let k = choose|i: int|
                    0 <= i < recs.drop_first().len() && (#[trigger] recs.drop_first()[i]).0 == t;
                assert(recs[k + 1].0 == t);
            }
        }
        lemma_fields_of_rep_absent(recs.drop_first(), t);
    }
}

/// When neither is smaller, two names are the same.
proof fn lemma_lex_ge_and_le(a: Seq<char>, b: Seq<char>)
    requires
        !lex_lt(a, b),
        a != b,
    ensures
        lex_lt(b, a),
{
    if !lex_lt(b, a) {
        lemma_lex_lt_connected(a, b);
    }
}

/// Inserting keeps a name list strictly sorted.
pub proof fn lemma_insert_name_sorted(s: Seq<Seq<char>>, x: Seq<char>)
    requires
        strictly_sorted(s),
    ensures
        strictly_sorted(insert_name(s, x)),
    decreases s.len(),
{
    if s.len() == 0 {
    } else if lex_lt(x, s[0]) {
        let r = seq![x] + s;
        assert forall|i: int| 0 <= i && i + 1 < r.len() implies lex_lt(
            #[trigger] r[i],
            r[i + 1],
        ) by {
            if i == 0 {
            } else {
                assert(r[i] == s[i - 1]);
                assert(r[i + 1] == s[i]);
                if i == 1 {
                } else {
                    assert(lex_lt(s[i - 1], s[i]));
                }
            }
        }
    } else if x == s[0] {
    } else {
        lemma_lex_ge_and_le(x, s[0]);
        lemma_sorted_names_drop_first(s);
        lemma_insert_name_sorted(s.drop_first(), x);
        let t = insert_name(s.drop_first(), x);
        let r = seq![s[0]] + t;
        assert(t.len() > 0);
        // the head of the inserted tail is either x or the old second name
        assert(t[0] == x || (s.drop_first().len() > 0 && t[0] == s.drop_first()[0]));
        assert forall|i: int| 0 <= i && i + 1 < r.len() implies lex_lt(
            #[trigger] r[i],
            r[i + 1],
        ) by {
            if i == 0 {
                if t[0] == x {
                } else {
                    assert(lex_lt(s[0], s[1]));
                }
            } else {
                assert(r[i] == t[i - 1]);
                assert(r[i + 1] == t[i]);
                assert(lex_lt(t[i - 1], t[i]));
            }
        }
    }
}

/// Inserting a name that is already present changes nothing.
pub proof fn lemma_insert_name_present(s: Seq<Seq<char>>, x: Seq<char>)
    requires
        strictly_sorted(s),
        s.contains(x),
    ensures
        insert_name(s, x) == s,
    decreases s.len(),
{
    let w = choose|i: int| 0 <= i < s.len() && s[i] == x;
    if lex_lt(x, s[0]) {
        if w > 0 {
            lemma_sorted_names_indices(s, 0, w);
            lemma_lex_lt_trans(x, s[0], s[w]);
        }
        lemma_lex_lt_irreflexive(x);
        assert(false);
    } else if x == s[0] {
    } else {
        assert(w > 0);
        assert(s.drop_first()[w - 1] == x);
        lemma_sorted_names_drop_first(s);
        lemma_insert_name_present(s.drop_first(), x);
        assert(seq![s[0]] + s.drop_first() =~= s);
    }
}

/// The inserted name is present afterwards.
pub proof fn lemma_insert_name_has(s: Seq<Seq<char>>, x: Seq<char>)
    ensures
        insert_name(s, x).contains(x),
    decreases s.len(),
{
    if s.len() == 0 {
        assert(insert_name(s, x)[0] == x);
    } else if lex_lt(x, s[0]) {
        assert(insert_name(s, x)[0] == x);
    } else if x == s[0] {
        assert(insert_name(s, x)[0] == x);
    } else {
        lemma_insert_name_has(s.drop_first(), x);
        let t = insert_name(s.drop_first(), x);
        let k = choose|i: int| 0 <= i < t.len() && t[i] == x;
        assert(insert_name(s, x)[k + 1] == x);
    }
}

/// Splitting off a prefix of names that all precede the inserted one.
pub proof fn lemma_insert_name_split(s: Seq<Seq<char>>, x: Seq<char>, p: int)
    requires
        0 <= p <= s.len(),
        forall|j: int| 0 <= j < p ==> lex_lt(#[trigger] s[j], x),
    ensures
        insert_name(s, x) == s.take(p) + insert_name(s.skip(p), x),
    decreases p,
{
    if p == 0 {
        assert(s.skip(0) =~= s);
        assert(s.take(0) + insert_name(s, x) =~= insert_name(s, x));
    } else {
        assert(lex_lt(s[0], x));
        lemma_lex_lt_irreflexive(s[0]);
        if lex_lt(x, s[0]) {
            lemma_lex_lt_trans(s[0], x, s[0]);
            assert(false);
        }
        assert(x != s[0]);
        let df = s.drop_first();
        assert forall|j: int| 0 <= j < p - 1 implies lex_lt(#[trigger] df[j], x) by {
            assert(df[j] == s[j + 1]);
        }
        lemma_insert_name_split(df, x, p - 1);
        assert(seq![s[0]] + (df.take(p - 1) + insert_name(df.skip(p - 1), x)) =~= s.take(p)
            + insert_name(df.skip(p - 1), x));
        assert(df.skip(p - 1) =~= s.skip(p));
    }
}

/// Splitting off a prefix of records whose type names all precede the
/// recorded one.
pub proof fn lemma_record_field_split(recs: Seq<RecordRep>, t: Seq<char>, f: Seq<char>, p: int)
    requires
        0 <= p <= recs.len(),
        forall|j: int| 0 <= j < p ==> lex_lt((#[trigger] recs[j]).0, t),
    ensures
        record_field_rep(recs, t, f) == recs.take(p) + record_field_rep(recs.skip(p), t, f),
    decreases p,
{
    if p == 0 {
        assert(recs.skip(0) =~= recs);
        assert(recs.take(0) + record_field_rep(recs, t, f) =~= record_field_rep(recs, t, f));
    } else {
        assert(lex_lt(recs[0].0, t));
        lemma_lex_lt_irreflexive(recs[0].0);
        if lex_lt(t, recs[0].0) {
            lemma_lex_lt_trans(recs[0].0, t, recs[0].0);
            assert(false);
        }
        assert(t != recs[0].0);
        let df = recs.drop_first();
        assert forall|j: int| 0 <= j < p - 1 implies lex_lt((#[trigger] df[j]).0, t) by {
            assert(df[j] == recs[j + 1]);
        }
        lemma_record_field_split(df, t, f, p - 1);
        assert(seq![recs[0]] + (df.take(p - 1) + record_field_rep(df.skip(p - 1), t, f))
            =~= recs.take(p) + record_field_rep(df.skip(p - 1), t, f));
        assert(df.skip(p - 1) =~= recs.skip(p));
    }
}

/// Recording a fact keeps the store well formed.
pub proof fn lemma_record_field_wf(recs: Seq<RecordRep>, t: Seq<char>, f: Seq<char>)
    requires
        rep_wf(recs),
    ensures
        rep_wf(record_field_rep(recs, t, f)),
    decreases recs.len(),
{
    let r = record_field_rep(recs, t, f);
    if recs.len() == 0 {
        assert(strictly_sorted(seq![f]));
    } else if lex_lt(t, recs[0].0) {
        assert forall|i: int| 0 <= i && i + 1 < r.len() implies lex_lt(
            (#[trigger] r[i]).0,
            r[i + 1].0,
        ) by {
            if i == 0 {
            } else {
                assert(r[i] == recs[i - 1]);
                assert(r[i + 1] == recs[i]);
                if i > 1 {
                    assert(lex_lt(recs[i - 1].0, recs[i].0));
                }
            }
        }
        assert(strictly_sorted(seq![f]));
        assert forall|i: int| 0 <= i < r.len() implies strictly_sorted((#[trigger] r[i]).1) by {
            if i > 0 {
                assert(r[i] == recs[i - 1]);
            }
        }
    } else if t == recs[0].0 {
        lemma_insert_name_sorted(recs[0].1, f);
        assert forall|i: int| 0 <= i && i + 1 < r.len() implies lex_lt(
            (#[trigger] r[i]).0,
            r[i + 1].0,
        ) by {
            assert(r[i + 1] == recs[i + 1]);
            if i > 0 {
                assert(r[i] == recs[i]);
            }
            assert(lex_lt(recs[i].0, recs[i + 1].0));
        }
        assert forall|i: int| 0 <= i < r.len() implies strictly_sorted((#[trigger] r[i]).1) by {
            if i > 0 {
                assert(r[i] == recs[i]);
            }
        }
    } else {
        lemma_lex_ge_and_le(t, recs[0].0);
        lemma_sorted_records_drop_first(recs);
        assert forall|i: int|
            0 <= i < recs.drop_first().len() implies strictly_sorted(
            (#[trigger] recs.drop_first()[i]).1,
        ) by {
            assert(recs.drop_first()[i] == recs[i + 1]);
        }
        lemma_record_field_wf(recs.drop_first(), t, f);
        let s = record_field_rep(recs.drop_first(), t, f);
        assert(s.len() > 0);
        // the head of the updated tail carries either t or the old second name
        assert(s[0].0 == t || (recs.drop_first().len() > 0 && s[0].0 == recs.drop_first()[0].0));
        assert forall|i: int| 0 <= i && i + 1 < r.len() implies lex_lt(
            (#[trigger] r[i]).0,
            r[i + 1].0,
        ) by {
            if i == 0 {
                assert(r[0] == recs[0]);
                assert(r[1] == s[0]);
                if s[0].0 == t {
                } else {
                    assert(lex_lt(recs[0].0, recs[1].0));
                }
            } else {
                assert(r[i] == s[i - 1]);
                assert(r[i + 1] == s[i]);
                assert(lex_lt(s[i - 1].0, s[i].0));
            }
        }
        assert forall|i: int| 0 <= i < r.len() implies strictly_sorted((#[trigger] r[i]).1) by {
            if i == 0 {
                assert(r[0] == recs[0]);
            } else {
                assert(r[i] == s[i - 1]);
                assert(strictly_sorted(s[i - 1].1));
            }
        }
    }
}

/// Recording an already-recorded fact changes nothing.
pub proof fn lemma_record_field_present(recs: Seq<RecordRep>, t: Seq<char>, f: Seq<char>)
    requires
        rep_wf(recs),
        has_field(recs, t, f),
    ensures
        record_field_rep(recs, t, f) == recs,
    decreases recs.len(),
{
    let w = choose|i: int| 0 <= i < recs.len() && (#[trigger] recs[i]).0 == t && recs[i].1.contains(
        f,
    );
    if lex_lt(t, recs[0].0) {
        if w > 0 {
            lemma_sorted_records_indices(recs, 0, w);
            lemma_lex_lt_trans(t, recs[0].0, recs[w].0);
        }
        lemma_lex_lt_irreflexive(t);
        assert(false);
    } else if t == recs[0].0 {
        if w > 0 {
            lemma_record_keys_unique(recs, 0, w);
            assert(false);
        }
        lemma_insert_name_present(recs[0].1, f);
        assert(seq![(recs[0].0, recs[0].1)] + recs.drop_first() =~= recs);
    } else {
        assert(w > 0);
        assert(recs.drop_first()[w - 1] == recs[w]);
        lemma_sorted_records_drop_first(recs);
        assert forall|i: int|
            0 <= i < recs.drop_first().len() implies strictly_sorted(
            (#[trigger] recs.drop_first()[i]).1,
        ) by {
            assert(recs.drop_first()[i] == recs[i + 1]);
        }
        lemma_record_field_present(recs.drop_first(), t, f);
        assert(seq![recs[0]] + recs.drop_first() =~= recs);
    }
}

/// A recorded fact is present afterwards.
pub proof fn lemma_record_field_has(recs: Seq<RecordRep>, t: Seq<char>, f: Seq<char>)
    ensures
        has_field(record_field_rep(recs, t, f), t, f),
    decreases recs.len(),
{
    let r = record_field_rep(recs, t, f);
    if recs.len() == 0 {
        assert(r[0].1[0] == f);
        assert(r[0].1.contains(f));
    } else if lex_lt(t, recs[0].0) {
        assert(r[0].1[0] == f);
        assert(r[0].1.contains(f));
    } else if t == recs[0].0 {
        lemma_insert_name_has(recs[0].1, f);
        assert(r[0].0 == t && r[0].1.contains(f));
    } else {
        lemma_record_field_has(recs.drop_first(), t, f);
        let s = record_field_rep(recs.drop_first(), t, f);
        let k = choose|i: int|
            0 <= i < s.len() && (#[trigger] s[i]).0 == t && s[i].1.contains(f);
        assert(r[k + 1] == s[k]);
    }
}

/// Recording the same (type, field) fact twice is the same as recording it
/// once.
pub proof fn lemma_record_field_idempotent(recs: Seq<RecordRep>, t: Seq<char>, f: Seq<char>)
    requires
        rep_wf(recs),
    ensures
        record_field_rep(record_field_rep(recs, t, f), t, f) == record_field_rep(recs, t, f),
{
    lemma_record_field_wf(recs, t, f);
    lemma_record_field_has(recs, t, f);
    lemma_record_field_present(record_field_rep(recs, t, f), t, f);
}

/// Recording the same header twice is the same as recording it once.
pub proof fn lemma_record_header_idempotent(hs: Seq<Seq<char>>, h: Seq<char>)
    ensures
        record_header_rep(record_header_rep(hs, h), h) == record_header_rep(hs, h),
{
    if !hs.contains(h) {
        assert(hs.push(h)[hs.len() as int] == h);
        assert(hs.push(h).contains(h));
    }
}

/// The fact store of one generation session.
pub struct LayoutFactsCollector {
    headers: Vec<String>,
    records: Vec<TypeRecord>,
}

impl LayoutFactsCollector {
    /// The headers recorded so far, in arrival order, first occurrence only.
    pub closed spec fn headers_view(self) -> Seq<Seq<char>> {
        self.headers.deep_view()
    }

    /// The recorded (type name, field names) pairs, sorted by type name.
    pub closed spec fn records_view(self) -> Seq<RecordRep> {
        self.records@.map_values(|r: TypeRecord| (r.name@, r.fields.deep_view()))
    }

    /// Records sorted and duplicate-free, headers duplicate-free.
    pub closed spec fn wf(self) -> bool {
        &&& rep_wf(self.records_view())
        &&& (forall|i: int, j: int|
            0 <= i < j < self.headers.deep_view().len() ==> #[trigger] self.headers.deep_view()[i]
                != #[trigger] self.headers.deep_view()[j])
    }

    /// An empty store.
    pub fn new() -> (c: LayoutFactsCollector)
        ensures
            c.wf(),
            c.headers_view() == Seq::<Seq<char>>::empty(),
            c.records_view() == Seq::<RecordRep>::empty(),
    {
        let c = LayoutFactsCollector { headers: Vec::new(), records: Vec::new() };
        proof {
            assert(c.headers_view() =~= Seq::<Seq<char>>::empty());
            assert(c.records_view() =~= Seq::<RecordRep>::empty());
        }
        c
    }

    /// Appends a header on first arrival; recording it again is a no-op.
    pub fn record_header(&mut self, path: &str)
        requires
            old(self).wf(),
        ensures
            final(self).wf(),
            final(self).headers_view() == record_header_rep(old(self).headers_view(), path@),
            final(self).records_view() == old(self).records_view(),
    {
        let n = self.headers.len();
        let mut i: usize = 0;
        while i < n
            invariant
                i <= n,
                n == self.headers.len(),
                old(self).wf(),
                *self == *old(self),
                forall|j: int| 0 <= j < i ==> self.headers.deep_view()[j] != path@,
            decreases n - i,
        {
            if str_eq(self.headers[i].as_str(), path) {
                proof {
                    assert(self.headers.deep_view()[i as int] == path@);
                    assert(self.headers.deep_view().contains(path@));
                }
                return ;
            }
            i += 1;
        }
        proof {
            assert(!self.headers.deep_view().contains(path@));
        }
        let ghost pre = self.headers;
        self.headers.push(String::from_str(path));
        proof {
            assert(self.headers.deep_view() =~= pre.deep_view().push(path@));
            assert forall|a: int, b: int|
                0 <= a < b < self.headers.deep_view().len() implies #[trigger] self
                .headers
                .deep_view()[a] != #[trigger] self.headers.deep_view()[b] by {
                if b < pre.deep_view().len() {
                    assert(pre.deep_view()[a] != pre.deep_view()[b]);
                } else {
                    assert(self.headers.deep_view()[b] == path@);
                    assert(pre.deep_view()[a] != path@);
                }
            }
        }
    }

    /// Records one (type, field) fact; both the type's record and its field
    /// list are created on first sight and kept sorted, and repeats change
    /// nothing.
    pub fn record_field(&mut self, tname: &str, fname: &str)
        requires
            old(self).wf(),
        ensures
            final(self).wf(),
            final(self).headers_view() == old(self).headers_view(),
            final(self).records_view() == record_field_rep(
                old(self).records_view(),
                tname@,
                fname@,
            ),
    {
        let ghost orig = self.records_view();
        let n = self.records.len();
        let pos = record_lower_bound(&self.records, tname);
        proof {
            assert forall|j: int| 0 <= j < pos implies lex_lt((#[trigger] orig[j]).0, tname@) by {
                assert(orig[j] == (self.records@[j].name@, self.records@[j].fields.deep_view()));
            }
            if pos < n {
                assert(orig[pos as int] == (self.records@[pos as int].name@,
                self.records@[pos as int].fields.deep_view()));
                assert(!lex_lt(orig[pos as int].0, tname@));
            }
            lemma_record_field_split(orig, tname@, fname@, pos as int);
        }
        if pos < n && str_eq(self.records[pos].name.as_str(), tname) {
            // the type already has a record: insert the field into it
            let mut rec = self.records.remove(pos);
            insert_name_sorted(&mut rec.fields, fname);
            self.records.insert(pos, rec);
            proof {
                assert(orig.skip(pos as int)[0] == orig[pos as int]);
                assert(orig[pos as int].0 == tname@);
                lemma_lex_lt_irreflexive(tname@);
                assert(record_field_rep(orig.skip(pos as int), tname@, fname@) =~= seq![
                    (orig[pos as int].0, insert_name(orig[pos as int].1, fname@)),
                ] + orig.skip(pos as int).drop_first());
                assert(self.records_view() =~~= record_field_rep(orig, tname@, fname@));
                lemma_record_field_wf(orig, tname@, fname@);
            }
        } else {
            // no record yet: create one holding just this field
            proof {
                if pos < n {
                    assert(!lex_lt(orig[pos as int].0, tname@));
                    assert(orig[pos as int].0 != tname@);
                    lemma_lex_ge_and_le(orig[pos as int].0, tname@);
                }
            }
            let mut fields: Vec<String> = Vec::new();
            fields.push(String::from_str(fname));
            let rec = TypeRecord { name: String::from_str(tname), fields };
            self.records.insert(pos, rec);
            proof {
                assert(rec.fields.deep_view() =~= seq![fname@]);
                if pos < n {
                    assert(orig.skip(pos as int)[0] == orig[pos as int]);
                    assert(lex_lt(tname@, orig[pos as int].0));
                } else {
                    assert(orig.skip(pos as int) =~= Seq::<RecordRep>::empty());
                }
                assert(self.records_view() =~~= record_field_rep(orig, tname@, fname@));
                lemma_record_field_wf(orig, tname@, fname@);
            }
        }
    }

    /// The recorded headers, in arrival order.
    pub fn headers(&self) -> (h: &Vec<String>)
        ensures
            h.deep_view() == self.headers_view(),
    {
        &self.headers
    }

    /// How many types have recorded fields.
    pub fn record_count(&self) -> (n: usize)
        ensures
            n == self.records_view().len(),
    {
        self.records.len()
    }

    /// The name of the record at a position, in sorted order.
    pub fn record_name(&self, i: usize) -> (name: &String)
        requires
            i < self.records_view().len(),
        ensures
            name@ == self.records_view()[i as int].0,
    {
        &self.records[i].name
    }

    /// The sorted field names of the record at a position.
    pub fn record_fields(&self, i: usize) -> (fields: &Vec<String>)
        requires
            i < self.records_view().len(),
        ensures
            fields.deep_view() == self.records_view()[i as int].1,
    {
        &self.records[i].fields
    }

    /// The recorded type names, in sorted order.
    pub fn types(&self) -> (names: Vec<String>)
        ensures
            names.deep_view() == record_keys(self.records_view()),
    {
        let mut names: Vec<String> = Vec::new();
        let n = self.records.len();
        let mut i: usize = 0;
        while i < n
            invariant
                i <= n,
                n == self.records.len(),
                names.deep_view() =~= record_keys(self.records_view()).take(i as int),
            decreases n - i,
        {
            let ghost predv = names.deep_view();
            push_name(&mut names, &self.records[i].name);
            proof {
                assert(self.records_view()[i as int] == (self.records@[i as int].name@,
                self.records@[i as int].fields.deep_view()));
                assert(record_keys(self.records_view())[i as int] == self.records_view()[
                    i as int
                ].0);
                assert(names.deep_view() == predv.push(self.records@[i as int].name@));
                assert(names.deep_view() =~= record_keys(self.records_view()).take(i + 1));
            }
            i += 1;
        }
        proof {
            assert(record_keys(self.records_view()).take(n as int) =~= record_keys(
                self.records_view(),
            ));
        }
        names
    }

    /// The recorded field names of a type, in sorted order; empty for an
    /// unknown type.
    pub fn fields_of(&self, tname: &str) -> (fields: Vec<String>)
        requires
            self.wf(),
        ensures
            fields.deep_view() == fields_of_rep(self.records_view(), tname@),
    {
        let ghost rv = self.records_view();
        let n = self.records.len();
        let mut i: usize = 0;
        while i < n
            invariant
                i <= n,
                n == self.records.len(),
                self.wf(),
                rv == self.records_view(),
                forall|j: int| 0 <= j < i ==> (#[trigger] rv[j]).0 != tname@,
            decreases n - i,
        {
            if str_eq(self.records[i].name.as_str(), tname) {
                proof {
                    assert(rv[i as int].0 == tname@);
                    lemma_fields_of_rep_at(rv, tname@, i as int);
                }
                return clone_names(&self.records[i].fields);
            }
            i += 1;
        }
        proof {
            assert(!has_type(rv, tname@));
            lemma_fields_of_rep_absent(rv, tname@);
            assert(fields_of_rep(rv, tname@) =~= Seq::<Seq<char>>::empty());
        }
        Vec::new()
    }
}

/// Well-formedness of the store, stated on its views: records strictly
/// sorted by type name with strictly sorted field lists, and headers
/// duplicate-free.
pub proof fn lemma_wf_views(c: LayoutFactsCollector)
    requires
        c.wf(),
    ensures
        rep_wf(c.records_view()),
        sorted_records(c.records_view()),
        forall|i: int, j: int|
            0 <= i < j < c.headers_view().len() ==> #[trigger] c.headers_view()[i]
                != #[trigger] c.headers_view()[j],
{
}

/// Appends a copy of one name, extending the view by it.
fn push_name(dst: &mut Vec<String>, s: &String)
    ensures
        final(dst).deep_view() == old(dst).deep_view().push(s@),
{
    dst.push(s.clone());
    proof {
        assert forall|k: int| 0 <= k < dst@.len() implies dst.deep_view()[k] == old(
            dst,
        ).deep_view().push(s@)[k] by {
            if k < old(dst)@.len() {
                assert(dst@[k] == old(dst)@[k]);
            } else {
                assert(dst@[k] == *s);
            }
        }
        assert(dst.deep_view() =~= old(dst).deep_view().push(s@));
    }
}

/// Clones a list of names, keeping its view.
fn clone_names(v: &Vec<String>) -> (r: Vec<String>)
    ensures
        r.deep_view() == v.deep_view(),
{
    let mut r: Vec<String> = Vec::new();
    let n = v.len();
    let mut i: usize = 0;
    while i < n
        invariant
            i <= n,
            n == v.len(),
            r.deep_view() =~= v.deep_view().take(i as int),
        decreases n - i,
    {
        let ghost predv = r.deep_view();
        push_name(&mut r, &v[i]);
        proof {
            assert(v.deep_view()[i as int] == v@[i as int]@);
            assert(r.deep_view() == predv.push(v@[i as int]@));
            assert(r.deep_view() =~= v.deep_view().take(i + 1));
        }
        i += 1;
    }
    proof {
        assert(v.deep_view().take(n as int) =~= v.deep_view());
    }
    r
}

/// The first position whose name does not precede the given one.
fn name_lower_bound(v: &Vec<String>, name: &str) -> (pos: usize)
    ensures
        pos <= v.deep_view().len(),
        forall|j: int| 0 <= j < pos ==> lex_lt(#[trigger] v.deep_view()[j], name@),
        pos < v.deep_view().len() ==> !lex_lt(v.deep_view()[pos as int], name@),
{
    let n = v.len();
    let mut pos: usize = 0;
    while pos < n
        invariant
            pos <= n,
            n == v.len(),
            forall|j: int| 0 <= j < pos ==> lex_lt(#[trigger] v.deep_view()[j], name@),
        decreases n - pos,
    {
        if !str_lex_lt(v[pos].as_str(), name) {
            return pos;
        }
        pos += 1;
    }
    pos
}

/// The first position whose record's type name does not precede the given
/// one.
fn record_lower_bound(recs: &Vec<TypeRecord>, name: &str) -> (pos: usize)
    ensures
        pos <= recs@.len(),
        forall|j: int| 0 <= j < pos ==> lex_lt((#[trigger] recs@[j]).name@, name@),
        pos < recs@.len() ==> !lex_lt(recs@[pos as int].name@, name@),
{
    let n = recs.len();
    let mut pos: usize = 0;
    while pos < n
        invariant
            pos <= n,
            n == recs@.len(),
            forall|j: int| 0 <= j < pos ==> lex_lt((#[trigger] recs@[j]).name@, name@),
        decreases n - pos,
    {
        if !str_lex_lt(recs[pos].name.as_str(), name) {
            return pos;
        }
        pos += 1;
    }
    pos
}

/// Inserts a name into a sorted list, keeping it sorted and duplicate-free.
fn insert_name_sorted(v: &mut Vec<String>, name: &str)
    requires
        strictly_sorted(old(v).deep_view()),
    ensures
        strictly_sorted(final(v).deep_view()),
        final(v).deep_view() == insert_name(old(v).deep_view(), name@),
{
    let ghost orig = v.deep_view();
    let n = v.len();
    let pos = name_lower_bound(v, name);
    proof {
        lemma_insert_name_split(orig, name@, pos as int);
        lemma_insert_name_sorted(orig, name@);
    }
    if pos < n && str_eq(v[pos].as_str(), name) {
        proof {
            assert(orig.skip(pos as int)[0] == orig[pos as int]);
            lemma_lex_lt_irreflexive(name@);
            assert(insert_name(orig.skip(pos as int), name@) == orig.skip(pos as int));
            assert(orig.take(pos as int) + orig.skip(pos as int) =~= orig);
        }
        return ;
    }
    proof {
        if pos < n {
            assert(!lex_lt(orig[pos as int], name@));
            assert(orig[pos as int] != name@);
            lemma_lex_ge_and_le(orig[pos as int], name@);
            assert(orig.skip(pos as int)[0] == orig[pos as int]);
        } else {
            assert(orig.skip(pos as int) =~= Seq::<Seq<char>>::empty());
        }
    }
    v.insert(pos, String::from_str(name));
    proof {
        assert(v.deep_view() =~= insert_name(orig, name@));
    }
}

} // verus!
