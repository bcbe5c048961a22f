//! Sorting the surviving records by birthdate.

use vstd::multiset::Multiset;
use vstd::prelude::*;
use vstd::seq_lib::group_to_multiset_ensures;

use crate::record::{Record, RecordV};

verus! {

/// Sort key of a record: its birthdate's ordinal in the year. All records
/// share the year of "today", so ordinals order them chronologically. The
/// filter admits no dateless record to the sorter; one would sort first.
pub open spec fn spec_doy_key(r: RecordV) -> int {
    match r.birthdate {
        Some(d) => d.spec_day_of_year(),
        None => 0,
    }
}

/// Non-decreasing by birthdate.
pub open spec fn spec_sorted(s: Seq<RecordV>) -> bool {
    forall|i: int, j: int|
        0 <= i < j < s.len() ==> spec_doy_key(s[i]) <= spec_doy_key(s[j])
}

/// `x` placed behind every leading record whose key is at most `x`'s own:
/// into a sorted sequence this inserts `x` behind its equals, which keeps
/// the sort stable.
pub open spec fn spec_insert_sorted(x: RecordV, s: Seq<RecordV>) -> Seq<RecordV>
    decreases s.len(),
{
    if s.len() == 0 {
        seq![x]
    } else if spec_doy_key(s.first()) <= spec_doy_key(x) {
        seq![s.first()] + spec_insert_sorted(x, s.drop_first())
    } else {
        seq![x] + s
    }
}

/// The records in order of ascending birthdate, records of one date in
/// their original order: each record inserted, first to last, behind its
/// equals.
pub open spec fn spec_sort(s: Seq<RecordV>) -> Seq<RecordV>
    decreases s.len(),
{
    if s.len() == 0 {
        Seq::empty()
    } else {
        spec_insert_sorted(s.last(), spec_sort(s.drop_last()))
    }
}

/// Inserting `x` at the position bounding its leading lesser-or-equal keys
/// is what `spec_insert_sorted` does.
proof fn lemma_insert_sorted_at(x: RecordV, s: Seq<RecordV>, i: int)
    requires
        0 <= i <= s.len(),
        forall|k: int| 0 <= k < i ==> spec_doy_key(#[trigger] s[k]) <= spec_doy_key(x),
        i < s.len() ==> spec_doy_key(s[i]) > spec_doy_key(x),
    ensures
        spec_insert_sorted(x, s) == s.insert(i, x),
    decreases s.len(),
{
    if s.len() == 0 {
        assert(s.insert(0, x) =~= seq![x]);
    } else if i == 0 {
        assert(s.insert(0, x) =~= seq![x] + s);
    } else {
        lemma_insert_sorted_at(x, s.drop_first(), i - 1);
        assert(s.insert(i, x) =~= seq![s.first()] + s.drop_first().insert(i - 1, x));
    }
}

/// What inserting does to order and contents: a sorted sequence stays
/// sorted and gains exactly `x`.
proof fn lemma_insert_sorted_props(x: RecordV, s: Seq<RecordV>)
    requires
        spec_sorted(s),
    ensures
        spec_sorted(spec_insert_sorted(x, s)),
        spec_insert_sorted(x, s).to_multiset() == s.to_multiset().insert(x),
        spec_insert_sorted(x, s).len() == s.len() + 1,
    decreases s.len(),
{
    broadcast use group_to_multiset_ensures;

    if s.len() == 0 {
        assert(seq![x] =~= Seq::<RecordV>::empty().insert(0, x));
        assert(Seq::<RecordV>::empty().to_multiset() =~= Multiset::<RecordV>::empty());
    } else if spec_doy_key(s.first()) <= spec_doy_key(x) {
        let rest = s.drop_first();
        assert(spec_sorted(rest)) by {
            assert(forall|i: int, j: int|
                0 <= i < j < rest.len() ==> rest[i] == s[i + 1] && rest[j] == s[j + 1]);
        }
        lemma_insert_sorted_props(x, rest);
        let inner = spec_insert_sorted(x, rest);
        let r = seq![s.first()] + inner;
        assert(r =~= inner.insert(0, s.first()));
        assert(r.to_multiset() == inner.to_multiset().insert(s.first()));
        assert(s =~= rest.insert(0, s.first()));
        assert(s.to_multiset() == rest.to_multiset().insert(s.first()));
        assert(r.to_multiset() =~= s.to_multiset().insert(x));
        assert(spec_sorted(r)) by {
            assert(forall|j: int|
                0 <= j < inner.len() ==> inner.to_multiset().contains(#[trigger] inner[j]));
            assert(forall|j: int|
                0 <= j < inner.len() ==> spec_doy_key(s.first()) <= spec_doy_key(
                    #[trigger] inner[j],
                )) by {
                assert(forall|e: RecordV|
                    inner.to_multiset().contains(e) ==> rest.to_multiset().contains(e) || e
                        == x);
                assert(forall|e: RecordV|
                    rest.to_multiset().contains(e) ==> exists|k: int|
                        0 <= k < rest.len() && rest[k] == e);
            }
            assert(forall|i: int, j: int|
                0 < i < j < r.len() ==> r[i] == inner[i - 1] && r[j] == inner[j - 1]);
        }
    } else {
        let r = seq![x] + s;
        assert(r =~= s.insert(0, x));
        assert(r.to_multiset() == s.to_multiset().insert(x));
        assert(forall|i: int, j: int|
            0 < i < j < r.len() ==> r[i] == s[i - 1] && r[j] == s[j - 1]);
    }
}

/// Sorting neither loses, gains nor duplicates a record.
pub proof fn lemma_sort_permutes(s: Seq<RecordV>)
    ensures
        spec_sort(s).to_multiset() == s.to_multiset(),
        spec_sort(s).len() == s.len(),
    decreases s.len(),
{
    broadcast use group_to_multiset_ensures;

    if s.len() == 0 {
    } else {
        lemma_sort_permutes(s.drop_last());
        lemma_sort_sorted(s.drop_last());
        lemma_insert_sorted_props(s.last(), spec_sort(s.drop_last()));
        assert(s =~= s.drop_last().push(s.last()));
        assert(s.drop_last().push(s.last()).to_multiset() == s.drop_last().to_multiset().insert(
            s.last(),
        ));
    }
}

/// The sorted records are non-decreasing by birthdate.
pub proof fn lemma_sort_sorted(s: Seq<RecordV>)
    ensures
        spec_sorted(spec_sort(s)),
    decreases s.len(),
{
    if s.len() == 0 {
    } else {
        lemma_sort_sorted(s.drop_last());
        lemma_insert_sorted_props(s.last(), spec_sort(s.drop_last()));
    }
}

/// Sort key of a record.
fn doy_key(r: &Record) -> (k: u32)
    requires
        r@.wf(),
    ensures
        k as int == spec_doy_key(r@),
{
    match &r.birthdate {
        Some(d) => d.day_of_year(),
        None => 0,
    }
}

/// Where to insert a record with key `key`: behind every leading record
/// whose key is at most `key`.
fn insert_pos(out: &Vec<Record>, key: u32) -> (i: usize)
    requires
        forall|k: int| 0 <= k < out@.len() ==> (#[trigger] out@[k])@.wf(),
    ensures
        0 <= i <= out@.len(),
        forall|k: int|
            0 <= k < i ==> spec_doy_key(#[trigger] out.deep_view()[k]) <= key as int,
        i < out@.len() ==> spec_doy_key(out.deep_view()[i as int]) > key as int,
{
    let mut i: usize = 0;
    while i < out.len() && doy_key(&out[i]) <= key
        invariant
            0 <= i <= out@.len(),
            forall|k: int| 0 <= k < out@.len() ==> (#[trigger] out@[k])@.wf(),
            forall|k: int|
                0 <= k < i ==> spec_doy_key(#[trigger] out.deep_view()[k]) <= key as int,
        decreases out@.len() - i,
    {
        i = i + 1;
    }
    i
}

/// Sort the records by ascending birthdate; the sort is stable, records of
/// one date keep their relative order.
pub fn sort_records(recs: Vec<Record>) -> (r: Vec<Record>)
    requires
        forall|i: int| 0 <= i < recs@.len() ==> (#[trigger] recs@[i])@.wf(),
    ensures
        r.deep_view() == spec_sort(recs.deep_view()),
        forall|i: int| 0 <= i < r@.len() ==> (#[trigger] r@[i])@.wf(),
{
    let ghost orig: Seq<RecordV> = recs.deep_view();
    let ghost mut j: int = 0;
    let mut input = recs;
    let mut out: Vec<Record> = Vec::new();
    proof {
        assert(orig.take(0) =~= Seq::<RecordV>::empty());
        assert(orig.skip(0) =~= orig);
    }
    while input.len() > 0
        invariant
            0 <= j <= orig.len(),
            forall|i: int| 0 <= i < orig.len() ==> (#[trigger] orig[i]).wf(),
            input.deep_view() == orig.skip(j),
            out.deep_view() == spec_sort(orig.take(j)),
            forall|i: int| 0 <= i < out@.len() ==> (#[trigger] out@[i])@.wf(),
        decreases input.len(),
    {
        proof {
            assert(input.deep_view().len() == input@.len());
        }
        let ghost prevv: Seq<Record> = input@;
        let ghost prevd: Seq<RecordV> = input.deep_view();
        let rec = input.remove(0);
        proof {
            assert(prevd.len() == orig.len() - j);
            assert(rec.deep_view() == prevd[0]);
            assert(prevd[0] == orig[j]);
            assert(input@ == prevv.remove(0));
            assert forall|i: int| 0 <= i < input.deep_view().len() implies input.deep_view()[i]
                == orig.skip(j + 1)[i] by {
                assert(input@[i] == prevv[i + 1]);
                assert(input.deep_view()[i] == prevv[i + 1].deep_view());
                assert(prevv[i + 1].deep_view() == prevd[i + 1]);
                assert(prevd[i + 1] == orig[j + 1 + i]);
            }
            assert(input.deep_view() =~= orig.skip(j + 1));
            assert(orig.take(j + 1) =~= orig.take(j).push(orig[j]));
            assert(orig.take(j + 1).drop_last() =~= orig.take(j));
        }
        let key = doy_key(&rec);
        let i = insert_pos(&out, key);
        proof {
            lemma_insert_sorted_at(rec@, out.deep_view(), i as int);
        }
        out.insert(i, rec);
        proof {
            assert(out.deep_view() =~= spec_sort(orig.take(j)).insert(i as int, orig[j]));
            assert(out.deep_view() =~= spec_sort(orig.take(j + 1)));
            j = j + 1;
        }
    }
    proof {
        assert(orig.take(j) =~= orig);
    }
    out
}

} // verus!
