//! The look-ahead window filter.

use vstd::prelude::*;

use crate::date::Date;
use crate::record::{Record, RecordV};

verus! {

/// Whether `d` lies in the inclusive window `[today, today + days]`. Both
/// dates carry the same year — every birthdate was normalized to the year
/// of `today` — so their distance in days is the distance of their
/// ordinals. A birthdate earlier in the year than `today` computes as
/// negative and falls out of the window.
pub open spec fn spec_in_window(d: Date, today: Date, days: i64) -> bool {
    let diff = d.spec_day_of_year() - today.spec_day_of_year();
    0 <= diff && diff <= days
}

/// Whether the filter keeps a record: it must have a birthdate, and the
/// birthdate must lie in the window. Records without a birthdate are
/// silently dropped.
pub open spec fn spec_keep(r: RecordV, today: Date, days: i64) -> bool {
    match r.birthdate {
        Some(d) => spec_in_window(d, today, days),
        None => false,
    }
}

/// The records that the filter keeps, in their original order.
pub open spec fn spec_filter(s: Seq<RecordV>, today: Date, days: i64) -> Seq<RecordV>
    decreases s.len(),
{
    if s.len() == 0 {
        Seq::empty()
    } else {
        let rest = spec_filter(s.drop_first(), today, days);
        if spec_keep(s.first(), today, days) {
            seq![s.first()] + rest
        } else {
            rest
        }
    }
}

/// Filtering a sequence extended by one record filters the extension.
pub proof fn lemma_filter_snoc(s: Seq<RecordV>, x: RecordV, today: Date, days: i64)
    ensures
        spec_filter(s.push(x), today, days) == spec_filter(s, today, days) + (if spec_keep(
            x,
            today,
            days,
        ) {
            seq![x]
        } else {
            Seq::<RecordV>::empty()
        }),
    decreases s.len(),
{
    if s.len() == 0 {
        reveal_with_fuel(spec_filter, 2);
        assert(s.push(x).first() == x);
        assert(s.push(x).drop_first() =~= Seq::<RecordV>::empty());
        assert(seq![x] + Seq::<RecordV>::empty() =~= seq![x]);
        assert(spec_filter(s, today, days) + seq![x] =~= seq![x]);
        assert(spec_filter(s, today, days) + Seq::<RecordV>::empty() =~= Seq::<
            RecordV,
        >::empty());
    } else {
        lemma_filter_snoc(s.drop_first(), x, today, days);
        assert(s.push(x).drop_first() =~= s.drop_first().push(x));
        assert(s.push(x).first() == s.first());
        if spec_keep(s.first(), today, days) {
            assert(seq![s.first()] + (spec_filter(s.drop_first(), today, days) + (if spec_keep(
                x,
                today,
                days,
            ) {
                seq![x]
            } else {
                Seq::<RecordV>::empty()
            })) =~= (seq![s.first()] + spec_filter(s.drop_first(), today, days)) + (if spec_keep(
                x,
                today,
                days,
            ) {
                seq![x]
            } else {
                Seq::<RecordV>::empty()
            }));
        }
    }
}

/// Whether `d` lies in the inclusive window `[today, today + days]`.
pub fn in_window(d: &Date, today: &Date, days: i64) -> (r: bool)
    requires
        d.wf(),
        today.wf(),
    ensures
        r == spec_in_window(*d, *today, days),
{
    let diff: i64 = d.day_of_year() as i64 - today.day_of_year() as i64;
    0 <= diff && diff <= days
}

/// Keep the records whose birthdate falls within `days` days from `today`,
/// in their original order; drop the rest, the dateless ones among them.
pub fn filter_records(recs: Vec<Record>, today: &Date, days: i64) -> (r: Vec<Record>)
    requires
        today.wf(),
        forall|i: int| 0 <= i < recs@.len() ==> (#[trigger] recs@[i])@.wf(),
    ensures
        r.deep_view() == spec_filter(recs.deep_view(), *today, days),
        forall|i: int| 0 <= i < r@.len() ==> (#[trigger] r@[i])@.wf(),
{
    let ghost orig: Seq<RecordV> = recs.deep_view();
    let ghost mut j: int = 0;
    let mut input = recs;
    let mut out: Vec<Record> = Vec::new();
    proof {
        assert(orig.take(0) =~= Seq::<RecordV>::empty());
        assert(orig.skip(0) =~= orig);
    }
    while input.len() > 0
        invariant
            0 <= j <= orig.len(),
            today.wf(),
            forall|i: int| 0 <= i < orig.len() ==> (#[trigger] orig[i]).wf(),
            input.deep_view() == orig.skip(j),
            out.deep_view() == spec_filter(orig.take(j), *today, days),
            forall|i: int| 0 <= i < out@.len() ==> (#[trigger] out@[i])@.wf(),
        decreases input.len(),
    {
        proof {
            assert(input.deep_view().len() == input@.len());
        }
        let ghost prevv: Seq<Record> = input@;
        let ghost prevd: Seq<RecordV> = input.deep_view();
        let rec = input.remove(0);
        proof {
            assert(prevd.len() == orig.len() - j);
            assert(rec.deep_view() == prevd[0]);
            assert(prevd[0] == orig[j]);
            assert(input@ == prevv.remove(0));
            assert forall|i: int| 0 <= i < input.deep_view().len() implies input.deep_view()[i]
                == orig.skip(j + 1)[i] by {
                assert(input@[i] == prevv[i + 1]);
                assert(input.deep_view()[i] == prevv[i + 1].deep_view());
                assert(prevv[i + 1].deep_view() == prevd[i + 1]);
                assert(prevd[i + 1] == orig[j + 1 + i]);
            }
            assert(input.deep_view() =~= orig.skip(j + 1));
            assert(orig.take(j + 1) =~= orig.take(j).push(orig[j]));
            lemma_filter_snoc(orig.take(j), orig[j], *today, days);
        }
        let keep = match &rec.birthdate {
            Some(d) => in_window(d, today, days),
            None => false,
        };
        if keep {
            out.push(rec);
            proof {
                assert(out.deep_view() =~= spec_filter(orig.take(j + 1), *today, days));
            }
        } else {
            proof {
                assert(out.deep_view() =~= spec_filter(orig.take(j + 1), *today, days));
            }
        }
        proof {
            j = j + 1;
        }
    }
    proof {
        assert(orig.take(j) =~= orig);
    }
    out
}

} // verus!
