//! Taking buffered results out for storage, and putting them back when
//! storing fails.

use vstd::prelude::*;
use crate::domain::check::{CheckResult, CheckResultView, lemma_sort_views_commute, result_views};
use crate::sorting::{stable_sort, stable_sort_vec, lemma_stable_sort_props};
use crate::state::CheckResultBuffer;

verus! {

/// Takes every buffered result for storage, ordered by check time (equal
/// times keep their buffered order), so that later alert decisions see the
/// results in the order they happened. An empty buffer gives nothing.
pub fn take_for_flush(buffer: &mut CheckResultBuffer) -> (r: Option<Vec<CheckResult>>)
    ensures
        final(buffer)@ == Seq::<CheckResultView>::empty(),
        old(buffer)@.len() == 0 <==> r is None,
        r matches Some(v) ==> result_views(v@) == stable_sort(old(buffer)@),
{
    let results = buffer.drain_all();
    if results.len() == 0 {
        return None;
    }
    let sorted = stable_sort_vec(results);
    proof {
        lemma_sort_views_commute(results@);
    }
    Some(sorted)
}

/// When storing fails and the taken results are put back in front, nothing
/// is lost: the buffer then holds every result it held before the flush,
/// and every result appended while the flush ran.
pub proof fn lemma_failed_flush_loses_nothing(before: Seq<CheckResultView>, appended: Seq<CheckResultView>)
    ensures
        (stable_sort(before) + appended).to_multiset() == (before + appended).to_multiset(),
{
    lemma_stable_sort_props(before);
    vstd::seq_lib::lemma_multiset_commutative(stable_sort(before), appended);
    vstd::seq_lib::lemma_multiset_commutative(before, appended);
}

} // verus!
