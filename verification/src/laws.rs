//! The laws of the dialog core, stated over the step relations that the
//! executable functions establish in their contracts: the CSeq discipline,
//! the stability of the to-tag, and the ordering between the observation
//! log and the stored state.
use vstd::prelude::*;

use crate::dialog::{
    effective_cseq, inner_wf, is_side_channel, transition_effect, DialogInnerView,
    DialogStateView,
};

verus! {

/// One emission of a locally originated CSeq, as the builders perform it:
/// an ordinary request advances the counter and carries its new value; a
/// CANCEL carries the counter as it stands and leaves it there.
pub ghost enum SeqEvent {
    Emit(u32),
    CancelEmit(u32),
}

pub open spec fn seq_step(pre: u32, ev: SeqEvent, post: u32) -> bool {
    match ev {
        SeqEvent::Emit(n) => n == pre + 1 && post == n,
        SeqEvent::CancelEmit(n) => n == pre && post == pre,
    }
}

/// `make_request` without a caller-supplied CSeq performs an `Emit` step
/// on the local counter.
pub proof fn lemma_make_request_emits(pre: DialogInnerView, post: DialogInnerView)
    requires
        pre.local_seq < u32::MAX,
        post == (DialogInnerView { local_seq: effective_cseq(pre, None), ..pre }),
    ensures
        seq_step(pre.local_seq, SeqEvent::Emit(effective_cseq(pre, None)), post.local_seq),
{
}

/// `cancel` performs a `CancelEmit` step: it reads the counter and leaves
/// the record untouched.
pub proof fn lemma_cancel_emits(d: DialogInnerView)
    ensures
        seq_step(d.local_seq, SeqEvent::CancelEmit(d.local_seq), d.local_seq),
{
}

/// The local counter never moves backwards along a run of emissions.
pub proof fn lemma_counters_monotone(counters: Seq<u32>, events: Seq<SeqEvent>, i: int, j: int)
    requires
        counters.len() == events.len() + 1,
        forall|k: int| 0 <= k < events.len() ==> seq_step(
            counters[k],
            #[trigger] events[k],
            counters[k + 1],
        ),
        0 <= i <= j < counters.len(),
    ensures
        counters[i] <= counters[j],
    decreases j - i,
{
    if i < j {
        lemma_counters_monotone(counters, events, i, j - 1);
        assert(seq_step(counters[j - 1], events[j - 1], counters[j]));
    }
}

/// Along any run of emissions, the CSeq values handed to ordinary requests
/// are strictly increasing, and every CANCEL reuses the counter as it
/// stands instead of advancing it.
pub proof fn law_local_seq_strictly_increasing(counters: Seq<u32>, events: Seq<SeqEvent>)
    requires
        counters.len() == events.len() + 1,
        forall|k: int| 0 <= k < events.len() ==> seq_step(
            counters[k],
            #[trigger] events[k],
            counters[k + 1],
        ),
    ensures
        forall|i: int, j: int|
            0 <= i < j < events.len() && (#[trigger] events[i]) is Emit && (
            #[trigger] events[j]) is Emit ==> events[i]->Emit_0 < events[j]->Emit_0,
        forall|i: int|
            0 <= i < events.len() && (#[trigger] events[i]) is CancelEmit
                ==> events[i]->CancelEmit_0 == counters[i],
{
    assert forall|i: int, j: int|
        0 <= i < j < events.len() && (#[trigger] events[i]) is Emit && (
        #[trigger] events[j]) is Emit implies events[i]->Emit_0 < events[j]->Emit_0 by {
        assert(seq_step(counters[i], events[i], counters[i + 1]));
        assert(seq_step(counters[j], events[j], counters[j + 1]));
        lemma_counters_monotone(counters, events, i + 1, j);
    }
}

/// A step of a dialog run never clears or replaces a to-tag that is
/// already set.
pub open spec fn tag_step(pre: DialogInnerView, post: DialogInnerView) -> bool {
    pre.id.to_tag.len() > 0 ==> post.id.to_tag == pre.id.to_tag
}

/// Every transition is a `tag_step`: it changes only the stored state and
/// the observation log.
pub proof fn lemma_transition_is_tag_step(
    pre: DialogInnerView,
    ev: DialogStateView,
    post: DialogInnerView,
)
    requires
        transition_effect(pre, ev, post),
    ensures
        post.id == pre.id,
        tag_step(pre, post),
{
}

/// The to-tag changes at most once in a dialog's lifetime: along any run
/// of `tag_step`s, a record whose tag is non-empty fixes the tag of every
/// later record.
pub proof fn law_to_tag_changes_at_most_once(trace: Seq<DialogInnerView>)
    requires
        forall|k: int| 0 <= k < trace.len() - 1 ==> tag_step(
            #[trigger] trace[k],
            trace[k + 1],
        ),
    ensures
        forall|i: int, j: int|
            0 <= i <= j < trace.len() && (#[trigger] trace[i]).id.to_tag.len() > 0 ==> (
            #[trigger] trace[j]).id.to_tag == trace[i].id.to_tag,
{
    assert forall|i: int, j: int|
        0 <= i <= j < trace.len() && (#[trigger] trace[i]).id.to_tag.len() > 0 implies (
    #[trigger] trace[j]).id.to_tag == trace[i].id.to_tag by {
        lemma_tag_fixed_from(trace, i, j);
    }
}

proof fn lemma_tag_fixed_from(trace: Seq<DialogInnerView>, i: int, j: int)
    requires
        forall|k: int| 0 <= k < trace.len() - 1 ==> tag_step(
            #[trigger] trace[k],
            trace[k + 1],
        ),
        0 <= i <= j < trace.len(),
        trace[i].id.to_tag.len() > 0,
    ensures
        trace[j].id.to_tag == trace[i].id.to_tag,
    decreases j - i,
{
    if i < j {
        lemma_tag_fixed_from(trace, i, j - 1);
        assert(tag_step(trace[j - 1], trace[j]));
    }
}

/// Every stored state change is published first: when a transition
/// replaces the stored state, the event was appended to the observation
/// log in the same step, and the new stored state is exactly that last
/// observation.
pub proof fn law_observed_before_stored(
    pre: DialogInnerView,
    ev: DialogStateView,
    post: DialogInnerView,
)
    requires
        transition_effect(pre, ev, post),
    ensures
        post.state != pre.state ==> post.observations.len() == pre.observations.len() + 1
            && post.observations.last() == post.state,
{
}

/// A side-channel event (`Info`, `Notify`, `Updated`) is published and
/// nothing more: the stored state and every other field stay what they
/// were.
pub proof fn law_side_channel_keeps_state(
    pre: DialogInnerView,
    ev: DialogStateView,
    post: DialogInnerView,
)
    requires
        transition_effect(pre, ev, post),
        is_side_channel(ev),
    ensures
        post.state == pre.state,
        post.observations == pre.observations.push(ev),
        post.id == pre.id,
        post.local_seq == pre.local_seq,
        post.remote_seq == pre.remote_seq,
{
}

/// After a `Terminated` observation, a well-formed record never publishes
/// `Trying`, `Early` or `Confirmed` again; `new` establishes
/// well-formedness and every transition preserves it.
pub proof fn law_no_revival_after_termination(d: DialogInnerView)
    requires
        inner_wf(d),
    ensures
        forall|i: int, j: int|
            0 <= i < j < d.observations.len() && (#[trigger] d.observations[i]) is Terminated ==> !((
            #[trigger] d.observations[j]) is Confirmed || d.observations[j] is Early
                || d.observations[j] is Trying),
{
    assert forall|i: int, j: int|
        0 <= i < j < d.observations.len() && (#[trigger] d.observations[i]) is Terminated implies !((
    #[trigger] d.observations[j]) is Confirmed || d.observations[j] is Early
        || d.observations[j] is Trying) by {
        assert(!crate::dialog::is_reviving(d.observations[j]));
    }
}

} // verus!

