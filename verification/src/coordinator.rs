//! The per-batch delivery decision.
//!
//! For each accepted batch the coordinator decides, from the batch's event
//! source and whether a presentable window currently exists, whether the
//! host shell should push the batch to the attached UI listener and focus
//! the window, or whether the batch must wait in the pending buffer for the
//! UI's explicit pull.  A cold-start batch is always buffered — at that
//! point the listener may not be attached yet — so no batch is ever both
//! pushed and buffered, and none is dropped.

use vstd::prelude::*;

use crate::pending::PendingBuffer;
use crate::resolver::process_spec;

verus! {

/// The moment at which a batch of raw paths appeared.
pub enum EventSource {
    /// The primary process's own startup arguments, read once at setup.
    ColdStart,
    /// Arguments of a secondary launch, forwarded by the single-instance
    /// mechanism to the primary process.
    SecondaryForward,
    /// A platform open-document notification delivered to the already
    /// running process, outside the argument mechanism.
    OpenNotification,
}

/// What the host shell must do with a batch after the decision.
pub enum DeliveryAction {
    /// Emit the carried batch as a push notification to the UI listener
    /// and bring the window to the foreground.
    PushAndFocus(Vec<String>),
    /// The batch was appended to the pending buffer; the UI retrieves it
    /// through its pull query.
    Buffered,
    /// The batch was empty after filtering; nothing to deliver.
    NoAction,
}

/// The push branch is taken exactly when a presentable window exists and
/// the batch did not come from cold start.
pub open spec fn should_push(source: EventSource, window_present: bool) -> bool {
    window_present && source != EventSource::ColdStart
}

/// Decides delivery for one already-resolved batch and performs the
/// buffering half of that decision.
///
/// An empty batch causes no action.  A non-empty batch is pushed exactly
/// when [`should_push`] holds, and buffered otherwise; it is never both,
/// and never dropped.
pub fn deliver(
    buffer: &mut PendingBuffer,
    source: EventSource,
    window_present: bool,
    batch: Vec<String>,
) -> (action: DeliveryAction)
    ensures
        batch.deep_view().len() == 0 ==> action == DeliveryAction::NoAction && final(buffer)@
            == old(buffer)@,
        batch.deep_view().len() > 0 && should_push(source, window_present) ==> action
            == DeliveryAction::PushAndFocus(batch) && final(buffer)@ == old(buffer)@,
        batch.deep_view().len() > 0 && !should_push(source, window_present) ==> action
            == DeliveryAction::Buffered && final(buffer)@ == old(buffer)@ + batch.deep_view(),
{
    if batch.len() == 0 {
        return DeliveryAction::NoAction;
    }
    let push = window_present && match source {
        EventSource::ColdStart => false,
        EventSource::SecondaryForward => true,
        EventSource::OpenNotification => true,
    };
    if push {
        DeliveryAction::PushAndFocus(batch)
    } else {
        buffer.append(batch);
        DeliveryAction::Buffered
    }
}

/// The delivery decision for an accepted batch, as a relation between the
/// buffer contents before and after and the action handed to the host
/// shell: an empty batch changes nothing; otherwise the batch is pushed
/// exactly when [`should_push`] holds and buffered exactly otherwise —
/// never both, never dropped.
pub open spec fn delivered_correctly(
    accepted: Seq<Seq<char>>,
    source: EventSource,
    window_present: bool,
    buffer_before: Seq<Seq<char>>,
    buffer_after: Seq<Seq<char>>,
    action: DeliveryAction,
) -> bool {
    if accepted.len() == 0 {
        action == DeliveryAction::NoAction && buffer_after == buffer_before
    } else if should_push(source, window_present) {
        (action matches DeliveryAction::PushAndFocus(files) && files.deep_view() == accepted)
            && buffer_after == buffer_before
    } else {
        action == DeliveryAction::Buffered && buffer_after == buffer_before + accepted
    }
}

/// The whole funnel for one raw batch: resolve and filter the raw tokens,
/// then decide and perform delivery as [`deliver`] does for the accepted
/// batch.
pub fn handle_launch_event(
    buffer: &mut PendingBuffer,
    source: EventSource,
    window_present: bool,
    raw: Vec<String>,
) -> (action: DeliveryAction)
    ensures
        delivered_correctly(
            process_spec(raw.deep_view()),
            source,
            window_present,
            old(buffer)@,
            final(buffer)@,
            action,
        ),
{
    let files = crate::resolver::process_paths(raw);
    deliver(buffer, source, window_present, files)
}

} // verus!
