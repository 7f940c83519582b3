//! Project management services whose tickets record spent time.

use vstd::prelude::*;

verus! {

/// A project management service whose tickets record the time spent on
/// them. Updating a ticket is a conversation with the service: the client
/// decides each request from what came back for the last one, and the caller
/// carries the requests out.
pub trait PmClient {
    /// Where an update of a ticket's spent time stands.
    type Progress;

    /// What the caller does next for such an update.
    type Action;

    /// What came back from the service for the last request.
    type Reply;

    /// Starts recording `time` as the time spent on the ticket `ticket_id`.
    fn set_spent_time(&self, ticket_id: &str, time: &str) -> (Self::Progress, Self::Action);

    /// The next step of recording `time` on the ticket `ticket_id`, given
    /// what came back for the last request.
    fn set_spent_time_step(
        &self,
        ticket_id: &str,
        time: &str,
        progress: Self::Progress,
        reply: &Self::Reply,
    ) -> (Self::Progress, Self::Action);
}

} // verus!
