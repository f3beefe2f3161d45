//! Relaying a `Checkpoint` stream that a backend provides, and what the end of
//! the stream means for the accounting of its request.
//!
//! The backend ran the request as one opaque step, so its whole span counts as
//! the model's run.

use vstd::prelude::*;

use crate::checkpoint::{CheckpointResponse, CheckpointView};
use crate::metrics;
use crate::metrics::{InferenceMetrics, RegistryView, RequestTimer, TimerView};
use crate::number;
use crate::number::decimal_i64;
use crate::status::{Code, Status, StatusView};
use crate::text::cat2;

verus! {

/// An item of a stream as contracts see it.
pub open spec fn item_view(item: Result<CheckpointResponse, Status>) -> Result<
    CheckpointView,
    StatusView,
> {
    match item {
        Ok(response) => Ok(response@),
        Err(status) => Err(status@),
    }
}

/// What an item says of how the request went: nothing, unless it is the end of
/// the stream or an error.
pub open spec fn item_outcome(item: Result<CheckpointView, StatusView>) -> Option<
    Result<(), StatusView>,
> {
    match item {
        Err(status) => Some(Err(status)),
        Ok(response) => if !response.done {
            None
        } else if response.exit_code == 0 {
            Some(Ok(()))
        } else {
            Some(
                Err(
                    (
                        Code::Internal,
                        "model process exited with code "@ + number::decimal(
                            response.exit_code as int,
                        ),
                    ),
                ),
            )
        },
    }
}

/// The outcome after an item: what the item says, else what was known before.
pub open spec fn outcome_after(
    before: Option<Result<(), StatusView>>,
    item: Result<CheckpointView, StatusView>,
) -> Option<Result<(), StatusView>> {
    match item_outcome(item) {
        Some(outcome) => Some(outcome),
        None => before,
    }
}

/// The outcome of a client that stops reading.
pub open spec fn client_gone() -> StatusView {
    (Code::Cancelled, "client stopped reading the stream"@)
}

/// The outcome of a stream that ends without an end.
pub open spec fn no_result() -> StatusView {
    (Code::Internal, "checkpoint stream ended without a result"@)
}

/// The counters of the model after its stream ended with an outcome: a success
/// commits the whole span as the model's run; a failure is the model's unless
/// the client went away; a stream without a result fails with its own status.
pub open spec fn settled(
    timer: TimerView,
    models: RegistryView,
    outcome: Option<Result<(), StatusView>>,
    batch: u64,
    now: u128,
) -> RegistryView {
    let i = timer.model;
    let counters = models[i].1;
    match outcome {
        Some(Ok(_)) => {
            let ran = timer.after_execution(
                0,
                metrics::elapsed(timer.phase, now) as u128,
                batch,
                now,
            );
            metrics::with_counters(
                models,
                i,
                ran.committed(counters.without_pending(timer.pending), now),
            )
        },
        Some(Err(status)) => {
            let pinned = if status.0 != Code::Cancelled {
                timer.after_backend_failure()
            } else {
                timer
            };
            metrics::with_counters(models, i, timer.failed(counters, pinned.reason_for(status.0)))
        },
        None => metrics::with_counters(
            models,
            i,
            timer.failed(counters, timer.reason_for(no_result().0)),
        ),
    }
}

/// What is known of how a relayed request went.
#[derive(Debug)]
pub struct StreamRecord {
    outcome: Option<Result<(), Status>>,
}

impl View for StreamRecord {
    type V = Option<Result<(), StatusView>>;

    closed spec fn view(&self) -> Option<Result<(), StatusView>> {
        match self.outcome {
            None => None,
            Some(Ok(_)) => Some(Ok(())),
            Some(Err(status)) => Some(Err(status@)),
        }
    }
}

impl StreamRecord {
    /// Nothing is known yet.
    pub fn new() -> (r: StreamRecord)
        ensures
            r@ is None,
    {
        StreamRecord { outcome: None }
    }

    /// An item is about to be handed on.
    pub fn saw(&mut self, item: &Result<CheckpointResponse, Status>)
        ensures
            final(self)@ == outcome_after(old(self)@, item_view(*item)),
    {
        match item {
            Err(status) => {
                self.outcome = Some(Err(status.clone()));
            },
            Ok(response) => {
                if response.done {
                    if response.exit_code == 0 {
                        self.outcome = Some(Ok(()));
                    } else {
                        let code = decimal_i64(response.exit_code as i64);
                        self.outcome = Some(
                            Err(
                                Status::internal(
                                    cat2("model process exited with code ", code.as_str()),
                                ),
                            ),
                        );
                    }
                }
            },
        }
    }

    /// An item could not be handed on because the client is gone.
    pub fn client_left(&mut self)
        ensures
            final(self)@ == Some(Err::<(), StatusView>(client_gone())),
    {
        self.outcome = Some(
            Err(Status::cancelled("client stopped reading the stream".to_string())),
        );
    }

    /// Ends the accounting of the request when its stream has ended.
    pub fn settle(self, timer: RequestTimer, metrics: &mut InferenceMetrics, batch: u64, now: u128)
        requires
            timer.belongs_to(old(metrics)@),
        ensures
            final(metrics)@ == settled(timer@, old(metrics)@, self@, batch, now),
    {
        let ghost opened = timer@;
        let mut timer = timer;
        match self.outcome {
            Some(Ok(_)) => {
                let ran: u128 = timer.phase_elapsed(now);
                timer.executed(metrics, 0, ran, batch, now);
                timer.succeed(metrics, now);
                assert(metrics@ =~= settled(opened, old(metrics)@, self@, batch, now));
            },
            Some(Err(status)) => {
                if status.code != Code::Cancelled {
                    timer.backend_failed();
                }
                timer.fail(metrics, &status);
            },
            None => {
                timer.fail(
                    metrics,
                    &Status::internal("checkpoint stream ended without a result".to_string()),
                );
            },
        }
    }
}

} // verus!
