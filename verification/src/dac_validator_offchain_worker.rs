//! The DAC validator pallet: an offchain worker that, every
//! `ERA_IN_BLOCKS`-th block, compares the bytes CDN nodes report to have
//! sent with the bytes their clients report to have received over the
//! previous era, and records the verdict on chain.

use vstd::prelude::*;
pub use crate::aggregate::{BytesReceived, BytesSent, RedisFtAggregate};
pub use crate::chain::ValidationResult;
use crate::aggregate::validate;
use crate::chain::{append_validation_result, validation_record, DispatchError, Origin};
use crate::era::{era_at, is_validation_block, previous_era, ERA_DURATION_MS, ERA_IN_BLOCKS, TIME_START_MS};
use crate::query::{aggregate_query, bytes_received_field, bytes_received_query_url, bytes_sent_field, bytes_sent_query_url};

verus! {

/// The on-chain storage of the pallet: the verdicts recorded so far.
pub struct Pallet {
    validation_results: Vec<ValidationResult>,
}

impl Pallet {
    /// The stored validation results, oldest first.
    pub closed spec fn results(self) -> Seq<ValidationResult> {
        self.validation_results@
    }

    /// Empty storage, as at genesis.
    pub fn new() -> (r: Pallet)
        ensures
            r.results().len() == 0,
    {
        Pallet { validation_results: Vec::new() }
    }

    /// Storage as it was read from the chain.
    pub fn from_storage(validation_results: Vec<ValidationResult>) -> (r: Pallet)
        ensures
            r.results() == validation_results@,
    {
        Pallet { validation_results }
    }

    /// The storage, to be written back to the chain.
    pub fn into_storage(self) -> (r: Vec<ValidationResult>)
        ensures
            r@ == self.results(),
    {
        self.validation_results
    }

    /// The stored validation results, oldest first.
    pub fn validation_results(&self) -> (r: &Vec<ValidationResult>)
        ensures
            r@ == self.results(),
    {
        &self.validation_results
    }

    /// Records a validator's verdict on a CDN node for an era. The call must
    /// be signed; the signer is recorded as the author of the verdict.
    pub fn save_validated_data(
        &mut self,
        origin: Origin,
        val_res: bool,
        cdn_node_pub_key: String,
        era: String,
    ) -> (r: Result<(), DispatchError>)
        ensures
            match origin {
                Origin::Signed(signer) => {
                    &&& r is Ok
                    &&& final(self).results().len() == old(self).results().len() + 1
                    &&& final(self).results().take(old(self).results().len() as int)
                        == old(self).results()
                    &&& validation_record(
                        final(self).results().last(),
                        signer,
                        val_res,
                        cdn_node_pub_key@,
                        era@,
                    )
                },
                _ => r == Err::<(), DispatchError>(DispatchError::BadOrigin) && final(self).results()
                    == old(self).results(),
            },
    {
        append_validation_result(&mut self.validation_results, origin, val_res, cdn_node_pub_key, era)
    }
}

/// The group of the data provider's queries: per node public key.
pub open spec fn node_group() -> Seq<char> {
    "@nodePublicKey"@
}

/// The address of the query for the bytes that every node sent in `era`.
pub fn get_bytes_sent_query_url(era: u64) -> (r: String)
    ensures
        r@ == aggregate_query(era, node_group(), bytes_sent_field()),
{
    bytes_sent_query_url(era, "@nodePublicKey")
}

/// The address of the query for the bytes that clients received from every
/// node in `era`.
pub fn get_bytes_received_query_url(era: u64) -> (r: String)
    ensures
        r@ == aggregate_query(era, node_group(), bytes_received_field()),
{
    bytes_received_query_url(era, "@nodePublicKey")
}

/// The calls of the pallet that a signed transaction can carry.
pub enum Call {
    SaveValidatedData { val_res: bool, cdn_node_pub_key: String, era: String },
}

/// Why an offchain worker run failed.
#[derive(Clone, Copy, Debug, PartialEq, Eq, Structural)]
pub enum WorkerError {
    /// No account submitted the transaction, or its submission failed.
    SubmissionFailed,
}

impl WorkerError {
    /// The message the worker logs for this error.
    pub fn message(&self) -> (m: &'static str)
        ensures
            m@ == "Error while submitting save_validated_data TX"@,
    {
        "Error while submitting save_validated_data TX"
    }
}

/// Where an offchain worker run stands.
#[derive(Clone, Copy, Debug, PartialEq, Eq, Structural)]
pub enum WorkerPhase {
    AwaitingSigner,
    AwaitingClock,
    AwaitingData,
    AwaitingSubmission,
    Finished,
}

/// What an offchain worker run asks its host to do next.
pub enum WorkerAction {
    /// Look for a local account that can sign; report whether there is one.
    LookUpSigner,
    /// Read the offchain clock (Unix milliseconds).
    ReadClock,
    /// Fetch the bytes sent and received in `era` from the data provider,
    /// with the queries `get_bytes_sent_query_url(era)` and
    /// `get_bytes_received_query_url(era)`.
    FetchData { era: u64 },
    /// Submit `call` in a signed transaction; report the outcome.
    Submit { call: Call },
    /// The run is over, with this result.
    Stop { result: Result<(), WorkerError> },
}

/// The verdict a run records for the figures it fetched: whether the sums
/// agree, for the node and era that the sent figures name.
pub open spec fn verdict_call(call: Call, bytes_sent: BytesSent, bytes_received: BytesReceived) -> bool {
    call matches Call::SaveValidatedData { val_res, cdn_node_pub_key, era } && val_res == (
    bytes_sent.sum == bytes_received.sum) && cdn_node_pub_key@ == bytes_sent.node_public_key@
        && era@ == bytes_sent.era@
}

/// The verdict a run submits is true exactly when the node's clients
/// received as many bytes as the node sent: any difference, in either
/// direction, gives false. The call carries the node and era that the sent
/// figures name.
pub proof fn law_verdict_is_sum_equality(call: Call, bytes_sent: BytesSent, bytes_received: BytesReceived)
    requires
        verdict_call(call, bytes_sent, bytes_received),
    ensures
        call matches Call::SaveValidatedData { val_res, cdn_node_pub_key, era } && {
            &&& (val_res ==> bytes_sent.sum == bytes_received.sum)
            &&& (bytes_sent.sum < bytes_received.sum ==> !val_res)
            &&& (bytes_sent.sum > bytes_received.sum ==> !val_res)
            &&& (bytes_sent.sum == bytes_received.sum ==> val_res)
            &&& cdn_node_pub_key@ == bytes_sent.node_public_key@
            &&& era@ == bytes_sent.era@
        },
{
}

/// One run of the offchain worker for one block: on every
/// `ERA_IN_BLOCKS`-th block, a validator with a local signing account
/// fetches the traffic figures of the previous era and submits its verdict
/// in `save_validated_data`.
pub struct OffchainRun {
    phase: WorkerPhase,
}

impl OffchainRun {
    /// Where the run stands.
    pub closed spec fn phase(self) -> WorkerPhase {
        self.phase
    }

    /// Starts the run for block `block_number`: blocks that do not open a
    /// validation round end it at once, successfully.
    pub fn offchain_worker_main(block_number: u64) -> (r: (OffchainRun, WorkerAction))
        ensures
            block_number % (ERA_IN_BLOCKS as u64) == 0 ==> {
                &&& r.1 is LookUpSigner
                &&& r.0.phase() == WorkerPhase::AwaitingSigner
            },
            block_number % (ERA_IN_BLOCKS as u64) != 0 ==> {
                &&& r.1 == (WorkerAction::Stop { result: Ok(()) })
                &&& r.0.phase() == WorkerPhase::Finished
            },
    {
        if !is_validation_block(block_number) {
            return (OffchainRun { phase: WorkerPhase::Finished }, WorkerAction::Stop { result: Ok(()) });
        }
        (OffchainRun { phase: WorkerPhase::AwaitingSigner }, WorkerAction::LookUpSigner)
    }

    /// Whether a local account can sign. Without one the run ends
    /// successfully, doing nothing.
    pub fn on_signer(&mut self, available: bool) -> (a: WorkerAction)
        requires
            old(self).phase() == WorkerPhase::AwaitingSigner,
        ensures
            available ==> a is ReadClock && final(self).phase() == WorkerPhase::AwaitingClock,
            !available ==> a == (WorkerAction::Stop { result: Ok(()) }) && final(self).phase()
                == WorkerPhase::Finished,
    {
        if !available {
            self.phase = WorkerPhase::Finished;
            return WorkerAction::Stop { result: Ok(()) };
        }
        self.phase = WorkerPhase::AwaitingClock;
        WorkerAction::ReadClock
    }

    /// The clock reads `now_ms`: the run fetches the figures of the era
    /// before the current one.
    pub fn on_clock(&mut self, now_ms: u64) -> (a: WorkerAction)
        requires
            old(self).phase() == WorkerPhase::AwaitingClock,
            now_ms >= TIME_START_MS + ERA_DURATION_MS,
        ensures
            a matches WorkerAction::FetchData { era } && era == era_at(now_ms) - 1,
            final(self).phase() == WorkerPhase::AwaitingData,
    {
        let era = previous_era(now_ms);
        self.phase = WorkerPhase::AwaitingData;
        WorkerAction::FetchData { era }
    }

    /// The fetched figures: the run submits its verdict on them.
    pub fn on_data(&mut self, bytes_sent: BytesSent, bytes_received: BytesReceived) -> (a: WorkerAction)
        requires
            old(self).phase() == WorkerPhase::AwaitingData,
        ensures
            a matches WorkerAction::Submit { call } && verdict_call(call, bytes_sent, bytes_received),
            final(self).phase() == WorkerPhase::AwaitingSubmission,
    {
        let val_res = validate(&bytes_sent, &bytes_received);
        self.phase = WorkerPhase::AwaitingSubmission;
        WorkerAction::Submit {
            call: Call::SaveValidatedData {
                val_res,
                cdn_node_pub_key: bytes_sent.node_public_key,
                era: bytes_sent.era,
            },
        }
    }

    /// The submission's outcome: `None` when no account sent the
    /// transaction, else whether sending it succeeded. Only a successful
    /// submission ends the run successfully.
    pub fn on_submitted(&mut self, outcome: Option<Result<(), ()>>) -> (a: WorkerAction)
        requires
            old(self).phase() == WorkerPhase::AwaitingSubmission,
        ensures
            outcome matches Some(Ok(_)) ==> a == (WorkerAction::Stop { result: Ok(()) }),
            !(outcome matches Some(Ok(_))) ==> a == (WorkerAction::Stop {
                result: Err(WorkerError::SubmissionFailed),
            }),
            final(self).phase() == WorkerPhase::Finished,
    {
        self.phase = WorkerPhase::Finished;
        match outcome {
            Some(Ok(_)) => WorkerAction::Stop { result: Ok(()) },
            _ => WorkerAction::Stop { result: Err(WorkerError::SubmissionFailed) },
        }
    }
}

} // verus!
