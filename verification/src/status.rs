//! The status of the network, how it is kept up to date, and the
//! configuration that clients ask for.

use vstd::prelude::*;

verus! {

/// What is known of the network as a whole.
#[derive(Clone, Copy, Debug, PartialEq, Eq)]
pub struct NetworkStatus {
    pub next_block_at_max: Option<u64>,
    pub last_committed: u32,
    pub last_verified: u32,
    pub total_transactions: u32,
    pub outstanding_txs: u32,
}

impl Default for NetworkStatus {
    /// The status before the storage was first asked.
    fn default() -> (status: NetworkStatus)
        ensures
            status == (NetworkStatus {
                next_block_at_max: None,
                last_committed: 0,
                last_verified: 0,
                total_transactions: 0,
                outstanding_txs: 0,
            }),
    {
        NetworkStatus {
            next_block_at_max: None,
            last_committed: 0,
            last_verified: 0,
            total_transactions: 0,
            outstanding_txs: 0,
        }
    }
}

/// Replies with the status of the network as it was last published.
pub fn handle_get_network_status(network_status: &NetworkStatus) -> (reply: NetworkStatus)
    ensures
        reply == *network_status,
{
    *network_status
}

/// The configuration of the network.
#[derive(Debug, PartialEq, Eq)]
pub struct TestnetConfigResponse {
    pub contract_address: String,
}

/// Replies with the address of the contract.
pub fn handle_get_testnet_config(contract_address: &String) -> (reply: TestnetConfigResponse)
    ensures
        reply.contract_address@ == contract_address@,
{
    TestnetConfigResponse { contract_address: contract_address.clone() }
}

/// What the updater of the network status does next.
#[derive(Clone, Copy, Debug, PartialEq, Eq)]
pub enum UpdaterStep {
    /// Wait for the next tick of the timer.
    Wait,
    /// Open the storage.
    OpenStorage,
    /// Ask for the last verified block.
    AskLastVerified,
    /// Ask for the last committed block.
    AskLastCommitted { last_verified: u32 },
    /// Ask for the number of all transactions.
    AskTotalTransactions { last_verified: u32, last_committed: u32 },
    /// Ask for the number of proofs that are outstanding after
    /// `last_verified`.
    AskOutstandingProofs { last_verified: u32, last_committed: u32, total_transactions: u32 },
    /// Publish the status.
    Publish { status: NetworkStatus },
    /// Give up: there is no storage.
    GiveUp,
}

/// What came of a step.
#[derive(Clone, Copy, Debug, PartialEq, Eq)]
pub enum UpdaterEvent {
    /// The timer ticked, or the status was published.
    Done,
    /// Whether the storage could be opened.
    Opened(bool),
    /// The answer to a question, or nothing if the query failed.
    Answered(Option<u32>),
}

/// The number that an answer gives; a failed query counts as zero.
pub open spec fn or_zero(answer: Option<u32>) -> u32 {
    match answer {
        Some(number) => number,
        None => 0,
    }
}

impl UpdaterStep {
    /// Whether `event` can come of this step.
    pub open spec fn expects(self, event: UpdaterEvent) -> bool {
        match self {
            UpdaterStep::Wait | UpdaterStep::Publish { .. } => event is Done,
            UpdaterStep::OpenStorage => event is Opened,
            UpdaterStep::GiveUp => false,
            _ => event is Answered,
        }
    }

    /// The step that follows. The four questions are asked in turn, each with
    /// what the earlier ones gave, and what they gave together is published.
    pub open spec fn after(self, event: UpdaterEvent) -> UpdaterStep {
        let answer = or_zero(event->Answered_0);
        match self {
            UpdaterStep::Wait => UpdaterStep::OpenStorage,
            UpdaterStep::OpenStorage => if event->Opened_0 {
                UpdaterStep::AskLastVerified
            } else {
                UpdaterStep::GiveUp
            },
            UpdaterStep::AskLastVerified => UpdaterStep::AskLastCommitted {
                last_verified: answer,
            },
            UpdaterStep::AskLastCommitted { last_verified } => UpdaterStep::AskTotalTransactions {
                last_verified,
                last_committed: answer,
            },
            UpdaterStep::AskTotalTransactions {
                last_verified,
                last_committed,
            } => UpdaterStep::AskOutstandingProofs {
                last_verified,
                last_committed,
                total_transactions: answer,
            },
            UpdaterStep::AskOutstandingProofs {
                last_verified,
                last_committed,
                total_transactions,
            } => UpdaterStep::Publish {
                status: NetworkStatus {
                    next_block_at_max: None,
                    last_committed,
                    last_verified,
                    total_transactions,
                    outstanding_txs: answer,
                },
            },
            UpdaterStep::Publish { .. } => UpdaterStep::Wait,
            UpdaterStep::GiveUp => UpdaterStep::GiveUp,
        }
    }

    /// Says what the updater does next, given what came of this step.
    pub fn next(self, event: UpdaterEvent) -> (step: UpdaterStep)
        requires
            self.expects(event),
        ensures
            step == self.after(event),
    {
        let answer: u32 = match event {
            UpdaterEvent::Answered(Some(number)) => number,
            _ => 0,
        };
        match self {
            UpdaterStep::Wait => UpdaterStep::OpenStorage,
            UpdaterStep::OpenStorage => match event {
                UpdaterEvent::Opened(true) => UpdaterStep::AskLastVerified,
                _ => UpdaterStep::GiveUp,
            },
            UpdaterStep::AskLastVerified => UpdaterStep::AskLastCommitted {
                last_verified: answer,
            },
            UpdaterStep::AskLastCommitted { last_verified } => UpdaterStep::AskTotalTransactions {
                last_verified,
                last_committed: answer,
            },
            UpdaterStep::AskTotalTransactions {
                last_verified,
                last_committed,
            } => UpdaterStep::AskOutstandingProofs {
                last_verified,
                last_committed,
                total_transactions: answer,
            },
            UpdaterStep::AskOutstandingProofs {
                last_verified,
                last_committed,
                total_transactions,
            } => UpdaterStep::Publish {
                status: NetworkStatus {
                    next_block_at_max: None,
                    last_committed,
                    last_verified,
                    total_transactions,
                    outstanding_txs: answer,
                },
            },
            UpdaterStep::Publish { .. } => UpdaterStep::Wait,
            UpdaterStep::GiveUp => UpdaterStep::GiveUp,
        }
    }
}

/// The step that `events` lead to, one after the other.
pub open spec fn run(step: UpdaterStep, events: Seq<UpdaterEvent>) -> UpdaterStep
    decreases events.len(),
{
    if events.len() == 0 {
        step
    } else {
        run(step, events.drop_last()).after(events.last())
    }
}

/// Each tick leads to one published status, made of the four answers, where
/// each failed query counts as zero; the outstanding proofs are asked for with
/// the very block that is published as the last verified one. Then the updater
/// waits again.
pub proof fn law_each_tick_publishes_the_answers(
    verified: Option<u32>,
    committed: Option<u32>,
    transactions: Option<u32>,
    outstanding: Option<u32>,
)
    ensures
        ({
            let asked = seq![
                UpdaterEvent::Done,
                UpdaterEvent::Opened(true),
                UpdaterEvent::Answered(verified),
                UpdaterEvent::Answered(committed),
                UpdaterEvent::Answered(transactions),
            ];
            let status = NetworkStatus {
                next_block_at_max: None,
                last_committed: or_zero(committed),
                last_verified: or_zero(verified),
                total_transactions: or_zero(transactions),
                outstanding_txs: or_zero(outstanding),
            };
            let answered = asked.push(UpdaterEvent::Answered(outstanding));
            &&& run(UpdaterStep::Wait, asked) matches UpdaterStep::AskOutstandingProofs {
                last_verified,
                ..
            } && last_verified == status.last_verified
            &&& run(UpdaterStep::Wait, answered) == (UpdaterStep::Publish { status })
            &&& run(UpdaterStep::Wait, answered.push(UpdaterEvent::Done)) == UpdaterStep::Wait
        }),
{
    let tick = seq![UpdaterEvent::Done];
    let opened = tick.push(UpdaterEvent::Opened(true));
    let first = opened.push(UpdaterEvent::Answered(verified));
    let second = first.push(UpdaterEvent::Answered(committed));
    let third = second.push(UpdaterEvent::Answered(transactions));
    let fourth = third.push(UpdaterEvent::Answered(outstanding));
    let last = fourth.push(UpdaterEvent::Done);
    let asked = seq![
        UpdaterEvent::Done,
        UpdaterEvent::Opened(true),
        UpdaterEvent::Answered(verified),
        UpdaterEvent::Answered(committed),
        UpdaterEvent::Answered(transactions),
    ];
    assert(third =~= asked);
    assert(tick.drop_last() =~= Seq::empty());
    assert(opened.drop_last() =~= tick);
    assert(first.drop_last() =~= opened);
    assert(second.drop_last() =~= first);
    assert(third.drop_last() =~= second);
    assert(fourth.drop_last() =~= third);
    assert(last.drop_last() =~= fourth);
    reveal_with_fuel(run, 2);
    assert(run(UpdaterStep::Wait, tick) == UpdaterStep::OpenStorage);
    assert(run(UpdaterStep::Wait, opened) == UpdaterStep::AskLastVerified);
    assert(run(UpdaterStep::Wait, first) is AskLastCommitted);
    assert(run(UpdaterStep::Wait, second) is AskTotalTransactions);
    assert(run(UpdaterStep::Wait, third) is AskOutstandingProofs);
    assert(run(UpdaterStep::Wait, fourth) is Publish);
}

/// Without a storage the updater gives up, and nothing is published.
pub proof fn law_no_storage_ends_the_updater(event: UpdaterEvent)
    requires
        UpdaterStep::OpenStorage.expects(event),
    ensures
        UpdaterStep::OpenStorage.after(event) == UpdaterStep::GiveUp <==> event
            == UpdaterEvent::Opened(false),
        forall|later: UpdaterEvent| !UpdaterStep::GiveUp.expects(later),
{
}

/// What the storage answers at a tick is published as it was answered, each
/// number in its own place; a question that failed counts as zero. The
/// outstanding proofs are asked for with the verified block that was answered.
pub proof fn law_answers_are_published_unchanged(
    verified: Option<u32>,
    committed: Option<u32>,
    transactions: Option<u32>,
    outstanding: Option<u32>,
    steps: Seq<UpdaterStep>,
)
    requires
        steps.len() == 8,
        steps[0] == UpdaterStep::Wait,
        call_ensures(UpdaterStep::next, (steps[0], UpdaterEvent::Done), steps[1]),
        call_ensures(UpdaterStep::next, (steps[1], UpdaterEvent::Opened(true)), steps[2]),
        call_ensures(UpdaterStep::next, (steps[2], UpdaterEvent::Answered(verified)), steps[3]),
        call_ensures(UpdaterStep::next, (steps[3], UpdaterEvent::Answered(committed)), steps[4]),
        call_ensures(UpdaterStep::next, (steps[4], UpdaterEvent::Answered(transactions)), steps[5]),
        call_ensures(UpdaterStep::next, (steps[5], UpdaterEvent::Answered(outstanding)), steps[6]),
        call_ensures(UpdaterStep::next, (steps[6], UpdaterEvent::Done), steps[7]),
    ensures
        steps[1] is OpenStorage,
        steps[2] is AskLastVerified,
        steps[3] is AskLastCommitted,
        steps[4] is AskTotalTransactions,
        steps[5] matches UpdaterStep::AskOutstandingProofs { last_verified, .. } && {
            &&& verified matches Some(number) ==> last_verified == number
            &&& verified is None ==> last_verified == 0
        },
        steps[6] matches UpdaterStep::Publish { status } && {
            &&& status.next_block_at_max is None
            &&& verified matches Some(number) ==> status.last_verified == number
            &&& verified is None ==> status.last_verified == 0
            &&& committed matches Some(number) ==> status.last_committed == number
            &&& committed is None ==> status.last_committed == 0
            &&& transactions matches Some(number) ==> status.total_transactions == number
            &&& transactions is None ==> status.total_transactions == 0
            &&& outstanding matches Some(number) ==> status.outstanding_txs == number
            &&& outstanding is None ==> status.outstanding_txs == 0
        },
        steps[7] is Wait,
{
}

/// The updater opens the storage at each tick, asks once it is open, and waits
/// again once a status is published. Each step takes what comes of it.
pub proof fn law_updater_goes_round(status: NetworkStatus, answer: Option<u32>, step: UpdaterStep)
    ensures
        UpdaterStep::Wait.after(UpdaterEvent::Done) == UpdaterStep::OpenStorage,
        UpdaterStep::OpenStorage.after(UpdaterEvent::Opened(true)) == UpdaterStep::AskLastVerified,
        UpdaterStep::OpenStorage.after(UpdaterEvent::Opened(false)) == UpdaterStep::GiveUp,
        (UpdaterStep::Publish { status }).after(UpdaterEvent::Done) == UpdaterStep::Wait,
        step.expects(UpdaterEvent::Done) <==> step is Wait || step is Publish,
        step.expects(UpdaterEvent::Opened(true)) <==> step is OpenStorage,
        step.expects(UpdaterEvent::Opened(false)) <==> step is OpenStorage,
        step.expects(UpdaterEvent::Answered(answer)) <==> step is AskLastVerified
            || step is AskLastCommitted || step is AskTotalTransactions
            || step is AskOutstandingProofs,
{
}

} // verus!
