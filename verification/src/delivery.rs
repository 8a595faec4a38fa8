//! What is done with a vote that was admitted: its tower is stored, its transaction is sent to
//! the coming leaders, and the vote is published.
use crate::lockout::Slot;
use crate::transaction::Transaction;
use crate::vote_op::VoteOp;
use crate::voting_service::{VotingService, UPCOMING_LEADER_FANOUT_SLOTS};
use vstd::prelude::*;

verus! {

/// Why a vote cannot be sent.
#[derive(Debug)]
pub enum SendVoteError {
    /// The transaction has no wire form.
    BincodeError(bincode::Error),
    /// Neither the receiver nor the validator itself has an address.
    InvalidTpuAddress,
}

/// Where the delivery of an admitted vote stands. `A` is an address.
#[derive(Debug)]
pub enum DeliveryStage<A> {
    /// The vote was admitted; nothing has been done yet.
    Admitted,
    /// The tower was handed to the storage.
    StoringTower,
    /// The coming leaders are looked up.
    FindingLeaders,
    /// The vote was sent to a receiver. Those in `waiting` have not had their turn, where none
    /// stands for the validator itself.
    Sending { waiting: Vec<Option<A>> },
    /// Nothing is left to be done.
    Over,
}

/// What a [`DeliveryStage`] holds.
pub enum DeliveryModel<A> {
    Admitted,
    StoringTower,
    FindingLeaders,
    Sending { waiting: Seq<Option<A>> },
    Over,
}

impl<A> View for DeliveryStage<A> {
    type V = DeliveryModel<A>;

    open spec fn view(&self) -> DeliveryModel<A> {
        match self {
            DeliveryStage::Admitted => DeliveryModel::Admitted,
            DeliveryStage::StoringTower => DeliveryModel::StoringTower,
            DeliveryStage::FindingLeaders => DeliveryModel::FindingLeaders,
            DeliveryStage::Sending { waiting } => DeliveryModel::Sending { waiting: waiting@ },
            DeliveryStage::Over => DeliveryModel::Over,
        }
    }
}

/// What happened since the last action for an admitted vote.
#[derive(Debug)]
pub enum DeliveryEvent<A> {
    /// The vote was admitted.
    Admitted,
    /// The tower was handed to the storage, which took it or failed.
    TowerStored { stored: bool },
    /// The addresses of the coming leaders were looked up.
    LeadersFound { sockets: Vec<A> },
    /// The vote was sent to a receiver, or could not be.
    Sent { delivered: bool },
}

/// How a vote is made known to the cluster.
#[derive(Debug)]
pub enum Publication<'a> {
    /// As a new vote.
    PushVote { tower_slots: &'a Vec<Slot>, tx: &'a Transaction },
    /// As a vote that was made before.
    RefreshVote { tx: &'a Transaction, last_voted_slot: Slot },
}

/// What is to be done next for an admitted vote.
#[derive(Debug)]
pub enum DeliveryAction<'a, S, A> {
    /// Store the tower.
    StoreTower { saved_tower: &'a S },
    /// Look up the addresses of the leaders of this many coming slots.
    FindLeaders { fanout_slots: u64 },
    /// End the process with this code.
    Exit { code: i32 },
    /// Send the transaction to a receiver, where none stands for the validator itself.
    Send { tpu: Option<A>, tx: &'a Transaction },
    /// Publish the vote. This is the last action.
    Publish { publication: Publication<'a> },
}

impl<S> VoteOp<S> {
    /// The tower that is to be stored before the vote is sent.
    pub open spec fn tower_to_store(self) -> Option<S> {
        match self {
            VoteOp::PushVote { saved_tower, .. } => saved_tower,
            VoteOp::RefreshVote { .. } => None,
        }
    }

    /// Whether `publication` makes this vote known.
    pub open spec fn is_published_by(self, publication: Publication) -> bool {
        match self {
            VoteOp::PushVote { tx, tower_slots, .. } => publication matches Publication::PushVote {
                tower_slots: slots,
                tx: transaction,
            } && *slots == tower_slots && *transaction == tx,
            VoteOp::RefreshVote { tx, last_voted_slot } =>
                publication matches Publication::RefreshVote {
                tx: transaction,
                last_voted_slot: slot,
            } && *transaction == tx && slot == last_voted_slot,
        }
    }
}

/// Where a vote is sent: to each of the coming leaders, or to the validator itself if there are
/// none.
pub open spec fn receivers<A>(sockets: Seq<A>) -> Seq<Option<A>> {
    if sockets.len() == 0 {
        seq![None]
    } else {
        sockets.map_values(|socket: A| Some(socket))
    }
}

impl<A> DeliveryModel<A> {
    /// Whether `event` answers the last action.
    pub open spec fn awaits(self, event: DeliveryEvent<A>) -> bool {
        match self {
            DeliveryModel::Admitted => event is Admitted,
            DeliveryModel::StoringTower => event is TowerStored,
            DeliveryModel::FindingLeaders => event is LeadersFound,
            DeliveryModel::Sending { .. } => event is Sent,
            DeliveryModel::Over => false,
        }
    }
}

/// Whether `action` sends the transaction of `vote_op` to `receiver`.
pub open spec fn is_send_to<S, A>(
    vote_op: VoteOp<S>,
    receiver: Option<A>,
    action: DeliveryAction<S, A>,
) -> bool {
    action matches DeliveryAction::Send { tpu, tx } && tpu == receiver && *tx
        == vote_op.transaction()
}

/// Whether `action` sends `vote_op` to the first of `receivers`, and `next` leaves the others
/// waiting.
pub open spec fn is_send_to_first<S, A>(
    vote_op: VoteOp<S>,
    receivers: Seq<Option<A>>,
    next: DeliveryModel<A>,
    action: DeliveryAction<S, A>,
) -> bool {
    &&& is_send_to(vote_op, receivers[0], action)
    &&& next == (DeliveryModel::Sending { waiting: receivers.skip(1) })
}

/// Whether leaders are to be looked up, and that is what `next` waits for.
pub open spec fn is_lookup<S, A>(next: DeliveryModel<A>, action: DeliveryAction<S, A>) -> bool {
    &&& action matches DeliveryAction::FindLeaders { fanout_slots }
    &&& fanout_slots == UPCOMING_LEADER_FANOUT_SLOTS
    &&& next == DeliveryModel::<A>::FindingLeaders
}

/// Whether the delivery of `vote_op` goes from `stage`, upon `event`, to `next` with `action`.
/// Whether a send succeeded makes no difference.
pub open spec fn is_step<S, A>(
    vote_op: VoteOp<S>,
    stage: DeliveryModel<A>,
    event: DeliveryEvent<A>,
    next: DeliveryModel<A>,
    action: DeliveryAction<S, A>,
) -> bool {
    match (stage, event) {
        (DeliveryModel::Admitted, DeliveryEvent::Admitted) => match vote_op.tower_to_store() {
            Some(tower) => {
                &&& action matches DeliveryAction::StoreTower { saved_tower }
                &&& *saved_tower == tower
                &&& next == DeliveryModel::<A>::StoringTower
            },
            None => is_lookup(next, action),
        },
        (DeliveryModel::StoringTower, DeliveryEvent::TowerStored { stored }) => if stored {
            is_lookup(next, action)
        } else {
            &&& action matches DeliveryAction::Exit { code }
            &&& code == 1
            &&& next == DeliveryModel::<A>::Over
        },
        (DeliveryModel::FindingLeaders, DeliveryEvent::LeadersFound { sockets }) =>
            is_send_to_first(vote_op, receivers(sockets@), next, action),
        (DeliveryModel::Sending { waiting }, DeliveryEvent::Sent { .. }) => if waiting.len() > 0 {
            is_send_to_first(vote_op, waiting, next, action)
        } else {
            &&& action matches DeliveryAction::Publish { publication }
            &&& vote_op.is_published_by(publication)
            &&& next == DeliveryModel::<A>::Over
        },
        _ => false,
    }
}

impl<A> DeliveryStage<A> {
    /// Whether `event` answers the last action.
    pub fn awaits(&self, event: &DeliveryEvent<A>) -> (awaited: bool)
        ensures
            awaited == self@.awaits(*event),
    {
        match self {
            DeliveryStage::Admitted => matches!(event, DeliveryEvent::Admitted),
            DeliveryStage::StoringTower => matches!(event, DeliveryEvent::TowerStored { .. }),
            DeliveryStage::FindingLeaders => matches!(event, DeliveryEvent::LeadersFound { .. }),
            DeliveryStage::Sending { .. } => matches!(event, DeliveryEvent::Sent { .. }),
            DeliveryStage::Over => false,
        }
    }
}

impl VotingService {
    /// The next stage of the delivery of an admitted vote, and what is to be done: the tower is
    /// stored, the coming leaders are looked up, each receiver is sent the vote in turn whatever
    /// became of the sends before, and after the last of them the vote is published.
    pub fn handle_vote<S, A>(
        vote_op: &VoteOp<S>,
        stage: DeliveryStage<A>,
        event: DeliveryEvent<A>,
    ) -> (step: (DeliveryStage<A>, DeliveryAction<'_, S, A>))
        requires
            stage@.awaits(event),
        ensures
            is_step(*vote_op, stage@, event, step.0@, step.1),
    {
        match event {
            DeliveryEvent::Admitted => {
                if let VoteOp::PushVote { saved_tower: Some(saved_tower), .. } = vote_op {
                    return (
                        DeliveryStage::StoringTower,
                        DeliveryAction::StoreTower { saved_tower },
                    );
                }
                (
                    DeliveryStage::FindingLeaders,
                    DeliveryAction::FindLeaders { fanout_slots: UPCOMING_LEADER_FANOUT_SLOTS },
                )
            },
            DeliveryEvent::TowerStored { stored } => {
                if stored {
                    (
                        DeliveryStage::FindingLeaders,
                        DeliveryAction::FindLeaders { fanout_slots: UPCOMING_LEADER_FANOUT_SLOTS },
                    )
                } else {
                    (DeliveryStage::Over, DeliveryAction::Exit { code: 1 })
                }
            },
            DeliveryEvent::LeadersFound { sockets } => send_to_first(
                vote_op,
                receivers_of(sockets),
            ),
            DeliveryEvent::Sent { .. } => {
                if let DeliveryStage::Sending { waiting } = stage {
                    if waiting.len() > 0 {
                        return send_to_first(vote_op, waiting);
                    }
                }
                (DeliveryStage::Over, DeliveryAction::Publish { publication: published(vote_op) })
            },
        }
    }
}

/// Sends the vote to the first of `receivers` and leaves the others waiting.
fn send_to_first<S, A>(vote_op: &VoteOp<S>, receivers: Vec<Option<A>>) -> (step: (
    DeliveryStage<A>,
    DeliveryAction<'_, S, A>,
))
    requires
        receivers@.len() > 0,
    ensures
        is_send_to_first(*vote_op, receivers@, step.0@, step.1),
{
    let ghost all = receivers@;
    let mut waiting = receivers;
    let tpu = waiting.remove(0);
    assert(waiting@ =~= all.skip(1));
    (DeliveryStage::Sending { waiting }, DeliveryAction::Send { tpu, tx: vote_op.tx() })
}

/// How the vote is made known.
fn published<S>(vote_op: &VoteOp<S>) -> (publication: Publication<'_>)
    ensures
        vote_op.is_published_by(publication),
        vote_op is PushVote <==> publication is PushVote,
        vote_op is RefreshVote <==> publication is RefreshVote,
{
    match vote_op {
        VoteOp::PushVote { tx, tower_slots, .. } => Publication::PushVote { tower_slots, tx },
        VoteOp::RefreshVote { tx, last_voted_slot } => Publication::RefreshVote {
            tx,
            last_voted_slot: *last_voted_slot,
        },
    }
}

/// Where a vote is sent, given the addresses of the coming leaders.
fn receivers_of<A>(sockets: Vec<A>) -> (tpus: Vec<Option<A>>)
    ensures
        tpus@ == receivers(sockets@),
{
    let mut tpus: Vec<Option<A>> = Vec::new();
    if sockets.len() == 0 {
        tpus.push(None);
        assert(tpus@ =~= receivers(sockets@));
        return tpus;
    }
    let ghost all = sockets@;
    for socket in it: sockets
        invariant
            it.seq() == all,
            tpus@ == all.take(it.index() as int).map_values(|socket: A| Some(socket)),
    {
        tpus.push(Some(socket));
        assert(tpus@ =~= all.take(it.index() + 1).map_values(|socket: A| Some(socket)));
    }
    assert(all.take(all.len() as int) =~= all);
    tpus
}

/// The address a vote goes to and the bytes that are sent there: the given address or, without
/// one, the validator's own.
pub fn send_vote_transaction<A>(
    transaction: &Transaction,
    tpu: Option<A>,
    own_tpu: Option<A>,
) -> (packet: Result<(A, Vec<u8>), SendVoteError>)
    ensures
        packet matches Err(SendVoteError::InvalidTpuAddress) <==> tpu is None && own_tpu is None,
        packet matches Err(SendVoteError::BincodeError(_)) <==> (tpu is Some || own_tpu is Some)
            && !transaction@.fits_wire(),
        packet matches Ok((address, bytes)) ==> {
            &&& Some(address) == if tpu is Some {
                tpu
            } else {
                own_tpu
            }
            &&& bytes@ == crate::transaction::transaction_wire_form(transaction@)
        },
{
    let address = match tpu {
        Some(address) => address,
        None => match own_tpu {
            Some(address) => address,
            None => return Err(SendVoteError::InvalidTpuAddress),
        },
    };
    match transaction.serialize() {
        Ok(bytes) => Ok((address, bytes)),
        Err(error) => Err(SendVoteError::BincodeError(error)),
    }
}

} // verus!
