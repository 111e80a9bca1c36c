//! Generation of proposals: at most one per round.
use vstd::prelude::*;
use crate::common::{Author, HashValue, Round};
use crate::block::Block;
use crate::block_store::BlockStore;

verus! {

/// Why no proposal was generated.
#[derive(Clone, Copy, Debug, PartialEq, Eq, Structural)]
pub enum ProposalGenerationError {
    /// A proposal was already generated in this round or a later one.
    AlreadyProposed { round: Round, last_round_generated: Round },
}

/// Builds proposals that extend the highest certified block, never two for
/// the same round.
pub struct ProposalGenerator {
    /// Last round that a proposal was generated.
    last_round_generated: Round,
}

/// The block proposed at `round` on top of the highest certified block of `store`.
pub open spec fn proposal_block(
    store: BlockStore,
    round: Round,
    block_id: HashValue,
    timestamp_usecs: u64,
    author: Author,
) -> Block {
    let parent = store.tree().highest_certified();
    Block {
        id: block_id,
        parent_id: parent.id,
        round,
        height: (parent.height + 1) as u64,
        timestamp_usecs,
        quorum_cert: store.tree().highest_qc(),
        author,
    }
}

impl ProposalGenerator {
    pub closed spec fn last_round(&self) -> Round {
        self.last_round_generated
    }

    pub fn new(last_round_generated: Round) -> (g: Self)
        ensures
            g.last_round() == last_round_generated,
    {
        ProposalGenerator { last_round_generated }
    }

    /// The last round a proposal was generated for.
    pub fn last_round_generated(&self) -> (r: Round)
        ensures
            r == self.last_round(),
    {
        self.last_round_generated
    }

    /// Generates the proposal of `round`, extending the highest certified block
    /// with its certificate, if no proposal was generated for this round or a
    /// later one.  `block_id` is the digest the caller's hashing assigns to the
    /// new block; the payload stays with the caller.
    pub fn generate_proposal(
        &mut self,
        round: Round,
        block_store: &BlockStore,
        block_id: HashValue,
        timestamp_usecs: u64,
        author: Author,
    ) -> (r: Result<Block, ProposalGenerationError>)
        requires
            block_store.wf(),
            block_store.tree().highest_certified().height < u64::MAX,
        ensures
            final(self).last_round() == last_round_after(old(self).last_round(), round),
            !generates(old(self).last_round(), round) ==> *final(self) == *old(self) && r == Err::<Block, ProposalGenerationError>(
                ProposalGenerationError::AlreadyProposed {
                    round,
                    last_round_generated: old(self).last_round(),
                },
            ),
            generates(old(self).last_round(), round) ==> r == Ok::<
                Block,
                ProposalGenerationError,
            >(proposal_block(*block_store, round, block_id, timestamp_usecs, author)),
    {
        if self.last_round_generated < round {
            self.last_round_generated = round;
        } else {
            return Err(
                ProposalGenerationError::AlreadyProposed {
                    round,
                    last_round_generated: self.last_round_generated,
                },
            );
        }
        let hqc_block = block_store.highest_certified_block();
        let hqc = block_store.highest_quorum_cert();
        Ok(
            Block {
                id: block_id,
                parent_id: hqc_block.id,
                round,
                height: hqc_block.height + 1,
                timestamp_usecs,
                quorum_cert: hqc,
                author,
            },
        )
    }
}

/// Whether a generator whose last proposal was for round `last` generates a
/// proposal for `round`.
pub open spec fn generates(last: Round, round: Round) -> bool {
    round > last
}

/// The last round generated after asking for a proposal for `round`.
pub open spec fn last_round_after(last: Round, round: Round) -> Round {
    if generates(last, round) {
        round
    } else {
        last
    }
}

/// At most one proposal is generated per round: once a proposal for round `r`
/// was generated, no proposal for `r` or an earlier round is.
pub proof fn lemma_one_proposal_per_round(last: Round, r: Round, later: Round)
    requires
        generates(last, r),
        later <= r,
    ensures
        !generates(last_round_after(last, r), later),
{
}

/// The last round generated never decreases.
pub proof fn lemma_last_round_never_decreases(last: Round, round: Round)
    ensures
        last_round_after(last, round) >= last,
{
}

/// The last round generated after asking, in turn, for proposals for `rounds`.
pub open spec fn last_round_after_all(last: Round, rounds: Seq<Round>) -> Round
    decreases rounds.len(),
{
    if rounds.len() == 0 {
        last
    } else {
        last_round_after(last_round_after_all(last, rounds.drop_last()), rounds.last())
    }
}

proof fn lemma_last_round_after_step(last: Round, rounds: Seq<Round>, i: int)
    requires
        0 <= i < rounds.len(),
    ensures
        last_round_after_all(last, rounds.take(i + 1)) == last_round_after(last_round_after_all(last, rounds.take(i)), rounds[i]),
{
    assert(rounds.take(i + 1).drop_last() =~= rounds.take(i));
    assert(rounds.take(i + 1).last() == rounds[i]);
}

proof fn lemma_last_round_after_all_grows(last: Round, rounds: Seq<Round>, i: int, j: int)
    requires
        0 <= i <= j <= rounds.len(),
    ensures
        last_round_after_all(last, rounds.take(j)) >= last_round_after_all(last, rounds.take(i)),
    decreases j - i,
{
    if i < j {
        lemma_last_round_after_all_grows(last, rounds, i, j - 1);
        lemma_last_round_after_step(last, rounds, j - 1);
    }
}

/// Over any sequence of requests, the proposals generated are for strictly
/// increasing rounds: never two proposals for one round.
pub proof fn lemma_proposals_in_increasing_rounds(last: Round, rounds: Seq<Round>, i: int, j: int)
    requires
        0 <= i < j < rounds.len(),
        generates(last_round_after_all(last, rounds.take(i)), rounds[i]),
        generates(last_round_after_all(last, rounds.take(j)), rounds[j]),
    ensures
        rounds[j] > rounds[i],
{
    lemma_last_round_after_step(last, rounds, i);
    lemma_last_round_after_all_grows(last, rounds, i + 1, j);
}

/// One call on a replica, as seen by its proposal generator: the last round
/// generated goes from `old_last` to `new_last`, and `proposed` is the round
/// of the proposal the call generated, if any.  Proposing needs a round above
/// the last one and makes it the last; otherwise the last round never falls.
pub open spec fn generator_step(old_last: Round, new_last: Round, proposed: Option<Round>) -> bool {
    match proposed {
        Some(r) => r > old_last && new_last == r,
        None => new_last >= old_last,
    }
}

proof fn lemma_generator_steps_grow(lasts: Seq<Round>, proposed: Seq<Option<Round>>, i: int, j: int)
    requires
        lasts.len() == proposed.len() + 1,
        forall|k: int| 0 <= k < proposed.len() ==> generator_step(lasts[k], lasts[k + 1], #[trigger] proposed[k]),
        0 <= i <= j < lasts.len(),
    ensures
        lasts[j] >= lasts[i],
    decreases j - i,
{
    if i < j {
        lemma_generator_steps_grow(lasts, proposed, i, j - 1);
        assert(generator_step(lasts[j - 1], lasts[j], proposed[j - 1]));
    }
}

/// Over any sequence of calls on a replica (its `NodeState` methods each make
/// one `generator_step`), the proposals it generates are for strictly
/// increasing rounds: the leader never proposes twice in one round.
pub proof fn lemma_one_proposal_per_round_over_calls(
    lasts: Seq<Round>,
    proposed: Seq<Option<Round>>,
    i: int,
    j: int,
)
    requires
        lasts.len() == proposed.len() + 1,
        forall|k: int| 0 <= k < proposed.len() ==> generator_step(lasts[k], lasts[k + 1], #[trigger] proposed[k]),
        0 <= i < j < proposed.len(),
        proposed[i] is Some,
        proposed[j] is Some,
    ensures
        proposed[j]->0 > proposed[i]->0,
{
    assert(generator_step(lasts[i], lasts[i + 1], proposed[i]));
    assert(generator_step(lasts[j], lasts[j + 1], proposed[j]));
    lemma_generator_steps_grow(lasts, proposed, i + 1, j);
}

/// A generated proposal extends the highest certified block: its parent is
/// that block, it is one higher, it carries that block's certificate, and it
/// has the requested round, id, timestamp and author.
pub proof fn lemma_proposal_extends_highest_certified(
    store: BlockStore,
    round: Round,
    block_id: HashValue,
    timestamp_usecs: u64,
    author: Author,
)
    requires
        store.tree().highest_certified().height < u64::MAX,
    ensures
        ({
            let b = proposal_block(store, round, block_id, timestamp_usecs, author);
            &&& b.parent_id == store.tree().highest_certified().id
            &&& b.height == store.tree().highest_certified().height + 1
            &&& b.quorum_cert == store.tree().highest_qc()
            &&& b.round == round
            &&& b.id == block_id
            &&& b.timestamp_usecs == timestamp_usecs
            &&& b.author == author
        }),
{
}

} // verus!
