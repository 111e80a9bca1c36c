//! A model of the HotStuff protocol over a fixed set of blocks: honest
//! replicas vote for proposals by the locking rule, and commit the tail of a
//! three-chain of direct parents.
use vstd::prelude::*;
use vstd::set_lib::{lemma_int_range, lemma_len_subset, lemma_set_disjoint_lens, set_int_range};

verus! {

/// The index of a block in the fixed array of blocks.
pub type BlockId = usize;

/// The index of an honest replica.
pub type HonestReplicaId = usize;

/// The root (genesis) block.
pub const ROOT: BlockId = 0;

/// A block of the model.
#[derive(Clone, Copy, Debug, PartialEq, Eq, Structural)]
pub struct Block {
    pub parent: BlockId,
    /// Distance from the root (genesis) block.
    pub height: usize,
    /// The block for which a quorum certificate has been gathered and is known
    /// to the leader that proposes this block.
    pub justify: BlockId,
    /// Unique id of this block.
    pub id: BlockId,
}

/// The id of a block: blocks are stored at their ids.
pub fn hash(bl: Block) -> (r: BlockId)
    ensures
        r == bl.id,
{
    bl.id
}

/// The blocks form a tree rooted at `ROOT`: every block is stored at its id,
/// its parent and justification are blocks, the root has height zero, and
/// every other block is one higher than its parent.
pub open spec fn blocks_wf(blocks: Seq<Block>) -> bool {
    &&& blocks.len() > 0
    &&& blocks[ROOT as int].height == 0
    &&& forall|i: int|
        0 <= i < blocks.len() ==> (#[trigger] blocks[i]).id == i && blocks[i].parent < blocks.len()
            && blocks[i].justify < blocks.len()
    &&& forall|i: int|
        0 < i < blocks.len() ==> #[trigger] blocks[i].height == blocks[blocks[i].parent as int].height + 1
}

/// The height invariant of one block: the root, or one higher than its parent.
pub open spec fn spec_block_invariant(blocks: Seq<Block>, block_id: BlockId) -> bool {
    block_id == ROOT || blocks[block_id as int].height == blocks[blocks[block_id as int].parent as int].height + 1
}

/// `child` extends `parent`: `parent` is met walking from `child` towards the
/// root by parent links (`child` itself and its parent included), the walk
/// stopping at the root.
pub open spec fn spec_extends(blocks: Seq<Block>, child: BlockId, parent: BlockId) -> bool
    decreases blocks[child as int].height,
{
    if child == parent || blocks[child as int].parent == parent {
        true
    } else if child == ROOT {
        false
    } else if blocks[blocks[child as int].parent as int].height < blocks[child as int].height {
        spec_extends(blocks, blocks[child as int].parent, parent)
    } else {
        false
    }
}

/// Two blocks are on one branch: one extends the other.
pub open spec fn spec_consistent(blocks: Seq<Block>, b1: Block, b2: Block) -> bool {
    spec_extends(blocks, b1.id, b2.id) || spec_extends(blocks, b2.id, b1.id)
}

/// The height invariant of one block: the root, or one higher than its parent.
pub fn block_invariant(blocks: &Vec<Block>, block_id: BlockId) -> (r: bool)
    requires
        block_id < blocks@.len(),
        blocks@[block_id as int].parent < blocks@.len(),
    ensures
        r == spec_block_invariant(blocks@, block_id),
{
    let b = blocks[block_id];
    let p = blocks[b.parent];
    block_id == ROOT || (p.height < b.height && b.height - p.height == 1)
}

/// Whether `child_block_id` extends `parent_block_id`.
pub fn extends(blocks: &Vec<Block>, child_block_id: BlockId, parent_block_id: BlockId) -> (r: bool)
    requires
        blocks_wf(blocks@),
        child_block_id < blocks@.len(),
    ensures
        r == spec_extends(blocks@, child_block_id, parent_block_id),
{
    let mut cur = child_block_id;
    loop
        invariant
            blocks_wf(blocks@),
            cur < blocks@.len(),
            spec_extends(blocks@, child_block_id, parent_block_id) == spec_extends(
                blocks@,
                cur,
                parent_block_id,
            ),
        decreases blocks@[cur as int].height,
    {
        if cur == parent_block_id || blocks[cur].parent == parent_block_id {
            return true;
        }
        if cur == ROOT {
            return false;
        }
        proof {
            assert(blocks@[cur as int].height == blocks@[blocks@[cur as int].parent as int].height + 1);
        }
        cur = blocks[cur].parent;
    }
}

/// Whether two blocks are on one branch.
pub fn consistent(blocks: &Vec<Block>, b1: Block, b2: Block) -> (r: bool)
    requires
        blocks_wf(blocks@),
        b1.id < blocks@.len(),
        b2.id < blocks@.len(),
    ensures
        r == spec_consistent(blocks@, b1, b2),
{
    if extends(blocks, hash(b1), hash(b2)) || extends(blocks, hash(b2), hash(b1)) {
        return true;
    }
    false
}

/// The state of one honest replica.
#[derive(Clone, Copy, Debug, PartialEq, Eq, Structural)]
pub struct ReplicaState {
    /// The height of the last block voted for (monotonically increasing).
    pub vheight: usize,
    /// The locked block.
    pub locked_block_id: BlockId,
    /// The latest block committed by this replica.
    pub locally_committed: BlockId,
}

/// The number of votes collected for each block.
pub struct VoteStore {
    pub map_block_votes: Vec<usize>,
}

/// The state of each honest replica.
pub struct ReplicaStore {
    pub map_replica_state: Vec<ReplicaState>,
}

/// Every block a replica refers to is a block of the model.
pub open spec fn replicas_wf(states: Seq<ReplicaState>, num_blocks: nat) -> bool {
    forall|i: int|
        0 <= i < states.len() ==> #[trigger] states[i].locked_block_id < num_blocks
            && states[i].locally_committed < num_blocks
}

/// The initial vote counts: every block starts with the `f` votes faulty
/// replicas may cast for it, the root with the votes of all `h + f` replicas.
pub open spec fn initial_votes(f: usize, h: usize, num_blocks: nat) -> Seq<usize> {
    Seq::new(num_blocks, |i: int| if i == ROOT { (h + f) as usize } else { f })
}

/// The initial state of every honest replica: nothing voted, locked on and
/// having committed the root.
pub open spec fn initial_replica() -> ReplicaState {
    ReplicaState { vheight: 0, locked_block_id: ROOT, locally_committed: ROOT }
}

/// Sets up the model for `f` faulty and `h` honest replicas, with `h >= 2f + 1`
/// and `blocks` rooted at a block of height zero.
pub fn initial_stores(f: usize, h: usize, blocks: &Vec<Block>) -> (r: (VoteStore, ReplicaStore))
    requires
        h >= 2 * f + 1,
        h + f <= usize::MAX,
        blocks_wf(blocks@),
    ensures
        r.0.map_block_votes@ == initial_votes(f, h, blocks@.len()),
        r.1.map_replica_state@ == Seq::new((h + f) as nat, |i: int| initial_replica()),
        replicas_wf(r.1.map_replica_state@, blocks@.len()),
{
    let mut votes: Vec<usize> = Vec::new();
    let mut i: usize = 0;
    while i < blocks.len()
        invariant
            i <= blocks@.len(),
            h + f <= usize::MAX,
            votes@ == initial_votes(f, h, i as nat),
        decreases blocks.len() - i,
    {
        if i == ROOT {
            votes.push(h + f);
        } else {
            votes.push(f);
        }
        proof {
            assert(votes@ =~= initial_votes(f, h, i as nat + 1));
        }
        i = i + 1;
    }
    let n = h + f;
    let mut states: Vec<ReplicaState> = Vec::new();
    let mut j: usize = 0;
    while j < n
        invariant
            j <= n,
            states@ == Seq::new(j as nat, |k: int| initial_replica()),
        decreases n - j,
    {
        states.push(ReplicaState { vheight: 0, locked_block_id: ROOT, locally_committed: ROOT });
        proof {
            assert(states@ =~= Seq::new(j as nat + 1, |k: int| initial_replica()));
        }
        j = j + 1;
    }
    (VoteStore { map_block_votes: votes }, ReplicaStore { map_replica_state: states })
}

/// The replica state after `update` with the block `id_double_prime`: the
/// lock moves to the justification `b'` of that block when `b'` is higher than
/// the locked block; when `b'' <- b' <- b` is a chain of direct parents (each
/// the justification of the next), `b` is committed: it becomes the
/// replica's committed block when it extends the block committed before.
pub open spec fn replica_after_update(blocks: Seq<Block>, rs: ReplicaState, id_double_prime: BlockId) -> ReplicaState {
    let b_double_prime = blocks[id_double_prime as int];
    let id_prime = b_double_prime.justify;
    let b_prime = blocks[id_prime as int];
    let id = b_prime.justify;
    let locked = if b_prime.height > blocks[rs.locked_block_id as int].height {
        id_prime
    } else {
        rs.locked_block_id
    };
    let commits = b_double_prime.parent == id_prime && b_prime.parent == id;
    ReplicaState {
        vheight: rs.vheight,
        locked_block_id: locked,
        locally_committed: if commits && spec_extends(blocks, id, rs.locally_committed) {
            id
        } else {
            rs.locally_committed
        },
    }
}

/// Whether `update` with the block `id_double_prime` commits, and what.
pub open spec fn commit_of_update(blocks: Seq<Block>, id_double_prime: BlockId) -> Option<BlockId> {
    let b_double_prime = blocks[id_double_prime as int];
    let id_prime = b_double_prime.justify;
    let b_prime = blocks[id_prime as int];
    if b_double_prime.parent == id_prime && b_prime.parent == b_prime.justify {
        Some(b_prime.justify)
    } else {
        None
    }
}

/// The globally committed block after an update that commits `c` (if any):
/// the later of the two, `c` when it extends the block committed before.
pub open spec fn committed_after(blocks: Seq<Block>, committed: BlockId, c: Option<BlockId>) -> BlockId {
    match c {
        Some(id) => if spec_extends(blocks, id, committed) {
            id
        } else {
            committed
        },
        None => committed,
    }
}

/// Updates the lock and the commits of replica `r` on learning of the block
/// `id_double_prime` (the justification of a proposal).
pub fn update(
    blocks: &Vec<Block>,
    r: HonestReplicaId,
    replica_store: &mut ReplicaStore,
    id_double_prime: BlockId,
    committed: &mut BlockId,
)
    requires
        blocks_wf(blocks@),
        r < old(replica_store).map_replica_state@.len(),
        replicas_wf(old(replica_store).map_replica_state@, blocks@.len()),
        id_double_prime < blocks@.len(),
        *old(committed) < blocks@.len(),
    ensures
        final(replica_store).map_replica_state@ == old(replica_store).map_replica_state@.update(
            r as int,
            replica_after_update(blocks@, old(replica_store).map_replica_state@[r as int], id_double_prime),
        ),
        *final(committed) == committed_after(blocks@, *old(committed), commit_of_update(blocks@, id_double_prime)),
        replicas_wf(final(replica_store).map_replica_state@, blocks@.len()),
        *final(committed) < blocks@.len(),
{
    let b_double_prime = blocks[id_double_prime];
    let id_prime = b_double_prime.justify;
    let b_prime = blocks[id_prime];
    let id = b_prime.justify;
    let b = blocks[id];
    let mut rs = replica_store.map_replica_state[r];
    if b_prime.height > blocks[rs.locked_block_id].height {
        rs.locked_block_id = id_prime;
    }
    if b_double_prime.parent == hash(b_prime) && b_prime.parent == hash(b) {
        if extends(blocks, id, rs.locally_committed) {
            rs.locally_committed = id;
        }
        if extends(blocks, id, *committed) {
            *committed = id;
        }
    }
    replica_store.map_replica_state.set(r, rs);
    proof {
        let s = replica_store.map_replica_state@;
        assert forall|i: int| 0 <= i < s.len() implies #[trigger] s[i].locked_block_id < blocks@.len()
            && s[i].locally_committed < blocks@.len() by {
            if i != r as int {
                assert(old(replica_store).map_replica_state@[i] == s[i]);
            }
        }
    }
}

/// Whether replica `r` votes for the proposal `new_block_id`: the nondeterministic
/// choice allows it, its justification has a quorum of `h` votes, it is higher
/// than the last block the replica voted for, and it extends the locked block
/// or justifies with a block higher than the locked one.
pub open spec fn votes_for(
    h: usize,
    blocks: Seq<Block>,
    rs: ReplicaState,
    votes: Seq<usize>,
    new_block_id: BlockId,
    nondet_bool: bool,
) -> bool {
    let nb = blocks[new_block_id as int];
    &&& nondet_bool
    &&& votes[nb.justify as int] >= h
    &&& nb.height > rs.vheight
    &&& (spec_extends(blocks, new_block_id, rs.locked_block_id) || blocks[nb.justify as int].height
        > blocks[rs.locked_block_id as int].height)
}

/// The vote counts after replica `r` (in state `rs`) handles the proposal
/// `new_block_id`: one more for the proposal if the replica votes for it.
pub open spec fn votes_after_proposal(
    h: usize,
    blocks: Seq<Block>,
    rs: ReplicaState,
    votes: Seq<usize>,
    new_block_id: BlockId,
    nondet_bool: bool,
) -> Seq<usize> {
    if votes_for(h, blocks, rs, votes, new_block_id, nondet_bool) {
        votes.update(new_block_id as int, (votes[new_block_id as int] + 1) as usize)
    } else {
        votes
    }
}

/// The state of a replica after it handles the proposal `new_block_id`: its
/// voted height raised to the proposal's if it votes, then updated with the
/// proposal's justification.
pub open spec fn replica_after_proposal(
    h: usize,
    blocks: Seq<Block>,
    rs: ReplicaState,
    votes: Seq<usize>,
    new_block_id: BlockId,
    nondet_bool: bool,
) -> ReplicaState {
    let nb = blocks[new_block_id as int];
    let rs_voted = if votes_for(h, blocks, rs, votes, new_block_id, nondet_bool) {
        ReplicaState { vheight: nb.height, ..rs }
    } else {
        rs
    };
    replica_after_update(blocks, rs_voted, nb.justify)
}

/// The top-level event handler of replica `r`: on the proposal `new_block_id`
/// it votes by the rules of `votes_for` (raising its voted height and adding
/// one vote to the block), then updates its lock and commits with the
/// proposal's justification.
pub fn on_receive_proposal(
    h: usize,
    f: usize,
    blocks: &Vec<Block>,
    r: HonestReplicaId,
    replica_store: &mut ReplicaStore,
    new_block_id: BlockId,
    vote_store: &mut VoteStore,
    nondet_bool: bool,
    committed: &mut BlockId,
)
    requires
        blocks_wf(blocks@),
        r < old(replica_store).map_replica_state@.len(),
        replicas_wf(old(replica_store).map_replica_state@, blocks@.len()),
        new_block_id < blocks@.len(),
        old(vote_store).map_block_votes@.len() == blocks@.len(),
        votes_for(
            h,
            blocks@,
            old(replica_store).map_replica_state@[r as int],
            old(vote_store).map_block_votes@,
            new_block_id,
            nondet_bool,
        ) ==> old(vote_store).map_block_votes@[new_block_id as int] < usize::MAX,
        *old(committed) < blocks@.len(),
    ensures
        final(vote_store).map_block_votes@ == votes_after_proposal(
            h,
            blocks@,
            old(replica_store).map_replica_state@[r as int],
            old(vote_store).map_block_votes@,
            new_block_id,
            nondet_bool,
        ),
        final(replica_store).map_replica_state@ == old(replica_store).map_replica_state@.update(
            r as int,
            replica_after_proposal(
                h,
                blocks@,
                old(replica_store).map_replica_state@[r as int],
                old(vote_store).map_block_votes@,
                new_block_id,
                nondet_bool,
            ),
        ),
        *final(committed) == committed_after(
            blocks@,
            *old(committed),
            commit_of_update(blocks@, blocks@[new_block_id as int].justify),
        ),
        replicas_wf(final(replica_store).map_replica_state@, blocks@.len()),
        final(vote_store).map_block_votes@.len() == blocks@.len(),
        *final(committed) < blocks@.len(),
{
    let new_block = blocks[new_block_id];
    let rs = replica_store.map_replica_state[r];
    if nondet_bool && vote_store.map_block_votes[new_block.justify] >= h {
        if new_block.height > rs.vheight && (extends(blocks, new_block_id, rs.locked_block_id)
            || blocks[new_block.justify].height > blocks[rs.locked_block_id].height) {
            let mut rs2 = rs;
            rs2.vheight = new_block.height;
            replica_store.map_replica_state.set(r, rs2);
            let v = vote_store.map_block_votes[new_block_id];
            vote_store.map_block_votes.set(new_block_id, v + 1);
            proof {
                let s = replica_store.map_replica_state@;
                assert forall|i: int| 0 <= i < s.len() implies #[trigger] s[i].locked_block_id
                    < blocks@.len() && s[i].locally_committed < blocks@.len() by {
                    if i != r as int {
                        assert(old(replica_store).map_replica_state@[i] == s[i]);
                    }
                }
            }
        }
    }
    let ghost mid = replica_store.map_replica_state@;
    update(blocks, r, replica_store, new_block.justify, committed);
    proof {
        assert(replica_store.map_replica_state@ =~= old(replica_store).map_replica_state@.update(
            r as int,
            replica_after_update(blocks@, mid[r as int], new_block.justify),
        ));
    }
}

/// A replica's voted height never decreases, and it votes only for a block
/// higher than every block it voted for before: an honest replica never votes
/// twice at one height.
pub proof fn lemma_vheight_increases_with_each_vote(
    h: usize,
    blocks: Seq<Block>,
    rs: ReplicaState,
    votes: Seq<usize>,
    new_block_id: BlockId,
    nondet_bool: bool,
)
    ensures
        replica_after_proposal(h, blocks, rs, votes, new_block_id, nondet_bool).vheight >= rs.vheight,
        votes_for(h, blocks, rs, votes, new_block_id, nondet_bool) ==> blocks[new_block_id as int].height
            > rs.vheight && replica_after_proposal(
            h,
            blocks,
            rs,
            votes,
            new_block_id,
            nondet_bool,
        ).vheight == blocks[new_block_id as int].height,
{
}

/// After a replica voted for a block at some height, it never votes for
/// another block of that height or lower.
pub proof fn lemma_no_second_vote_at_a_height(
    h: usize,
    blocks: Seq<Block>,
    rs: ReplicaState,
    votes: Seq<usize>,
    voted_id: BlockId,
    nondet_bool: bool,
    later_votes: Seq<usize>,
    other_id: BlockId,
    later_nondet: bool,
)
    requires
        votes_for(h, blocks, rs, votes, voted_id, nondet_bool),
        blocks[other_id as int].height <= blocks[voted_id as int].height,
    ensures
        !votes_for(
            h,
            blocks,
            replica_after_proposal(h, blocks, rs, votes, voted_id, nondet_bool),
            later_votes,
            other_id,
            later_nondet,
        ),
{
}

/// The height of a replica's locked block never decreases.
pub proof fn lemma_lock_never_lowers(blocks: Seq<Block>, rs: ReplicaState, id_double_prime: BlockId)
    ensures
        blocks[replica_after_update(blocks, rs, id_double_prime).locked_block_id as int].height
            >= blocks[rs.locked_block_id as int].height,
{
}

/// Vote counts never decrease; only the proposal's count grows, by one, and
/// only when the replica votes for it.
pub proof fn lemma_votes_only_grow(
    h: usize,
    blocks: Seq<Block>,
    rs: ReplicaState,
    votes: Seq<usize>,
    new_block_id: BlockId,
    nondet_bool: bool,
)
    requires
        new_block_id < votes.len(),
        votes[new_block_id as int] < usize::MAX,
    ensures
        votes_after_proposal(h, blocks, rs, votes, new_block_id, nondet_bool).len() == votes.len(),
        forall|i: int|
            0 <= i < votes.len() ==> #[trigger] votes_after_proposal(
                h,
                blocks,
                rs,
                votes,
                new_block_id,
                nondet_bool,
            )[i] == votes[i] + if i == new_block_id && votes_for(
                h,
                blocks,
                rs,
                votes,
                new_block_id,
                nondet_bool,
            ) {
                1int
            } else {
                0int
            },
{
}

/// A block is committed only as the tail of a three-chain of direct parents:
/// the update's block `b''`, its justification `b'` and the justification `b`
/// of `b'`, with `b''` a child of `b'` and `b'` a child of `b`.
pub proof fn lemma_commit_needs_direct_three_chain(blocks: Seq<Block>, id_double_prime: BlockId)
    requires
        commit_of_update(blocks, id_double_prime) is Some,
    ensures
        ({
            let b2 = blocks[id_double_prime as int];
            let b1 = blocks[b2.justify as int];
            &&& b2.parent == b2.justify
            &&& b1.parent == b1.justify
            &&& commit_of_update(blocks, id_double_prime)->0 == b1.justify
        }),
{
}

/// The committed block and each replica's locally committed block never move
/// back: the new one extends the one before.
pub proof fn lemma_commits_never_move_back(
    blocks: Seq<Block>,
    rs: ReplicaState,
    id_double_prime: BlockId,
    committed: BlockId,
)
    ensures
        spec_extends(blocks, replica_after_update(blocks, rs, id_double_prime).locally_committed, rs.locally_committed),
        spec_extends(blocks, committed_after(blocks, committed, commit_of_update(blocks, id_double_prime)), committed),
{
}


/// One event of the model: honest replica `replica` receives the proposal
/// `block`, with `nondet` as the nondeterministic choice that may withhold its vote.
#[derive(Clone, Copy, Debug, PartialEq, Eq, Structural)]
pub struct ModelEvent {
    pub replica: HonestReplicaId,
    pub block: BlockId,
    pub nondet: bool,
}

/// The state of the whole model: the vote counts, the honest replicas and the
/// globally committed block.
pub struct ModelState {
    pub votes: Seq<usize>,
    pub replicas: Seq<ReplicaState>,
    pub committed: BlockId,
}

/// The initial state of the model for `f` faulty and `h` honest replicas.
pub open spec fn initial_model(f: usize, h: usize, blocks: Seq<Block>) -> ModelState {
    ModelState {
        votes: initial_votes(f, h, blocks.len()),
        replicas: Seq::new((h + f) as nat, |i: int| initial_replica()),
        committed: ROOT,
    }
}

/// The state after one event.
pub open spec fn model_step(h: usize, blocks: Seq<Block>, s: ModelState, e: ModelEvent) -> ModelState {
    let rs = s.replicas[e.replica as int];
    ModelState {
        votes: votes_after_proposal(h, blocks, rs, s.votes, e.block, e.nondet),
        replicas: s.replicas.update(
            e.replica as int,
            replica_after_proposal(h, blocks, rs, s.votes, e.block, e.nondet),
        ),
        committed: committed_after(blocks, s.committed, commit_of_update(blocks, blocks[e.block as int].justify)),
    }
}

/// The state after a sequence of events.
pub open spec fn model_run(h: usize, blocks: Seq<Block>, s0: ModelState, events: Seq<ModelEvent>) -> ModelState
    decreases events.len(),
{
    if events.len() == 0 {
        s0
    } else {
        model_step(h, blocks, model_run(h, blocks, s0, events.drop_last()), events.last())
    }
}

/// Every event is for an honest replica (below `h`) and a block of the model.
pub open spec fn valid_events(h: usize, num_blocks: nat, events: Seq<ModelEvent>) -> bool {
    forall|i: int|
        0 <= i < events.len() ==> (#[trigger] events[i]).replica < h && events[i].block < num_blocks
}

/// A block is certified: it has gathered a quorum of `h` votes.
pub open spec fn certified(h: usize, s: ModelState, b: BlockId) -> bool {
    s.votes[b as int] >= h
}

/// The votes a block starts with: all replicas' for the root, the faulty
/// replicas' for any other block.
pub open spec fn vote_base(f: usize, h: usize, b: BlockId) -> int {
    if b == ROOT {
        h + f
    } else {
        f as int
    }
}

/// The honest replicas that voted for block `b` during `events`.
pub open spec fn honest_voters(
    f: usize,
    h: usize,
    blocks: Seq<Block>,
    events: Seq<ModelEvent>,
    b: BlockId,
) -> Set<int>
    decreases events.len(),
{
    if events.len() == 0 {
        Set::empty()
    } else {
        let prev = model_run(h, blocks, initial_model(f, h, blocks), events.drop_last());
        let e = events.last();
        let v = honest_voters(f, h, blocks, events.drop_last(), b);
        if e.block == b && votes_for(
            h,
            blocks,
            prev.replicas[e.replica as int],
            prev.votes,
            e.block,
            e.nondet,
        ) {
            v.insert(e.replica as int)
        } else {
            v
        }
    }
}

/// What holds after any run: each block's count is its initial votes plus its
/// honest voters, who are honest replicas; an honest voter's voted height is
/// at least the block's height; and no honest replica voted for two blocks
/// of one height.
pub open spec fn run_invariant(f: usize, h: usize, blocks: Seq<Block>, events: Seq<ModelEvent>) -> bool {
    let s = model_run(h, blocks, initial_model(f, h, blocks), events);
    &&& s.votes.len() == blocks.len()
    &&& s.replicas.len() == h + f
    &&& forall|b: BlockId|
        b < blocks.len() ==> {
            let v = #[trigger] honest_voters(f, h, blocks, events, b);
            &&& v.finite()
            &&& v.subset_of(set_int_range(0, h as int))
            &&& s.votes[b as int] == vote_base(f, h, b) + v.len()
        }
    &&& forall|b: BlockId, r: int|
        b < blocks.len() && #[trigger] honest_voters(f, h, blocks, events, b).contains(r)
            ==> blocks[b as int].height <= s.replicas[r].vheight
    &&& forall|b: BlockId, c: BlockId, r: int|
        b < blocks.len() && c < blocks.len() && #[trigger] honest_voters(f, h, blocks, events, b).contains(r)
            && #[trigger] honest_voters(f, h, blocks, events, c).contains(r) && blocks[b as int].height
            == blocks[c as int].height ==> b == c
}

pub(crate) proof fn lemma_run_invariant(f: usize, h: usize, blocks: Seq<Block>, events: Seq<ModelEvent>)
    requires
        blocks_wf(blocks),
        h >= 2 * f + 1,
        h + f <= usize::MAX,
        valid_events(h, blocks.len(), events),
    ensures
        run_invariant(f, h, blocks, events),
    decreases events.len(),
{
    let s0 = initial_model(f, h, blocks);
    if events.len() == 0 {
        assert forall|b: BlockId| b < blocks.len() implies {
            let v = #[trigger] honest_voters(f, h, blocks, events, b);
            &&& v.finite()
            &&& v.subset_of(set_int_range(0, h as int))
            &&& s0.votes[b as int] == vote_base(f, h, b) + v.len()
        } by {
            assert(honest_voters(f, h, blocks, events, b) == Set::<int>::empty());
        }
    } else {
        let pre = events.drop_last();
        assert(valid_events(h, blocks.len(), pre)) by {
            assert forall|i: int| 0 <= i < pre.len() implies (#[trigger] pre[i]).replica < h
                && pre[i].block < blocks.len() by {
                assert(pre[i] == events[i]);
            }
        }
        lemma_run_invariant(f, h, blocks, pre);
        let prev = model_run(h, blocks, s0, pre);
        let e = events.last();
        assert(events[events.len() - 1] == e);
        let r = e.replica as int;
        let rs = prev.replicas[r];
        let voted = votes_for(h, blocks, rs, prev.votes, e.block, e.nondet);
        let s = model_run(h, blocks, s0, events);
        assert(s == model_step(h, blocks, prev, e));
        let vb = honest_voters(f, h, blocks, pre, e.block);
        lemma_vote_fits(f, h, blocks, pre, e);
        if voted {
            assert(!vb.contains(r));
        }
        assert forall|b: BlockId| b < blocks.len() implies {
            let v = #[trigger] honest_voters(f, h, blocks, events, b);
            &&& v.finite()
            &&& v.subset_of(set_int_range(0, h as int))
            &&& s.votes[b as int] == vote_base(f, h, b) + v.len()
        } by {
            let old_v = honest_voters(f, h, blocks, pre, b);
            let v = honest_voters(f, h, blocks, events, b);
            assert(old_v.finite());
            if voted && b == e.block {
                assert(v == old_v.insert(r));
                assert(old_v.insert(r).len() == old_v.len() + 1);
                assert(s.votes[b as int] == prev.votes[b as int] + 1);
            } else {
                assert(v == old_v);
                assert(s.votes[b as int] == prev.votes[b as int]);
            }
        }
        assert forall|b: BlockId, x: int|
            b < blocks.len() && #[trigger] honest_voters(f, h, blocks, events, b).contains(x)
                implies blocks[b as int].height <= s.replicas[x].vheight by {
            let old_v = honest_voters(f, h, blocks, pre, b);
            if x != r {
                assert(old_v.contains(x));
            } else if old_v.contains(x) {
                assert(blocks[b as int].height <= rs.vheight);
            }
        }
        assert forall|b: BlockId, c: BlockId, x: int|
            b < blocks.len() && c < blocks.len() && #[trigger] honest_voters(f, h, blocks, events, b).contains(x)
                && #[trigger] honest_voters(f, h, blocks, events, c).contains(x) && blocks[b as int].height
                == blocks[c as int].height implies b == c by {
            let old_b = honest_voters(f, h, blocks, pre, b);
            let old_c = honest_voters(f, h, blocks, pre, c);
            if old_b.contains(x) && old_c.contains(x) {
            } else if old_b.contains(x) {
                assert(blocks[b as int].height <= prev.replicas[x].vheight);
            } else if old_c.contains(x) {
                assert(blocks[c as int].height <= prev.replicas[x].vheight);
            }
        }
    }
}

/// After any run, a vote that the next event casts is by a replica that has
/// not voted for that block yet, and its count can still grow.
pub(crate) proof fn lemma_vote_fits(f: usize, h: usize, blocks: Seq<Block>, events: Seq<ModelEvent>, e: ModelEvent)
    requires
        blocks_wf(blocks),
        h + f <= usize::MAX,
        run_invariant(f, h, blocks, events),
        e.replica < h,
        e.block < blocks.len(),
    ensures
        ({
            let prev = model_run(h, blocks, initial_model(f, h, blocks), events);
            votes_for(h, blocks, prev.replicas[e.replica as int], prev.votes, e.block, e.nondet) ==> {
                &&& !honest_voters(f, h, blocks, events, e.block).contains(e.replica as int)
                &&& e.block != ROOT
                &&& prev.votes[e.block as int] < usize::MAX
            }
        }),
{
    let prev = model_run(h, blocks, initial_model(f, h, blocks), events);
    let r = e.replica as int;
    let vb = honest_voters(f, h, blocks, events, e.block);
    if votes_for(h, blocks, prev.replicas[r], prev.votes, e.block, e.nondet) {
        if vb.contains(r) {
            assert(blocks[e.block as int].height <= prev.replicas[r].vheight);
        }
        lemma_int_range(0, h as int);
        assert(vb.subset_of(set_int_range(0, h as int).remove(r)));
        lemma_len_subset(vb, set_int_range(0, h as int).remove(r));
    }
}

/// Runs the model from its initial state through `events`.
pub fn run_model(f: usize, h: usize, blocks: &Vec<Block>, events: &Vec<ModelEvent>) -> (r: (
    VoteStore,
    ReplicaStore,
    BlockId,
))
    requires
        blocks_wf(blocks@),
        h >= 2 * f + 1,
        h + f <= usize::MAX,
        valid_events(h, blocks@.len(), events@),
    ensures
        r.0.map_block_votes@ == model_run(h, blocks@, initial_model(f, h, blocks@), events@).votes,
        r.1.map_replica_state@ == model_run(h, blocks@, initial_model(f, h, blocks@), events@).replicas,
        r.2 == model_run(h, blocks@, initial_model(f, h, blocks@), events@).committed,
{
    let (mut vote_store, mut replica_store) = initial_stores(f, h, blocks);
    let mut committed: BlockId = ROOT;
    let mut i: usize = 0;
    while i < events.len()
        invariant
            blocks_wf(blocks@),
            h >= 2 * f + 1,
            h + f <= usize::MAX,
            valid_events(h, blocks@.len(), events@),
            i <= events@.len(),
            vote_store.map_block_votes@ == model_run(h, blocks@, initial_model(f, h, blocks@), events@.take(i as int)).votes,
            replica_store.map_replica_state@ == model_run(
                h,
                blocks@,
                initial_model(f, h, blocks@),
                events@.take(i as int),
            ).replicas,
            committed == model_run(h, blocks@, initial_model(f, h, blocks@), events@.take(i as int)).committed,
            replicas_wf(replica_store.map_replica_state@, blocks@.len()),
            committed < blocks@.len(),
        decreases events.len() - i,
    {
        let e = events[i];
        let ghost pre = events@.take(i as int);
        proof {
            assert(valid_events(h, blocks@.len(), pre)) by {
                assert forall|j: int| 0 <= j < pre.len() implies (#[trigger] pre[j]).replica < h
                    && pre[j].block < blocks@.len() by {
                    assert(pre[j] == events@[j]);
                }
            }
            lemma_run_invariant(f, h, blocks@, pre);
            assert(events@[i as int] == e);
            lemma_vote_fits(f, h, blocks@, pre, e);
        }
        on_receive_proposal(
            h,
            f,
            blocks,
            e.replica,
            &mut replica_store,
            e.block,
            &mut vote_store,
            e.nondet,
            &mut committed,
        );
        proof {
            assert(events@.take(i as int + 1).drop_last() =~= pre);
            assert(events@.take(i as int + 1).last() == e);
        }
        i = i + 1;
    }
    proof {
        assert(events@.take(i as int) =~= events@);
    }
    (vote_store, replica_store, committed)
}

/// Quorum intersection: with `h >= 2f + 1` honest replicas, each voting at
/// most once per height, and at most `f` faulty votes per block, no two
/// distinct blocks of one height are ever both certified, whatever events
/// happen.
pub proof fn lemma_one_certified_block_per_height(
    f: usize,
    h: usize,
    blocks: Seq<Block>,
    events: Seq<ModelEvent>,
    b: BlockId,
    c: BlockId,
)
    requires
        blocks_wf(blocks),
        h >= 2 * f + 1,
        h + f <= usize::MAX,
        valid_events(h, blocks.len(), events),
        b < blocks.len(),
        c < blocks.len(),
        b != c,
        blocks[b as int].height == blocks[c as int].height,
    ensures
        !(certified(h, model_run(h, blocks, initial_model(f, h, blocks), events), b) && certified(
            h,
            model_run(h, blocks, initial_model(f, h, blocks), events),
            c,
        )),
{
    lemma_run_invariant(f, h, blocks, events);
    let s = model_run(h, blocks, initial_model(f, h, blocks), events);
    if b == ROOT || c == ROOT {
        assert(blocks[b as int].height >= 1 || blocks[c as int].height >= 1);
        return;
    }
    let vb = honest_voters(f, h, blocks, events, b);
    let vc = honest_voters(f, h, blocks, events, c);
    if certified(h, s, b) && certified(h, s, c) {
        assert(vb.disjoint(vc)) by {
            assert forall|x: int| !(vb.contains(x) && vc.contains(x)) by {
                if vb.contains(x) && vc.contains(x) {
                    assert(b == c);
                }
            }
        }
        assert(vb.finite() && vc.finite());
        lemma_set_disjoint_lens(vb, vc);
        lemma_int_range(0, h as int);
        lemma_len_subset(vb + vc, set_int_range(0, h as int));
        assert(false);
    }
}

} // verus!
