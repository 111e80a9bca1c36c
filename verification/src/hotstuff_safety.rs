//! Safety of the HotStuff model: blocks committed by honest replicas never
//! conflict, provided every proposal carries a certified justification.
use vstd::prelude::*;
use vstd::set_lib::{lemma_int_range, lemma_len_subset, lemma_set_disjoint_lens, set_int_range};
use crate::hotstuff::{
    blocks_wf, certified, commit_of_update, honest_voters, initial_model, lemma_run_invariant,
    lemma_vote_fits, model_run, model_step, replicas_wf, run_invariant, spec_consistent,
    spec_extends, valid_events, votes_for, Block, BlockId, ModelEvent, ModelState, ROOT,
};

verus! {

/// The genesis block is its own parent and justification.  The model's
/// initial state already treats the root so (it starts with every replica's
/// vote and as every replica's lock); the safety proof relies on it for the
/// facts about extension at the root.  Whether safety fails without it is not
/// settled here.
pub open spec fn genesis_rooted(blocks: Seq<Block>) -> bool {
    &&& blocks[ROOT as int].parent == ROOT
    &&& blocks[ROOT as int].justify == ROOT
}

/// Every block other than the root justifies one of its proper ancestors.
/// Safety needs it: a block justified by a certified block of another branch,
/// higher than a replica's lock, gets that replica's vote, and a conflicting
/// chain can then commit (the test
/// `justification_off_the_branch_lets_a_conflicting_block_commit` runs one).
pub open spec fn justifies_ancestors(blocks: Seq<Block>) -> bool {
    forall|i: BlockId|
        0 < i < blocks.len() ==> #[trigger] blocks[blocks[i as int].justify as int].height < blocks[i as int].height
            && spec_extends(blocks, i, blocks[i as int].justify)
}

/// The ancestor of `x` at height `k` (`x` itself when it is not higher than `k`).
pub open spec fn ancestor_at(blocks: Seq<Block>, x: BlockId, k: nat) -> BlockId
    decreases blocks[x as int].height,
{
    if blocks[x as int].height <= k || x == ROOT {
        x
    } else if blocks[blocks[x as int].parent as int].height < blocks[x as int].height {
        ancestor_at(blocks, blocks[x as int].parent, k)
    } else {
        x
    }
}

/// The ancestor at height `k` of a block above `k` is a block at height `k`.
pub proof fn lemma_ancestor_at(blocks: Seq<Block>, x: BlockId, k: nat)
    requires
        blocks_wf(blocks),
        x < blocks.len(),
    ensures
        ancestor_at(blocks, x, k) < blocks.len(),
        k <= blocks[x as int].height ==> blocks[ancestor_at(blocks, x, k) as int].height == k,
        k >= blocks[x as int].height ==> ancestor_at(blocks, x, k) == x,
    decreases blocks[x as int].height,
{
    if blocks[x as int].height <= k || x == ROOT {
    } else {
        let p = blocks[x as int].parent;
        assert(blocks[x as int].height == blocks[p as int].height + 1);
        lemma_ancestor_at(blocks, p, k);
    }
}

/// Taking ancestors twice: the ancestor at `k2` of the ancestor at `k1 >= k2`
/// is the ancestor at `k2`.
pub proof fn lemma_ancestor_of_ancestor(blocks: Seq<Block>, x: BlockId, k1: nat, k2: nat)
    requires
        blocks_wf(blocks),
        x < blocks.len(),
        k2 <= k1,
    ensures
        ancestor_at(blocks, ancestor_at(blocks, x, k1), k2) == ancestor_at(blocks, x, k2),
    decreases blocks[x as int].height,
{
    lemma_ancestor_at(blocks, x, k1);
    if blocks[x as int].height <= k1 || x == ROOT {
    } else {
        let p = blocks[x as int].parent;
        lemma_ancestor_of_ancestor(blocks, p, k1, k2);
    }
}

/// `x` extends `y` exactly when `y` is the ancestor of `x` at `y`'s height.
pub proof fn lemma_extends_iff_ancestor(blocks: Seq<Block>, x: BlockId, y: BlockId)
    requires
        blocks_wf(blocks),
        genesis_rooted(blocks),
        x < blocks.len(),
        y < blocks.len(),
    ensures
        spec_extends(blocks, x, y) <==> (blocks[y as int].height <= blocks[x as int].height && ancestor_at(
            blocks,
            x,
            blocks[y as int].height as nat,
        ) == y),
    decreases blocks[x as int].height,
{
    lemma_ancestor_at(blocks, x, blocks[y as int].height as nat);
    if x == ROOT {
        if y != ROOT {
            assert(blocks[y as int].height >= 1);
        }
    } else {
        let p = blocks[x as int].parent;
        lemma_extends_iff_ancestor(blocks, p, y);
        if x == y {
        } else if p == y {
        } else {
            if blocks[y as int].height == blocks[x as int].height {
                assert(ancestor_at(blocks, x, blocks[y as int].height as nat) == x);
            }
        }
    }
}

/// Extension is transitive.
pub proof fn lemma_extends_transitive(blocks: Seq<Block>, x: BlockId, y: BlockId, z: BlockId)
    requires
        blocks_wf(blocks),
        genesis_rooted(blocks),
        x < blocks.len(),
        y < blocks.len(),
        z < blocks.len(),
        spec_extends(blocks, x, y),
        spec_extends(blocks, y, z),
    ensures
        spec_extends(blocks, x, z),
{
    lemma_extends_iff_ancestor(blocks, x, y);
    lemma_extends_iff_ancestor(blocks, y, z);
    lemma_extends_iff_ancestor(blocks, x, z);
    lemma_ancestor_of_ancestor(blocks, x, blocks[y as int].height as nat, blocks[z as int].height as nat);
}

/// Two ancestors of one block are on one branch; the lower is extended by the higher.
pub proof fn lemma_ancestors_comparable(blocks: Seq<Block>, x: BlockId, y: BlockId, z: BlockId)
    requires
        blocks_wf(blocks),
        genesis_rooted(blocks),
        x < blocks.len(),
        y < blocks.len(),
        z < blocks.len(),
        spec_extends(blocks, x, y),
        spec_extends(blocks, x, z),
        blocks[z as int].height <= blocks[y as int].height,
    ensures
        spec_extends(blocks, y, z),
{
    lemma_extends_iff_ancestor(blocks, x, y);
    lemma_extends_iff_ancestor(blocks, x, z);
    lemma_extends_iff_ancestor(blocks, y, z);
    lemma_ancestor_of_ancestor(blocks, x, blocks[y as int].height as nat, blocks[z as int].height as nat);
}

/// A block extended by a block of no greater height is that block.
pub proof fn lemma_extends_same_height(blocks: Seq<Block>, x: BlockId, y: BlockId)
    requires
        blocks_wf(blocks),
        genesis_rooted(blocks),
        x < blocks.len(),
        y < blocks.len(),
        spec_extends(blocks, x, y),
        blocks[x as int].height <= blocks[y as int].height,
    ensures
        x == y,
{
    lemma_extends_iff_ancestor(blocks, x, y);
    lemma_ancestor_at(blocks, x, blocks[y as int].height as nat);
}

/// Every block extends itself, its parent, and the root.
pub proof fn lemma_extends_basics(blocks: Seq<Block>, x: BlockId)
    requires
        blocks_wf(blocks),
        genesis_rooted(blocks),
        x < blocks.len(),
    ensures
        spec_extends(blocks, x, x),
        spec_extends(blocks, x, blocks[x as int].parent),
        spec_extends(blocks, x, ROOT),
{
    lemma_extends_iff_ancestor(blocks, x, ROOT);
    lemma_ancestor_at(blocks, x, 0);
}

/// The state of the model after the first `t` events.
pub open spec fn state_at(f: usize, h: usize, blocks: Seq<Block>, events: Seq<ModelEvent>, t: int) -> ModelState {
    model_run(h, blocks, initial_model(f, h, blocks), events.take(t))
}

/// Every proposal carries a justification that is certified when the
/// proposal is received.  Safety needs it: the model's `update` runs on every
/// proposal, so two uncertified three-chains of direct parents on two
/// branches commit conflicting blocks without a single vote.
pub open spec fn proposals_certified(f: usize, h: usize, blocks: Seq<Block>, events: Seq<ModelEvent>) -> bool {
    forall|t: int|
        0 <= t < events.len() ==> #[trigger] certified(
            h,
            state_at(f, h, blocks, events, t),
            blocks[events[t].block as int].justify,
        )
}

/// The setting of the safety argument.
pub open spec fn safety_setting(f: usize, h: usize, blocks: Seq<Block>, events: Seq<ModelEvent>) -> bool {
    &&& blocks_wf(blocks)
    &&& genesis_rooted(blocks)
    &&& justifies_ancestors(blocks)
    &&& h >= 2 * f + 1
    &&& h + f <= usize::MAX
    &&& valid_events(h, blocks.len(), events)
}

proof fn lemma_prefix_valid(h: usize, num_blocks: nat, events: Seq<ModelEvent>, t: int)
    requires
        valid_events(h, num_blocks, events),
        0 <= t <= events.len(),
    ensures
        valid_events(h, num_blocks, events.take(t)),
{
    let pre = events.take(t);
    assert forall|i: int| 0 <= i < pre.len() implies (#[trigger] pre[i]).replica < h && pre[i].block
        < num_blocks by {
        assert(pre[i] == events[i]);
    }
}

/// One event: the state after `t + 1` events is one step from the state after
/// `t`, and the honest voters of a block grow by the replica of event `t`
/// exactly when it votes for that block.
proof fn lemma_step(f: usize, h: usize, blocks: Seq<Block>, events: Seq<ModelEvent>, t: int)
    requires
        safety_setting(f, h, blocks, events),
        0 <= t < events.len(),
    ensures
        state_at(f, h, blocks, events, t + 1) == model_step(h, blocks, state_at(f, h, blocks, events, t), events[t]),
        run_invariant(f, h, blocks, events.take(t)),
        run_invariant(f, h, blocks, events.take(t + 1)),
        forall|b: BlockId|
            #[trigger] honest_voters(f, h, blocks, events.take(t + 1), b) == if events[t].block == b && votes_for(
                h,
                blocks,
                state_at(f, h, blocks, events, t).replicas[events[t].replica as int],
                state_at(f, h, blocks, events, t).votes,
                b,
                events[t].nondet,
            ) {
                honest_voters(f, h, blocks, events.take(t), b).insert(events[t].replica as int)
            } else {
                honest_voters(f, h, blocks, events.take(t), b)
            },
{
    let pre = events.take(t + 1);
    assert(pre.drop_last() =~= events.take(t));
    assert(pre.last() == events[t]);
    lemma_prefix_valid(h, blocks.len(), events, t);
    lemma_prefix_valid(h, blocks.len(), events, t + 1);
    lemma_run_invariant(f, h, blocks, events.take(t));
    lemma_run_invariant(f, h, blocks, pre);
}

/// What one event changes: vote counts and honest voters only grow, each
/// replica's voted height and lock height only rise, only the event's replica
/// changes, and its lock moves to the justification of the proposal's
/// justification when that one is higher.
proof fn lemma_step_facts(f: usize, h: usize, blocks: Seq<Block>, events: Seq<ModelEvent>, t: int)
    requires
        safety_setting(f, h, blocks, events),
        0 <= t < events.len(),
    ensures
        ({
            let s = state_at(f, h, blocks, events, t);
            let s1 = state_at(f, h, blocks, events, t + 1);
            let e = events[t];
            let r = e.replica as int;
            let voted = votes_for(h, blocks, s.replicas[r], s.votes, e.block, e.nondet);
            let jj = blocks[blocks[e.block as int].justify as int].justify;
            &&& s.votes.len() == blocks.len()
            &&& s1.votes.len() == blocks.len()
            &&& s.replicas.len() == h + f
            &&& s1.replicas.len() == h + f
            &&& forall|b: int| 0 <= b < blocks.len() ==> #[trigger] s1.votes[b] >= s.votes[b]
            &&& forall|b: BlockId|
                #[trigger] honest_voters(f, h, blocks, events.take(t), b).subset_of(
                    honest_voters(f, h, blocks, events.take(t + 1), b),
                )
            &&& forall|q: int| 0 <= q < h + f && q != r ==> #[trigger] s1.replicas[q] == s.replicas[q]
            &&& s1.replicas[r].vheight >= s.replicas[r].vheight
            &&& voted ==> s1.replicas[r].vheight == blocks[e.block as int].height && blocks[e.block as int].height
                > s.replicas[r].vheight
            &&& s1.replicas[r].locked_block_id == if blocks[jj as int].height > blocks[s.replicas[r].locked_block_id as int].height {
                jj
            } else {
                s.replicas[r].locked_block_id
            }
            &&& replicas_wf(s.replicas, blocks.len()) ==> replicas_wf(s1.replicas, blocks.len())
        }),
{
    lemma_step(f, h, blocks, events, t);
    let s = state_at(f, h, blocks, events, t);
    let s1 = state_at(f, h, blocks, events, t + 1);
    let e = events[t];
    assert(events[t].replica < h && events[t].block < blocks.len());
    lemma_vote_fits(f, h, blocks, events.take(t), e);
    let r = e.replica as int;
    assert forall|b: int| 0 <= b < blocks.len() implies #[trigger] s1.votes[b] >= s.votes[b] by {
    }
    assert forall|b: BlockId|
        #[trigger] honest_voters(f, h, blocks, events.take(t), b).subset_of(
            honest_voters(f, h, blocks, events.take(t + 1), b),
        ) by {
    }
    if replicas_wf(s.replicas, blocks.len()) {
        assert forall|i: int| 0 <= i < s1.replicas.len() implies #[trigger] s1.replicas[i].locked_block_id
            < blocks.len() && s1.replicas[i].locally_committed < blocks.len() by {
            if i != r {
                assert(s1.replicas[i] == s.replicas[i]);
            } else {
                assert(s.replicas[i].locked_block_id < blocks.len());
                let j = blocks[e.block as int].justify;
                assert(blocks[e.block as int].justify < blocks.len());
                assert(blocks[j as int].justify < blocks.len());
                assert(blocks[blocks[j as int].justify as int].justify < blocks.len());
            }
        }
    }
}

proof fn lemma_replicas_wf(f: usize, h: usize, blocks: Seq<Block>, events: Seq<ModelEvent>, t: int)
    requires
        safety_setting(f, h, blocks, events),
        0 <= t <= events.len(),
    ensures
        replicas_wf(state_at(f, h, blocks, events, t).replicas, blocks.len()),
    decreases t,
{
    if t == 0 {
        assert(events.take(0) =~= Seq::<ModelEvent>::empty());
        let s = state_at(f, h, blocks, events, 0);
        assert(s == initial_model(f, h, blocks));
    } else {
        lemma_replicas_wf(f, h, blocks, events, t - 1);
        lemma_step_facts(f, h, blocks, events, t - 1);
    }
}

/// Across time: vote counts and honest voters only grow, and each replica's
/// voted height and lock height only rise.
proof fn lemma_monotone(f: usize, h: usize, blocks: Seq<Block>, events: Seq<ModelEvent>, t1: int, t2: int)
    requires
        safety_setting(f, h, blocks, events),
        0 <= t1 <= t2 <= events.len(),
    ensures
        ({
            let s = state_at(f, h, blocks, events, t1);
            let s2 = state_at(f, h, blocks, events, t2);
            &&& forall|b: int| 0 <= b < blocks.len() ==> #[trigger] s2.votes[b] >= s.votes[b]
            &&& forall|b: BlockId|
                #[trigger] honest_voters(f, h, blocks, events.take(t1), b).subset_of(
                    honest_voters(f, h, blocks, events.take(t2), b),
                )
            &&& forall|q: int|
                0 <= q < h + f ==> #[trigger] s2.replicas[q].vheight >= s.replicas[q].vheight
                    && blocks[s2.replicas[q].locked_block_id as int].height >= blocks[s.replicas[q].locked_block_id as int].height
        }),
    decreases t2 - t1,
{
    if t1 < t2 {
        lemma_monotone(f, h, blocks, events, t1, t2 - 1);
        lemma_step_facts(f, h, blocks, events, t2 - 1);
        let s = state_at(f, h, blocks, events, t1);
        let sm = state_at(f, h, blocks, events, t2 - 1);
        let s2 = state_at(f, h, blocks, events, t2);
        assert forall|b: int| 0 <= b < blocks.len() implies #[trigger] s2.votes[b] >= s.votes[b] by {
            assert(s2.votes[b] >= sm.votes[b]);
            assert(sm.votes[b] >= s.votes[b]);
        }
        assert forall|b: BlockId|
            #[trigger] honest_voters(f, h, blocks, events.take(t1), b).subset_of(
                honest_voters(f, h, blocks, events.take(t2), b),
            ) by {
            assert(honest_voters(f, h, blocks, events.take(t1), b).subset_of(
                honest_voters(f, h, blocks, events.take(t2 - 1), b),
            ));
            assert(honest_voters(f, h, blocks, events.take(t2 - 1), b).subset_of(
                honest_voters(f, h, blocks, events.take(t2), b),
            ));
        }
        assert forall|q: int| 0 <= q < h + f implies #[trigger] s2.replicas[q].vheight >= s.replicas[q].vheight
            && blocks[s2.replicas[q].locked_block_id as int].height >= blocks[s.replicas[q].locked_block_id as int].height by {
            assert(sm.replicas[q].vheight >= s.replicas[q].vheight);
            assert(blocks[sm.replicas[q].locked_block_id as int].height >= blocks[s.replicas[q].locked_block_id as int].height);
        }
    }
}

/// An honest voter of `v` among the first `t` events cast its vote at some
/// event `s < t`, by the voting rule in the state of that moment.
proof fn lemma_vote_time(
    f: usize,
    h: usize,
    blocks: Seq<Block>,
    events: Seq<ModelEvent>,
    t: int,
    r: int,
    v: BlockId,
) -> (s: int)
    requires
        safety_setting(f, h, blocks, events),
        0 <= t <= events.len(),
        honest_voters(f, h, blocks, events.take(t), v).contains(r),
    ensures
        0 <= s < t,
        events[s].replica == r,
        events[s].block == v,
        votes_for(
            h,
            blocks,
            state_at(f, h, blocks, events, s).replicas[r],
            state_at(f, h, blocks, events, s).votes,
            v,
            events[s].nondet,
        ),
    decreases t,
{
    if t == 0 {
        assert(events.take(0).len() == 0);
        assert(honest_voters(f, h, blocks, events.take(0), v) == Set::<int>::empty());
        assert(false);
        0
    } else {
        lemma_step(f, h, blocks, events, t - 1);
        if honest_voters(f, h, blocks, events.take(t - 1), v).contains(r) {
            lemma_vote_time(f, h, blocks, events, t - 1, r, v)
        } else {
            t - 1
        }
    }
}

/// The justification of a certified block other than the root is certified:
/// an honest replica voted for the block, and voting needs a certified
/// justification.
proof fn lemma_justify_certified(
    f: usize,
    h: usize,
    blocks: Seq<Block>,
    events: Seq<ModelEvent>,
    t: int,
    x: BlockId,
)
    requires
        safety_setting(f, h, blocks, events),
        0 <= t <= events.len(),
        x < blocks.len(),
        x != ROOT,
        certified(h, state_at(f, h, blocks, events, t), x),
    ensures
        certified(h, state_at(f, h, blocks, events, t), blocks[x as int].justify),
{
    lemma_prefix_valid(h, blocks.len(), events, t);
    lemma_run_invariant(f, h, blocks, events.take(t));
    let vs = honest_voters(f, h, blocks, events.take(t), x);
    assert(vs.finite());
    assert(state_at(f, h, blocks, events, t).votes[x as int] == f + vs.len());
    assert(vs.len() != 0);
    vstd::set::axiom_set_choose_len(vs);
    let r = vs.choose();
    let s = lemma_vote_time(f, h, blocks, events, t, r, x);
    lemma_monotone(f, h, blocks, events, s, t);
    assert(blocks[x as int].justify < blocks.len());
}

/// Every replica's locked block is certified, at every point of a run where
/// proposals carry certified justifications.
proof fn lemma_locks_certified(f: usize, h: usize, blocks: Seq<Block>, events: Seq<ModelEvent>, t: int)
    requires
        safety_setting(f, h, blocks, events),
        proposals_certified(f, h, blocks, events),
        0 <= t <= events.len(),
    ensures
        forall|q: int|
            0 <= q < h + f ==> #[trigger] certified(
                h,
                state_at(f, h, blocks, events, t),
                state_at(f, h, blocks, events, t).replicas[q].locked_block_id,
            ),
    decreases t,
{
    if t == 0 {
        assert(events.take(0) =~= Seq::<ModelEvent>::empty());
        let s = state_at(f, h, blocks, events, 0);
        assert(s == initial_model(f, h, blocks));
        assert forall|q: int| 0 <= q < h + f implies #[trigger] certified(h, s, s.replicas[q].locked_block_id) by {
            assert(s.replicas[q].locked_block_id == ROOT);
        }
    } else {
        let p = t - 1;
        lemma_locks_certified(f, h, blocks, events, p);
        lemma_step_facts(f, h, blocks, events, p);
        lemma_monotone(f, h, blocks, events, p, t);
        lemma_replicas_wf(f, h, blocks, events, p);
        let sp = state_at(f, h, blocks, events, p);
        let s = state_at(f, h, blocks, events, t);
        let e = events[p];
        assert(e.replica < h && e.block < blocks.len());
        let j = blocks[e.block as int].justify;
        let jj = blocks[j as int].justify;
        assert(certified(h, sp, j));
        assert(j < blocks.len());
        if j != ROOT {
            lemma_justify_certified(f, h, blocks, events, p, j);
        }
        assert(certified(h, sp, jj));
        assert(jj < blocks.len());
        assert forall|q: int| 0 <= q < h + f implies #[trigger] certified(h, s, s.replicas[q].locked_block_id) by {
            let l = sp.replicas[q].locked_block_id;
            assert(certified(h, sp, l));
            assert(l < blocks.len());
            assert(s.votes[l as int] >= sp.votes[l as int]);
            assert(s.votes[jj as int] >= sp.votes[jj as int]);
        }
    }
}

/// Two quorums of honest replicas meet: sets of honest replicas (below `h`)
/// of at least `h - f` members each, with `h >= 2f + 1`, share a member.
proof fn lemma_quorums_meet(f: usize, h: usize, a: Set<int>, b: Set<int>) -> (r: int)
    requires
        h >= 2 * f + 1,
        a.finite(),
        b.finite(),
        a.subset_of(set_int_range(0, h as int)),
        b.subset_of(set_int_range(0, h as int)),
        a.len() + f >= h,
        b.len() + f >= h,
    ensures
        a.contains(r),
        b.contains(r),
        0 <= r < h,
{
    if a.disjoint(b) {
        lemma_set_disjoint_lens(a, b);
        lemma_int_range(0, h as int);
        lemma_len_subset(a + b, set_int_range(0, h as int));
        assert(false);
    }
    let r = choose|r: int| a.contains(r) && b.contains(r);
    assert(set_int_range(0, h as int).contains(r));
    r
}

/// The first moment a block other than the root is certified.
proof fn lemma_first_certified(
    f: usize,
    h: usize,
    blocks: Seq<Block>,
    events: Seq<ModelEvent>,
    t: int,
    v: BlockId,
) -> (t0: int)
    requires
        safety_setting(f, h, blocks, events),
        0 <= t <= events.len(),
        v < blocks.len(),
        v != ROOT,
        certified(h, state_at(f, h, blocks, events, t), v),
    ensures
        0 < t0 <= t,
        certified(h, state_at(f, h, blocks, events, t0), v),
        !certified(h, state_at(f, h, blocks, events, t0 - 1), v),
    decreases t,
{
    if t == 0 {
        assert(events.take(0) =~= Seq::<ModelEvent>::empty());
        assert(state_at(f, h, blocks, events, 0) == initial_model(f, h, blocks));
        assert(false);
        0
    } else if certified(h, state_at(f, h, blocks, events, t - 1), v) {
        lemma_first_certified(f, h, blocks, events, t - 1, v)
    } else {
        t
    }
}

/// Two blocks of one height certified at one moment are the same block.
proof fn lemma_certified_same_height(
    f: usize,
    h: usize,
    blocks: Seq<Block>,
    events: Seq<ModelEvent>,
    t: int,
    x: BlockId,
    y: BlockId,
)
    requires
        safety_setting(f, h, blocks, events),
        0 <= t <= events.len(),
        x < blocks.len(),
        y < blocks.len(),
        certified(h, state_at(f, h, blocks, events, t), x),
        certified(h, state_at(f, h, blocks, events, t), y),
        blocks[x as int].height == blocks[y as int].height,
    ensures
        x == y,
{
    lemma_prefix_valid(h, blocks.len(), events, t);
    if x != y {
        crate::hotstuff::lemma_one_certified_block_per_height(f, h, blocks, events.take(t), x, y);
    }
}

/// The shape of a committing three-chain `b <- b' <- b''` whose tail `b` is
/// not the root: consecutive heights, each extending the one before, and
/// all three certified when `b''` is.
proof fn lemma_chain_shape(
    f: usize,
    h: usize,
    blocks: Seq<Block>,
    events: Seq<ModelEvent>,
    t: int,
    b2: BlockId,
)
    requires
        safety_setting(f, h, blocks, events),
        0 <= t <= events.len(),
        b2 < blocks.len(),
        commit_of_update(blocks, b2) is Some,
        commit_of_update(blocks, b2)->0 != ROOT,
    ensures
        ({
            let b1 = blocks[b2 as int].justify;
            let b0 = blocks[b1 as int].justify;
            &&& b1 < blocks.len()
            &&& b0 < blocks.len()
            &&& b0 == commit_of_update(blocks, b2)->0
            &&& blocks[b1 as int].height == blocks[b0 as int].height + 1
            &&& blocks[b2 as int].height == blocks[b1 as int].height + 1
            &&& spec_extends(blocks, b2, b1)
            &&& spec_extends(blocks, b1, b0)
            &&& spec_extends(blocks, b2, b0)
            &&& certified(h, state_at(f, h, blocks, events, t), b2) ==> certified(
                h,
                state_at(f, h, blocks, events, t),
                b1,
            ) && certified(h, state_at(f, h, blocks, events, t), b0)
        }),
{
    let b1 = blocks[b2 as int].justify;
    let b0 = blocks[b1 as int].justify;
    assert(blocks[b2 as int].id == b2);
    assert(b1 < blocks.len());
    assert(blocks[b1 as int].id == b1);
    assert(b0 < blocks.len());
    assert(b1 != ROOT);
    assert(b2 != ROOT);
    assert(blocks[b2 as int].parent == b1);
    assert(blocks[b1 as int].parent == b0);
    assert(spec_extends(blocks, b2, b1));
    assert(spec_extends(blocks, b1, b0));
    lemma_extends_transitive(blocks, b2, b1, b0);
    if certified(h, state_at(f, h, blocks, events, t), b2) {
        lemma_justify_certified(f, h, blocks, events, t, b2);
        lemma_justify_certified(f, h, blocks, events, t, b1);
    }
}

/// A block certified at the end of the run whose height lies between the
/// tail `b` and the head `b''` of a committing three-chain (whose `b''` is
/// certified) is one of the chain's blocks, and so extends `b`.
proof fn lemma_certified_within_chain(
    f: usize,
    h: usize,
    blocks: Seq<Block>,
    events: Seq<ModelEvent>,
    b2: BlockId,
    x: BlockId,
)
    requires
        safety_setting(f, h, blocks, events),
        b2 < blocks.len(),
        commit_of_update(blocks, b2) is Some,
        commit_of_update(blocks, b2)->0 != ROOT,
        certified(h, state_at(f, h, blocks, events, events.len() as int), b2),
        x < blocks.len(),
        certified(h, state_at(f, h, blocks, events, events.len() as int), x),
        blocks[commit_of_update(blocks, b2)->0 as int].height <= blocks[x as int].height <= blocks[b2 as int].height,
    ensures
        spec_extends(blocks, x, commit_of_update(blocks, b2)->0),
{
    let n = events.len() as int;
    lemma_chain_shape(f, h, blocks, events, n, b2);
    let b1 = blocks[b2 as int].justify;
    let b0 = blocks[b1 as int].justify;
    if blocks[x as int].height == blocks[b2 as int].height {
        lemma_certified_same_height(f, h, blocks, events, n, x, b2);
    } else if blocks[x as int].height == blocks[b1 as int].height {
        lemma_certified_same_height(f, h, blocks, events, n, x, b1);
    } else {
        lemma_certified_same_height(f, h, blocks, events, n, x, b0);
        lemma_extends_basics(blocks, x);
    }
}

/// The locking argument: when the head `b''` of a committing three-chain is
/// certified by the end of a run, every block certified by then that is
/// higher than `b''` extends the committed tail `b`.
///
/// An honest replica that voted both for `b''` and for the higher block `v`
/// voted for `b''` first, which locked it at least as high as `b`; when it
/// voted for `v`, `v` either extended its certified lock or was justified by
/// a certified block higher than the lock, and both lie below `v`.
proof fn lemma_certified_above_chain(
    f: usize,
    h: usize,
    blocks: Seq<Block>,
    events: Seq<ModelEvent>,
    b2: BlockId,
    v: BlockId,
)
    requires
        safety_setting(f, h, blocks, events),
        proposals_certified(f, h, blocks, events),
        b2 < blocks.len(),
        commit_of_update(blocks, b2) is Some,
        certified(h, state_at(f, h, blocks, events, events.len() as int), b2),
        v < blocks.len(),
        certified(h, state_at(f, h, blocks, events, events.len() as int), v),
        blocks[v as int].height > blocks[b2 as int].height,
    ensures
        spec_extends(blocks, v, commit_of_update(blocks, b2)->0),
    decreases blocks[v as int].height,
{
    let n = events.len() as int;
    let b0 = commit_of_update(blocks, b2)->0;
    if b0 == ROOT {
        lemma_extends_basics(blocks, v);
        return;
    }
    lemma_chain_shape(f, h, blocks, events, n, b2);
    assert(v != ROOT);
    // The first moment `v` is certified, and an honest replica `r` among its
    // voters then that also voted for `b''`.
    let t0 = lemma_first_certified(f, h, blocks, events, n, v);
    lemma_prefix_valid(h, blocks.len(), events, t0);
    lemma_prefix_valid(h, blocks.len(), events, n);
    lemma_run_invariant(f, h, blocks, events.take(t0));
    lemma_run_invariant(f, h, blocks, events.take(n));
    let voters_v = honest_voters(f, h, blocks, events.take(t0), v);
    let voters_b2 = honest_voters(f, h, blocks, events.take(n), b2);
    assert(state_at(f, h, blocks, events, t0).votes[v as int] == f + voters_v.len());
    assert(b2 != ROOT);
    assert(state_at(f, h, blocks, events, n).votes[b2 as int] == f + voters_b2.len());
    let r = lemma_quorums_meet(f, h, voters_v, voters_b2);
    let s2 = lemma_vote_time(f, h, blocks, events, t0, r, v);
    let s1 = lemma_vote_time(f, h, blocks, events, n, r, b2);
    lemma_step_facts(f, h, blocks, events, s1);
    lemma_step_facts(f, h, blocks, events, s2);
    // `r` voted for `b''` before `v`: its voted height only rises.
    if s2 < s1 {
        lemma_monotone(f, h, blocks, events, s2 + 1, s1);
        assert(false);
    }
    assert(s1 != s2);
    lemma_monotone(f, h, blocks, events, s1 + 1, s2);
    let st2 = state_at(f, h, blocks, events, s2);
    let lock = st2.replicas[r].locked_block_id;
    assert(blocks[lock as int].height >= blocks[b0 as int].height);
    // The lock is certified, but `v` was not yet when `r` voted for it.
    lemma_locks_certified(f, h, blocks, events, s2);
    lemma_replicas_wf(f, h, blocks, events, s2);
    assert(certified(h, st2, lock));
    assert(lock < blocks.len());
    lemma_monotone(f, h, blocks, events, s2, n);
    lemma_monotone(f, h, blocks, events, s2, t0 - 1);
    assert(lock != v);
    let j = blocks[v as int].justify;
    assert(j < blocks.len());
    let x = if spec_extends(blocks, v, lock) {
        lock
    } else {
        j
    };
    assert(certified(h, state_at(f, h, blocks, events, n), x));
    assert(spec_extends(blocks, v, x) && blocks[x as int].height < blocks[v as int].height) by {
        if spec_extends(blocks, v, lock) {
            lemma_extends_iff_ancestor(blocks, v, lock);
            if blocks[v as int].height <= blocks[lock as int].height {
                lemma_extends_same_height(blocks, v, lock);
            }
        } else {
            assert(0 < v < blocks.len());
            assert(blocks[blocks[v as int].justify as int].height < blocks[v as int].height);
        }
    }
    assert(blocks[x as int].height >= blocks[b0 as int].height);
    if blocks[x as int].height > blocks[b2 as int].height {
        lemma_certified_above_chain(f, h, blocks, events, b2, x);
    } else {
        lemma_certified_within_chain(f, h, blocks, events, b2, x);
    }
    lemma_extends_transitive(blocks, v, x, b0);
}

/// The block that event `t` commits, if any: the tail of the three-chain
/// closed by the justification of its proposal.
pub open spec fn committed_at(blocks: Seq<Block>, events: Seq<ModelEvent>, t: int) -> Option<BlockId> {
    commit_of_update(blocks, blocks[events[t].block as int].justify)
}

/// Two committing three-chains whose heads are certified at the end of the
/// run commit blocks on one branch.
proof fn lemma_certified_heads_consistent(
    f: usize,
    h: usize,
    blocks: Seq<Block>,
    events: Seq<ModelEvent>,
    x1: BlockId,
    x2: BlockId,
)
    requires
        safety_setting(f, h, blocks, events),
        proposals_certified(f, h, blocks, events),
        x1 < blocks.len(),
        x2 < blocks.len(),
        commit_of_update(blocks, x1) is Some,
        commit_of_update(blocks, x2) is Some,
        certified(h, state_at(f, h, blocks, events, events.len() as int), x1),
        certified(h, state_at(f, h, blocks, events, events.len() as int), x2),
        blocks[x1 as int].height <= blocks[x2 as int].height,
    ensures
        spec_consistent(
            blocks,
            blocks[commit_of_update(blocks, x1)->0 as int],
            blocks[commit_of_update(blocks, x2)->0 as int],
        ),
{
    let n = events.len() as int;
    let c1 = commit_of_update(blocks, x1)->0;
    let c2 = commit_of_update(blocks, x2)->0;
    assert(blocks[x1 as int].justify < blocks.len());
    assert(c1 < blocks.len() && c2 < blocks.len());
    assert(blocks[c1 as int].id == c1);
    assert(blocks[c2 as int].id == c2);
    if blocks[x1 as int].height == blocks[x2 as int].height {
        lemma_certified_same_height(f, h, blocks, events, n, x1, x2);
        assert(spec_extends(blocks, c1, c2));
    } else {
        lemma_certified_above_chain(f, h, blocks, events, x1, x2);
        if c2 == ROOT {
            lemma_extends_basics(blocks, c1);
        } else {
            lemma_chain_shape(f, h, blocks, events, n, x2);
            if blocks[c2 as int].height <= blocks[c1 as int].height {
                lemma_ancestors_comparable(blocks, x2, c1, c2);
            } else {
                lemma_ancestors_comparable(blocks, x2, c2, c1);
            }
        }
    }
}

/// Safety of the HotStuff model: when every proposal carries a justification
/// that is certified on its arrival, any two blocks committed during a run
/// lie on one branch.  The premises in `safety_setting` besides the quorum
/// sizes are the shape of the blocks: `justifies_ancestors` and
/// `proposals_certified` are each needed (see their documentation);
/// `genesis_rooted` is used by the proof.
pub proof fn lemma_commits_consistent(
    f: usize,
    h: usize,
    blocks: Seq<Block>,
    events: Seq<ModelEvent>,
    t1: int,
    t2: int,
)
    requires
        safety_setting(f, h, blocks, events),
        proposals_certified(f, h, blocks, events),
        0 <= t1 < events.len(),
        0 <= t2 < events.len(),
        committed_at(blocks, events, t1) is Some,
        committed_at(blocks, events, t2) is Some,
    ensures
        spec_consistent(
            blocks,
            blocks[committed_at(blocks, events, t1)->0 as int],
            blocks[committed_at(blocks, events, t2)->0 as int],
        ),
{
    let n = events.len() as int;
    let x1 = blocks[events[t1].block as int].justify;
    let x2 = blocks[events[t2].block as int].justify;
    assert(events[t1].block < blocks.len() && events[t2].block < blocks.len());
    assert(x1 < blocks.len() && x2 < blocks.len());
    assert(certified(h, state_at(f, h, blocks, events, t1), x1));
    assert(certified(h, state_at(f, h, blocks, events, t2), x2));
    lemma_monotone(f, h, blocks, events, t1, n);
    lemma_monotone(f, h, blocks, events, t2, n);
    if blocks[x1 as int].height <= blocks[x2 as int].height {
        lemma_certified_heads_consistent(f, h, blocks, events, x1, x2);
    } else {
        lemma_certified_heads_consistent(f, h, blocks, events, x2, x1);
    }
}

/// A block held as committed after `t` events, globally or by a replica, is
/// the root or a block committed by one of those events.
proof fn lemma_committed_history(f: usize, h: usize, blocks: Seq<Block>, events: Seq<ModelEvent>, t: int)
    requires
        safety_setting(f, h, blocks, events),
        0 <= t <= events.len(),
    ensures
        ({
            let s = state_at(f, h, blocks, events, t);
            &&& s.committed == ROOT || exists|k: int|
                0 <= k < t && #[trigger] committed_at(blocks, events, k) == Some(s.committed)
            &&& forall|q: int|
                0 <= q < h + f ==> (#[trigger] s.replicas[q]).locally_committed == ROOT || exists|k: int|
                    0 <= k < t && #[trigger] committed_at(blocks, events, k) == Some(
                        s.replicas[q].locally_committed,
                    )
        }),
    decreases t,
{
    if t == 0 {
        assert(events.take(0) =~= Seq::<ModelEvent>::empty());
        assert(state_at(f, h, blocks, events, 0) == initial_model(f, h, blocks));
    } else {
        let p = t - 1;
        lemma_committed_history(f, h, blocks, events, p);
        lemma_step_facts(f, h, blocks, events, p);
        lemma_step(f, h, blocks, events, p);
        let sp = state_at(f, h, blocks, events, p);
        let s = state_at(f, h, blocks, events, t);
        let c = committed_at(blocks, events, p);
        if s.committed != ROOT {
            if s.committed != sp.committed {
                assert(c == Some(s.committed));
            } else {
                let k = choose|k: int| 0 <= k < p && #[trigger] committed_at(blocks, events, k) == Some(sp.committed);
                assert(committed_at(blocks, events, k) == Some(s.committed));
            }
        }
        assert forall|q: int| 0 <= q < h + f implies (#[trigger] s.replicas[q]).locally_committed == ROOT
            || exists|k: int|
            0 <= k < t && #[trigger] committed_at(blocks, events, k) == Some(s.replicas[q].locally_committed) by {
            let lc = s.replicas[q].locally_committed;
            if lc != ROOT {
                if lc != sp.replicas[q].locally_committed {
                    assert(q == events[p].replica);
                    assert(c == Some(lc));
                } else {
                    assert(sp.replicas[q].locally_committed == lc);
                    let k = choose|k: int| 0 <= k < p && #[trigger] committed_at(blocks, events, k) == Some(lc);
                    assert(committed_at(blocks, events, k) == Some(lc));
                }
            }
        }
    }
}

/// The safety checks of `update` never fail: each block an event commits is
/// on one branch with the globally committed block and with the block its
/// replica has committed, as they stand when it commits.  Same premises as
/// `lemma_commits_consistent`.
pub proof fn lemma_commit_agrees_with_committed(
    f: usize,
    h: usize,
    blocks: Seq<Block>,
    events: Seq<ModelEvent>,
    t: int,
)
    requires
        safety_setting(f, h, blocks, events),
        proposals_certified(f, h, blocks, events),
        0 <= t < events.len(),
        committed_at(blocks, events, t) is Some,
    ensures
        spec_consistent(
            blocks,
            blocks[committed_at(blocks, events, t)->0 as int],
            blocks[state_at(f, h, blocks, events, t).committed as int],
        ),
        spec_consistent(
            blocks,
            blocks[committed_at(blocks, events, t)->0 as int],
            blocks[state_at(f, h, blocks, events, t).replicas[events[t].replica as int].locally_committed as int],
        ),
{
    lemma_committed_history(f, h, blocks, events, t);
    let s = state_at(f, h, blocks, events, t);
    let c = committed_at(blocks, events, t)->0;
    let x = blocks[events[t].block as int].justify;
    assert(events[t].block < blocks.len() && events[t].replica < h);
    assert(x < blocks.len());
    assert(blocks[x as int].justify < blocks.len());
    assert(c < blocks.len());
    assert(blocks[c as int].id == c);
    assert(blocks[ROOT as int].id == ROOT);
    lemma_extends_basics(blocks, c);
    if s.committed != ROOT {
        let k = choose|k: int| 0 <= k < t && #[trigger] committed_at(blocks, events, k) == Some(s.committed);
        lemma_commits_consistent(f, h, blocks, events, t, k);
    }
    let lc = s.replicas[events[t].replica as int].locally_committed;
    if lc != ROOT {
        let k = choose|k: int| 0 <= k < t && #[trigger] committed_at(blocks, events, k) == Some(lc);
        lemma_commits_consistent(f, h, blocks, events, t, k);
    }
}

/// The globally committed block is the latest one: after any number of
/// events it extends every block committed by those events, when every
/// proposal carries a certified justification.
pub proof fn lemma_committed_is_latest(
    f: usize,
    h: usize,
    blocks: Seq<Block>,
    events: Seq<ModelEvent>,
    t: int,
    k: int,
)
    requires
        safety_setting(f, h, blocks, events),
        proposals_certified(f, h, blocks, events),
        0 <= k < t <= events.len(),
        committed_at(blocks, events, k) is Some,
    ensures
        spec_extends(blocks, state_at(f, h, blocks, events, t).committed, committed_at(blocks, events, k)->0),
    decreases t,
{
    let p = t - 1;
    lemma_step(f, h, blocks, events, p);
    let sp = state_at(f, h, blocks, events, p);
    let s = state_at(f, h, blocks, events, t);
    lemma_committed_history(f, h, blocks, events, p);
    let ck = committed_at(blocks, events, k)->0;
    let x = blocks[events[k].block as int].justify;
    assert(events[k].block < blocks.len());
    assert(x < blocks.len() && blocks[x as int].justify < blocks.len());
    assert(ck < blocks.len());
    let e = events[p];
    assert(e.block < blocks.len());
    let xp = blocks[e.block as int].justify;
    assert(xp < blocks.len() && blocks[xp as int].justify < blocks.len());
    // the committed block before event `p` is a block of the model
    assert(sp.committed < blocks.len()) by {
        if sp.committed != ROOT {
            let m = choose|m: int| 0 <= m < p && #[trigger] committed_at(blocks, events, m) == Some(sp.committed);
            assert(events[m].block < blocks.len());
            let xm = blocks[events[m].block as int].justify;
            assert(xm < blocks.len() && blocks[xm as int].justify < blocks.len());
        }
    }
    match committed_at(blocks, events, p) {
        Some(c) => {
            assert(c < blocks.len());
            if k < p {
                lemma_committed_is_latest(f, h, blocks, events, p, k);
            }
            if spec_extends(blocks, c, sp.committed) {
                assert(s.committed == c);
                if k < p {
                    lemma_extends_transitive(blocks, c, sp.committed, ck);
                } else {
                    lemma_extends_basics(blocks, c);
                }
            } else {
                assert(s.committed == sp.committed);
                if k == p {
                    lemma_commit_agrees_with_committed(f, h, blocks, events, p);
                    assert(blocks[c as int].id == c);
                    assert(blocks[sp.committed as int].id == sp.committed);
                }
            }
        },
        None => {
            assert(s.committed == sp.committed);
            lemma_committed_is_latest(f, h, blocks, events, p, k);
        },
    }
}

} // verus!
