use consensus_model::hotstuff::{
    block_invariant, consistent, extends, hash, initial_stores, on_receive_proposal, run_model, update, Block,
    ModelEvent, ROOT,
};

fn b(id: usize, parent: usize, height: usize, justify: usize) -> Block {
    Block { parent, height, justify, id }
}

/// root(0) <- 1 <- 2 <- 3 on one branch, and 4 <- 5 <- 6 on another (4's parent is root).
/// Each block justifies its parent.
fn forked_blocks() -> Vec<Block> {
    vec![
        b(0, 0, 0, 0),
        b(1, 0, 1, 0),
        b(2, 1, 2, 1),
        b(3, 2, 3, 2),
        b(4, 0, 1, 0),
        b(5, 4, 2, 4),
        b(6, 5, 3, 5),
    ]
}

#[test]
fn extends_follows_parent_links() {
    let blocks = forked_blocks();
    assert!(extends(&blocks, 3, 1));
    assert!(extends(&blocks, 3, 3));
    assert!(extends(&blocks, 3, ROOT));
    assert!(!extends(&blocks, 1, 3));
    assert!(!extends(&blocks, 6, 2));
    assert!(consistent(&blocks, blocks[3], blocks[1]));
    assert!(!consistent(&blocks, blocks[3], blocks[5]));
    assert_eq!(hash(blocks[5]), 5);
    assert!(block_invariant(&blocks, 5));
    assert!(block_invariant(&blocks, ROOT));
}

#[test]
fn initial_state_of_the_model() {
    let blocks = forked_blocks();
    let (votes, replicas) = initial_stores(1, 3, &blocks);
    assert_eq!(votes.map_block_votes[ROOT], 4);
    assert_eq!(votes.map_block_votes[3], 1);
    assert_eq!(replicas.map_replica_state.len(), 4);
    assert_eq!(replicas.map_replica_state[2].locked_block_id, ROOT);
}

#[test]
fn replica_votes_once_per_height() {
    let blocks = forked_blocks();
    let (mut votes, mut replicas) = initial_stores(1, 3, &blocks);
    let mut committed = ROOT;
    // block 1 justifies the root, which has 4 >= 3 votes
    on_receive_proposal(3, 1, &blocks, 0, &mut replicas, 1, &mut votes, true, &mut committed);
    assert_eq!(votes.map_block_votes[1], 2);
    assert_eq!(replicas.map_replica_state[0].vheight, 1);
    // block 4 is also at height 1: no second vote
    on_receive_proposal(3, 1, &blocks, 0, &mut replicas, 4, &mut votes, true, &mut committed);
    assert_eq!(votes.map_block_votes[4], 1);
    // the nondeterministic choice can withhold a vote
    on_receive_proposal(3, 1, &blocks, 1, &mut replicas, 1, &mut votes, false, &mut committed);
    assert_eq!(votes.map_block_votes[1], 2);
    assert_eq!(replicas.map_replica_state[1].vheight, 0);
}

#[test]
fn three_chain_of_direct_parents_commits() {
    let blocks = forked_blocks();
    let (_votes, mut replicas) = initial_stores(1, 3, &blocks);
    let mut committed = ROOT;
    // 3 justifies 2, 2 justifies 1: 3 <- 2 <- 1 with direct parents commits 1
    update(&blocks, 0, &mut replicas, 3, &mut committed);
    assert_eq!(committed, 1);
    assert_eq!(replicas.map_replica_state[0].locally_committed, 1);
    assert_eq!(replicas.map_replica_state[0].locked_block_id, 2);
}

#[test]
fn update_alone_can_commit_conflicting_branches() {
    // The model's update commits any direct three-chain it is shown, whether or
    // not its blocks gathered votes: it commits block 1, then block 4 on the
    // other branch.
    let blocks = forked_blocks();
    let (_votes, mut replicas) = initial_stores(1, 3, &blocks);
    let mut committed = ROOT;
    update(&blocks, 0, &mut replicas, 3, &mut committed);
    assert_eq!(committed, 1);
    update(&blocks, 1, &mut replicas, 6, &mut committed);
    assert_eq!(replicas.map_replica_state[1].locally_committed, 4);
    assert!(!consistent(&blocks, blocks[1], blocks[4]));
    // 4 does not extend 1: the global committed block stays 1
    assert_eq!(committed, 1);
}

#[test]
fn certified_run_commits_on_one_branch() {
    // root(0) <- 1 <- 2 <- 3 <- 4, and a fork 5 <- 6 off the root; every block
    // justifies its parent. Three honest replicas (f = 1) vote in turn for
    // 1, 2, 3 and 4, each proposal justified by the block certified just before.
    let blocks = vec![
        b(0, 0, 0, 0),
        b(1, 0, 1, 0),
        b(2, 1, 2, 1),
        b(3, 2, 3, 2),
        b(4, 3, 4, 3),
        b(5, 0, 1, 0),
        b(6, 5, 2, 5),
    ];
    let mut events = Vec::new();
    for block in 1..5 {
        for replica in 0..3 {
            events.push(ModelEvent { replica, block, nondet: true });
        }
    }
    // a late proposal on the fork, justified by the root: nobody votes for it
    events.push(ModelEvent { replica: 0, block: 5, nondet: true });
    let (votes, replicas, committed) = run_model(1, 3, &blocks, &events);
    assert_eq!(votes.map_block_votes[1], 4);
    assert_eq!(votes.map_block_votes[3], 4);
    assert_eq!(votes.map_block_votes[5], 1);
    // the proposal of 4 closes 3 <- 2 <- 1: block 1 is committed
    assert_eq!(committed, 1);
    for r in 0..3 {
        let state = replicas.map_replica_state[r];
        assert_eq!(state.locally_committed, 1);
        assert_eq!(state.locked_block_id, 2);
        assert_eq!(state.vheight, 4);
        assert!(consistent(&blocks, blocks[state.locally_committed], blocks[committed]));
    }
}

#[test]
fn two_blocks_of_one_height_are_never_both_certified() {
    // Blocks 1 and 4 are both at height 1. Replicas 0 and 1 vote for 1,
    // replica 2 for 4; then every replica is offered the other block too.
    let blocks = forked_blocks();
    let events = vec![
        ModelEvent { replica: 0, block: 1, nondet: true },
        ModelEvent { replica: 1, block: 1, nondet: true },
        ModelEvent { replica: 2, block: 4, nondet: true },
        ModelEvent { replica: 0, block: 4, nondet: true },
        ModelEvent { replica: 1, block: 4, nondet: true },
        ModelEvent { replica: 2, block: 1, nondet: true },
    ];
    let (votes, _replicas, committed) = run_model(1, 3, &blocks, &events);
    assert_eq!(votes.map_block_votes[1], 3);
    assert_eq!(votes.map_block_votes[4], 2);
    assert!(!(votes.map_block_votes[1] >= 3 && votes.map_block_votes[4] >= 3));
    assert_eq!(committed, ROOT);
}

#[test]
fn committed_block_is_the_later_one_not_the_larger_id() {
    // root(0) <- 7 <- 6 <- 5 <- 4 <- 3: ids fall along the chain; each block
    // justifies its parent.
    let blocks = vec![
        b(0, 0, 0, 0),
        b(1, 0, 1, 0),
        b(2, 0, 1, 0),
        b(3, 4, 5, 4),
        b(4, 5, 4, 5),
        b(5, 6, 3, 6),
        b(6, 7, 2, 7),
        b(7, 0, 1, 0),
    ];
    let (_votes, mut replicas) = initial_stores(1, 3, &blocks);
    let mut committed = ROOT;
    // 5 <- 6 <- 7: commits 7
    update(&blocks, 0, &mut replicas, 5, &mut committed);
    assert_eq!(committed, 7);
    // 4 <- 5 <- 6: commits 6, which extends 7
    update(&blocks, 0, &mut replicas, 4, &mut committed);
    assert_eq!(committed, 6);
    // 3 <- 4 <- 5: commits 5
    update(&blocks, 0, &mut replicas, 3, &mut committed);
    assert_eq!(committed, 5);
    assert_eq!(replicas.map_replica_state[0].locally_committed, 5);
    // the older three-chain 6 <- 7 <- root commits the root: nothing moves back
    update(&blocks, 0, &mut replicas, 6, &mut committed);
    assert_eq!(committed, 5);
    assert_eq!(replicas.map_replica_state[0].locally_committed, 5);
}

#[test]
fn justification_off_the_branch_lets_a_conflicting_block_commit() {
    // One honest replica (f = 0): each vote certifies. Branch a: root <- 1 <- 2
    // <- 3 <- 4; branch c: root <- 5 <- 6 <- ... <- 12 (heights 1..8). Every
    // block justifies its parent, except 9 (height 5), justified by 4, which
    // is not its ancestor. Every proposal's justification is certified.
    let mut blocks = vec![b(0, 0, 0, 0), b(1, 0, 1, 0), b(2, 1, 2, 1), b(3, 2, 3, 2), b(4, 3, 4, 3)];
    for k in 1..9usize {
        let id = 4 + k;
        let parent = if k == 1 { 0 } else { id - 1 };
        let justify = if k == 5 { 4 } else { parent };
        blocks.push(b(id, parent, k, justify));
    }
    let events: Vec<ModelEvent> =
        [1, 2, 3, 4, 9, 10, 11, 12].iter().map(|&block| ModelEvent { replica: 0, block, nondet: true }).collect();
    let (votes, replicas, committed) = run_model(0, 1, &blocks, &events);
    for id in [1, 2, 3, 4, 9, 10, 11] {
        assert_eq!(votes.map_block_votes[id], 1);
    }
    // block 2 was committed on branch a, and the last proposal closes
    // 11 <- 10 <- 9 on branch c: block 9 is committed too, and conflicts
    assert_eq!(committed, 2);
    assert_eq!(replicas.map_replica_state[0].locally_committed, 2);
    assert!(!consistent(&blocks, blocks[9], blocks[2]));
    // the update that the last proposal makes (with its justification 11) commits 9
    let (_v, mut fresh) = initial_stores(0, 1, &blocks);
    let mut c = ROOT;
    update(&blocks, 0, &mut fresh, 11, &mut c);
    assert_eq!(c, 9);
}
