//! Pacemaker timeouts and the certificates that a quorum of them forms.
use vstd::prelude::*;
use crate::common::{Author, Round};

verus! {

/// A validator's statement that round `round` timed out for it.
#[derive(Clone, Copy, Debug, PartialEq, Eq, Structural)]
pub struct PacemakerTimeout {
    pub round: Round,
    pub author: Author,
}

impl PacemakerTimeout {
    pub fn new(round: Round, author: Author) -> (t: Self)
        ensures
            t == (PacemakerTimeout { round, author }),
    {
        PacemakerTimeout { round, author }
    }

    pub fn round(&self) -> (r: Round)
        ensures
            r == self.round,
    {
        self.round
    }

    pub fn author(&self) -> (r: Author)
        ensures
            r == self.author,
    {
        self.author
    }
}

/// A quorum of timeouts that lets replicas move past round `round`.
pub struct PacemakerTimeoutCertificate {
    pub round: Round,
    pub timeouts: Vec<PacemakerTimeout>,
}

impl PacemakerTimeoutCertificate {
    pub fn new(round: Round, timeouts: Vec<PacemakerTimeout>) -> (tc: Self)
        ensures
            tc.round == round,
            tc.timeouts@ == timeouts@,
    {
        PacemakerTimeoutCertificate { round, timeouts }
    }

    pub fn round(&self) -> (r: Round)
        ensures
            r == self.round,
    {
        self.round
    }

    /// A copy of the certificate.
    pub fn duplicate(&self) -> (tc: Self)
        ensures
            tc.round == self.round,
            tc.timeouts@ == self.timeouts@,
    {
        let mut timeouts: Vec<PacemakerTimeout> = Vec::new();
        let mut i: usize = 0;
        while i < self.timeouts.len()
            invariant
                i <= self.timeouts.len(),
                timeouts@ == self.timeouts@.take(i as int),
            decreases self.timeouts.len() - i,
        {
            timeouts.push(self.timeouts[i]);
            proof {
                assert(self.timeouts@.take(i as int + 1) =~= self.timeouts@.take(i as int).push(
                    self.timeouts@[i as int],
                ));
            }
            i = i + 1;
        }
        proof {
            assert(self.timeouts@.take(i as int) =~= self.timeouts@);
        }
        PacemakerTimeoutCertificate { round: self.round, timeouts }
    }
}

/// The round of an optional certificate, zero when there is none.
pub open spec fn tc_round_or_zero(tc: Option<PacemakerTimeoutCertificate>) -> Round {
    match tc {
        Some(tc) => tc.round,
        None => 0,
    }
}

/// The highest of the local and received certificates (the received one when
/// their rounds tie).
pub open spec fn highest_of(
    local: Option<PacemakerTimeoutCertificate>,
    received: Option<PacemakerTimeoutCertificate>,
) -> Option<PacemakerTimeoutCertificate> {
    match (local, received) {
        (None, None) => None,
        (Some(l), None) => Some(l),
        (None, Some(r)) => Some(r),
        (Some(l), Some(r)) => if l.round > r.round {
            Some(l)
        } else {
            Some(r)
        },
    }
}

/// Two optional certificates are the same: both absent, or of one round with
/// the same timeouts.
pub open spec fn same_certificate(a: Option<PacemakerTimeoutCertificate>, b: Option<PacemakerTimeoutCertificate>) -> bool {
    match (a, b) {
        (None, None) => true,
        (Some(x), Some(y)) => x.round == y.round && x.timeouts@ == y.timeouts@,
        _ => false,
    }
}

/// The highest timeout certificates known: one gathered locally and one
/// received from another replica.
pub struct HighestTimeoutCertificates {
    pub highest_local_timeout_certificate: Option<PacemakerTimeoutCertificate>,
    pub highest_received_timeout_certificate: Option<PacemakerTimeoutCertificate>,
}

impl HighestTimeoutCertificates {
    pub fn new(
        highest_local_timeout_certificate: Option<PacemakerTimeoutCertificate>,
        highest_received_timeout_certificate: Option<PacemakerTimeoutCertificate>,
    ) -> (h: Self)
        ensures
            h.highest_local_timeout_certificate == highest_local_timeout_certificate,
            h.highest_received_timeout_certificate == highest_received_timeout_certificate,
    {
        HighestTimeoutCertificates { highest_local_timeout_certificate, highest_received_timeout_certificate }
    }
}

/// How many of the timeouts `s` are for round `r` or a higher round.
pub open spec fn count_at_least(s: Seq<PacemakerTimeout>, r: Round) -> nat
    decreases s.len(),
{
    if s.len() == 0 {
        0
    } else {
        count_at_least(s.drop_last(), r) + if s.last().round >= r {
            1nat
        } else {
            0nat
        }
    }
}

/// No two of the timeouts `s` come from the same author.
pub open spec fn distinct_authors(s: Seq<PacemakerTimeout>) -> bool {
    forall|i: int, j: int| 0 <= i < j < s.len() ==> #[trigger] s[i].author != #[trigger] s[j].author
}

/// `r` is the highest round such that at least `q` of the timeouts `s` are for
/// `r` or above: the `q`-th highest timeout round.
pub open spec fn is_quorum_round(s: Seq<PacemakerTimeout>, q: nat, r: Round) -> bool {
    &&& exists|i: int| 0 <= i < s.len() && #[trigger] s[i].round == r
    &&& count_at_least(s, r) >= q
    &&& forall|j: int| 0 <= j < s.len() && count_at_least(s, #[trigger] s[j].round) >= q ==> s[j].round <= r
}

/// When every timeout of `s` is for round `r` or above, all of them count.
proof fn lemma_count_all(s: Seq<PacemakerTimeout>, r: Round)
    requires
        forall|j: int| 0 <= j < s.len() ==> #[trigger] s[j].round >= r,
    ensures
        count_at_least(s, r) == s.len(),
    decreases s.len(),
{
    if s.len() > 0 {
        lemma_count_all(s.drop_last(), r);
    }
}

/// A count is never more than the number of timeouts.
proof fn lemma_count_bounded(s: Seq<PacemakerTimeout>, r: Round)
    ensures
        count_at_least(s, r) <= s.len(),
    decreases s.len(),
{
    if s.len() > 0 {
        lemma_count_bounded(s.drop_last(), r);
    }
}

/// A non-empty sequence of timeouts has one of lowest round.
proof fn lemma_lowest_exists(s: Seq<PacemakerTimeout>) -> (i: int)
    requires
        s.len() > 0,
    ensures
        0 <= i < s.len(),
        forall|j: int| 0 <= j < s.len() ==> #[trigger] s[j].round >= s[i].round,
    decreases s.len(),
{
    if s.len() == 1 {
        0
    } else {
        let k = lemma_lowest_exists(s.drop_last());
        if s.last().round < s[k].round {
            assert forall|j: int| 0 <= j < s.len() implies #[trigger] s[j].round >= s.last().round by {
                if j < s.len() - 1 {
                    assert(s.drop_last()[j] == s[j]);
                }
            }
            s.len() - 1
        } else {
            assert forall|j: int| 0 <= j < s.len() implies #[trigger] s[j].round >= s[k].round by {
                if j < s.len() - 1 {
                    assert(s.drop_last()[j] == s[j]);
                }
            }
            k
        }
    }
}

/// How many of `s` are for round `r` or above.
fn count_timeouts_at_least(s: &Vec<PacemakerTimeout>, r: Round) -> (n: usize)
    ensures
        n == count_at_least(s@, r),
{
    let mut n: usize = 0;
    let mut k: usize = 0;
    while k < s.len()
        invariant
            k <= s.len(),
            n == count_at_least(s@.take(k as int), r),
            n <= k,
        decreases s.len() - k,
    {
        proof {
            assert(s@.take(k as int + 1).drop_last() =~= s@.take(k as int));
            lemma_count_bounded(s@.take(k as int), r);
        }
        if s[k].round >= r {
            n = n + 1;
        }
        k = k + 1;
    }
    proof {
        assert(s@.take(k as int) =~= s@);
    }
    n
}

/// Collects the timeouts received, at most one per author (the highest), and
/// forms timeout certificates out of a quorum of them.
pub struct PacemakerTimeoutManager {
    /// The minimum quorum to generate a timeout certificate.
    timeout_certificate_quorum_size: usize,
    /// The timeout of highest round received from each author, one per author
    /// (`distinct_authors`), in the order the authors were first heard from.
    /// Forming a certificate walks all of them, and a keyed map offers no walk
    /// whose order is fixed, so they are kept in sequence.
    author_to_received_timeouts: Vec<PacemakerTimeout>,
    /// The highest timeout certificates.
    highest_timeout_certificates: HighestTimeoutCertificates,
}

impl PacemakerTimeoutManager {
    pub closed spec fn quorum_size(&self) -> nat {
        self.timeout_certificate_quorum_size as nat
    }

    pub closed spec fn received(&self) -> Seq<PacemakerTimeout> {
        self.author_to_received_timeouts@
    }

    pub closed spec fn highest_local(&self) -> Option<PacemakerTimeoutCertificate> {
        self.highest_timeout_certificates.highest_local_timeout_certificate
    }

    pub closed spec fn highest_received(&self) -> Option<PacemakerTimeoutCertificate> {
        self.highest_timeout_certificates.highest_received_timeout_certificate
    }

    /// The round of the highest certificate known, zero if none.
    pub open spec fn highest_round(&self) -> Round {
        tc_round_or_zero(highest_of(self.highest_local(), self.highest_received()))
    }

    /// The manager is consistent: the quorum is at least one, each author has at
    /// most one timeout, and no round is the last round (so that a round can
    /// always be followed by the next).
    pub open spec fn wf(&self) -> bool {
        &&& self.quorum_size() >= 1
        &&& distinct_authors(self.received())
        &&& forall|i: int| 0 <= i < self.received().len() ==> #[trigger] self.received()[i].round < u64::MAX
        &&& tc_round_or_zero(self.highest_local()) < u64::MAX
        &&& tc_round_or_zero(self.highest_received()) < u64::MAX
    }

    pub fn new(timeout_certificate_quorum_size: usize, highest_timeout_certificates: HighestTimeoutCertificates) -> (m: Self)
        requires
            timeout_certificate_quorum_size >= 1,
            tc_round_or_zero(highest_timeout_certificates.highest_local_timeout_certificate) < u64::MAX,
            tc_round_or_zero(highest_timeout_certificates.highest_received_timeout_certificate) < u64::MAX,
        ensures
            m.wf(),
            m.quorum_size() == timeout_certificate_quorum_size,
            m.received() == Seq::<PacemakerTimeout>::empty(),
            m.highest_local() == highest_timeout_certificates.highest_local_timeout_certificate,
            m.highest_received() == highest_timeout_certificates.highest_received_timeout_certificate,
    {
        PacemakerTimeoutManager {
            timeout_certificate_quorum_size,
            author_to_received_timeouts: Vec::new(),
            highest_timeout_certificates,
        }
    }

    /// The highest certificate known, local or received (the received one when
    /// their rounds tie).
    /// A copy of the highest local and received certificates.
    pub fn highest_timeout_certificates(&self) -> (r: HighestTimeoutCertificates)
        ensures
            same_certificate(r.highest_local_timeout_certificate, self.highest_local()),
            same_certificate(r.highest_received_timeout_certificate, self.highest_received()),
    {
        let local = match &self.highest_timeout_certificates.highest_local_timeout_certificate {
            Some(tc) => Some(tc.duplicate()),
            None => None,
        };
        let received = match &self.highest_timeout_certificates.highest_received_timeout_certificate {
            Some(tc) => Some(tc.duplicate()),
            None => None,
        };
        HighestTimeoutCertificates {
            highest_local_timeout_certificate: local,
            highest_received_timeout_certificate: received,
        }
    }

    pub fn highest_timeout_certificate(&self) -> (r: Option<PacemakerTimeoutCertificate>)
        ensures
            match (r, highest_of(self.highest_local(), self.highest_received())) {
                (Some(a), Some(b)) => a.round == b.round && a.timeouts@ == b.timeouts@,
                (None, None) => true,
                _ => false,
            },
    {
        let local = &self.highest_timeout_certificates.highest_local_timeout_certificate;
        let received = &self.highest_timeout_certificates.highest_received_timeout_certificate;
        match local {
            None => match received {
                None => None,
                Some(r) => Some(r.duplicate()),
            },
            Some(l) => match received {
                None => Some(l.duplicate()),
                Some(r) => if l.round > r.round {
                    Some(l.duplicate())
                } else {
                    Some(r.duplicate())
                },
            },
        }
    }

    /// Records a certificate received from another replica if it is higher than
    /// the highest received so far.
    pub fn update_highest_received_timeout_certificate(&mut self, tc: &PacemakerTimeoutCertificate)
        requires
            old(self).wf(),
            tc.round < u64::MAX,
        ensures
            final(self).wf(),
            received_certificate_recorded(*old(self), *final(self), *tc),
    {
        let current = match &self.highest_timeout_certificates.highest_received_timeout_certificate {
            Some(c) => c.round,
            None => 0,
        };
        if tc.round > current {
            self.highest_timeout_certificates.highest_received_timeout_certificate = Some(tc.duplicate());
        }
    }

    /// Forms a certificate from a quorum of `quorum_size` received timeouts:
    /// its round is the highest round that at least `quorum_size` authors
    /// timed out at or above, and it holds `quorum_size` such timeouts of
    /// distinct authors.  `None` when fewer than `quorum_size` timeouts are known.
    pub fn generate_timeout_certificate(&self, quorum_size: usize) -> (r: Option<PacemakerTimeoutCertificate>)
        requires
            self.wf(),
            quorum_size >= 1,
        ensures
            self.received().len() < quorum_size ==> r is None,
            self.received().len() >= quorum_size ==> r is Some && {
                let tc = r->0;
                &&& is_quorum_round(self.received(), quorum_size as nat, tc.round)
                &&& tc.timeouts@.len() == quorum_size
                &&& distinct_authors(tc.timeouts@)
                &&& forall|t: int| 0 <= t < tc.timeouts@.len() ==> self.received().contains(
                    #[trigger] tc.timeouts@[t],
                ) && tc.timeouts@[t].round >= tc.round
            },
    {
        let s = &self.author_to_received_timeouts;
        let n = s.len();
        if n < quorum_size {
            return None;
        }
        let mut best: Round = 0;
        let mut found = false;
        let mut i: usize = 0;
        while i < n
            invariant
                n == s@.len(),
                i <= n,
                found ==> (exists|j: int| 0 <= j < i && #[trigger] s@[j].round == best) && count_at_least(
                    s@,
                    best,
                ) >= quorum_size,
                forall|j: int|
                    0 <= j < i && count_at_least(s@, #[trigger] s@[j].round) >= quorum_size ==> found
                        && s@[j].round <= best,
            decreases n - i,
        {
            let c = count_timeouts_at_least(s, s[i].round);
            if c >= quorum_size && (!found || s[i].round > best) {
                best = s[i].round;
                found = true;
            }
            i = i + 1;
        }
        proof {
            let m = lemma_lowest_exists(s@);
            lemma_count_all(s@, s@[m].round);
            assert(count_at_least(s@, s@[m].round) >= quorum_size);
        }
        let mut timeouts: Vec<PacemakerTimeout> = Vec::new();
        let ghost mut idx: Seq<int> = Seq::empty();
        let mut k: usize = 0;
        while k < n
            invariant
                n == s@.len(),
                k <= n,
                distinct_authors(s@),
                count_at_least(s@, best) >= quorum_size,
                timeouts@.len() == (if count_at_least(s@.take(k as int), best) < quorum_size {
                    count_at_least(s@.take(k as int), best)
                } else {
                    quorum_size as nat
                }),
                idx.len() == timeouts@.len(),
                forall|t: int| 0 <= t < idx.len() ==> 0 <= #[trigger] idx[t] < k,
                forall|t: int, u: int| 0 <= t < u < idx.len() ==> #[trigger] idx[t] < #[trigger] idx[u],
                forall|t: int| 0 <= t < idx.len() ==> #[trigger] timeouts@[t] == s@[idx[t]],
                forall|t: int| 0 <= t < idx.len() ==> s@[#[trigger] idx[t]].round >= best,
            decreases n - k,
        {
            proof {
                assert(s@.take(k as int + 1).drop_last() =~= s@.take(k as int));
            }
            if s[k].round >= best && timeouts.len() < quorum_size {
                let ghost before = timeouts@;
                let ghost old_idx = idx;
                timeouts.push(s[k]);
                proof {
                    idx = idx.push(k as int);
                    assert forall|t: int| 0 <= t < idx.len() implies #[trigger] timeouts@[t] == s@[idx[t]]
                        && s@[idx[t]].round >= best by {
                        if t < before.len() {
                            assert(timeouts@[t] == before[t]);
                            assert(idx[t] == old_idx[t]);
                            assert(before[t] == s@[old_idx[t]]);
                        } else {
                            assert(idx[t] == k as int);
                            assert(timeouts@[t] == s@[k as int]);
                        }
                    }
                }
            }
            k = k + 1;
        }
        proof {
            assert(s@.take(k as int) =~= s@);
            assert forall|t: int, u: int| 0 <= t < u < timeouts@.len() implies #[trigger] timeouts@[t].author
                != #[trigger] timeouts@[u].author by {
                assert(idx[t] < idx[u]);
            }
            assert forall|t: int| 0 <= t < timeouts@.len() implies self.received().contains(
                #[trigger] timeouts@[t],
            ) && timeouts@[t].round >= best by {
                assert(s@[idx[t]] == timeouts@[t]);
                assert(s@[idx[t]].round >= best);
            }
        }
        Some(PacemakerTimeoutCertificate { round: best, timeouts })
    }

    /// Records a timeout received from its author, unless that author already
    /// sent one for the same or a higher round (then nothing changes and the
    /// answer is `false`).  When the received timeouts then form a certificate
    /// higher than the highest local one, it becomes the highest local
    /// certificate and the answer is `true`.
    pub fn update_received_timeout(&mut self, pacemaker_timeout: PacemakerTimeout) -> (r: bool)
        requires
            old(self).wf(),
            pacemaker_timeout.round < u64::MAX,
        ensures
            final(self).wf(),
            timeout_recorded(*old(self), *final(self), pacemaker_timeout, r),
    {
        let ghost old_received = self.author_to_received_timeouts@;
        let mut pos: Option<usize> = None;
        let mut i: usize = 0;
        while i < self.author_to_received_timeouts.len()
            invariant
                i <= self.author_to_received_timeouts.len(),
                self.author_to_received_timeouts@ == old_received,
                pos is None ==> forall|j: int|
                    0 <= j < i ==> #[trigger] old_received[j].author != pacemaker_timeout.author,
                pos is Some ==> pos->0 < old_received.len() && old_received[pos->0 as int].author
                    == pacemaker_timeout.author,
            decreases self.author_to_received_timeouts.len() - i,
        {
            if pos.is_none() && self.author_to_received_timeouts[i].author == pacemaker_timeout.author {
                pos = Some(i);
            }
            i = i + 1;
        }
        match pos {
            Some(p) => {
                if self.author_to_received_timeouts[p].round >= pacemaker_timeout.round {
                    return false;
                }
                proof {
                    assert forall|j: int|
                        0 <= j < old_received.len() && #[trigger] old_received[j].author
                            == pacemaker_timeout.author implies j == p as int by {
                        if j != p as int {
                            if j < p as int {
                                assert(old_received[j].author != old_received[p as int].author);
                            } else {
                                assert(old_received[p as int].author != old_received[j].author);
                            }
                        }
                    }
                }
                self.author_to_received_timeouts.set(p, pacemaker_timeout);
            },
            None => {
                self.author_to_received_timeouts.push(pacemaker_timeout);
            },
        }
        proof {
            let s = self.author_to_received_timeouts@;
            assert forall|a: int, b: int| 0 <= a < b < s.len() implies #[trigger] s[a].author
                != #[trigger] s[b].author by {
                if pos is None {
                    if b == s.len() - 1 {
                        assert(old_received[a].author != pacemaker_timeout.author);
                    } else {
                        assert(old_received[a].author != old_received[b].author);
                    }
                } else {
                    let p = pos->0 as int;
                    if a == p {
                        assert(old_received[p].author != old_received[b].author);
                    } else if b == p {
                        assert(old_received[a].author != old_received[p].author);
                    } else {
                        assert(old_received[a].author != old_received[b].author);
                    }
                }
            }
            assert forall|j: int| 0 <= j < s.len() implies #[trigger] s[j].round < u64::MAX by {
                if s[j] != pacemaker_timeout {
                    assert(old_received.contains(s[j]));
                }
            }
        }
        let highest_tc = match self.generate_timeout_certificate(self.timeout_certificate_quorum_size) {
            None => {
                return false;
            },
            Some(tc) => tc,
        };
        let prev_round = match &self.highest_timeout_certificates.highest_local_timeout_certificate {
            Some(tc) => tc.round,
            None => 0,
        };
        proof {
            lemma_quorum_round_unique(
                self.author_to_received_timeouts@,
                self.timeout_certificate_quorum_size as nat,
            );
        }
        if highest_tc.round > prev_round {
            let ghost q = highest_tc.round;
            self.highest_timeout_certificates.highest_local_timeout_certificate = Some(highest_tc);
            proof {
                assert(is_quorum_round(self.received(), self.quorum_size(), q));
                if pos is Some {
                    let p = pos->0 as int;
                    assert(old_received[p].author == pacemaker_timeout.author);
                    assert(self.received() == old_received.update(p, pacemaker_timeout));
                }
            }
            return true;
        }
        false
    }
}

/// `tc` is made of `q` received timeouts of distinct authors, each for the
/// certificate's round or above.
pub open spec fn certificate_from(received: Seq<PacemakerTimeout>, q: nat, tc: PacemakerTimeoutCertificate) -> bool {
    &&& tc.timeouts@.len() == q
    &&& distinct_authors(tc.timeouts@)
    &&& forall|t: int|
        0 <= t < tc.timeouts@.len() ==> received.contains(#[trigger] tc.timeouts@[t]) && tc.timeouts@[t].round
            >= tc.round
}

/// `new` is `old` after receiving the timeout `t`, with answer `r`: a timeout
/// of an author that already sent one for the same or a higher round changes
/// nothing; otherwise it replaces that author's timeout (or is added), and when
/// the received timeouts then form a certificate higher than the highest local
/// one, that certificate becomes the highest local one and the answer is `true`.
pub open spec fn timeout_recorded(
    old: PacemakerTimeoutManager,
    new: PacemakerTimeoutManager,
    t: PacemakerTimeout,
    r: bool,
) -> bool {
    let superseded = exists|i: int|
        0 <= i < old.received().len() && #[trigger] old.received()[i].author == t.author
            && old.received()[i].round >= t.round;
    &&& new.quorum_size() == old.quorum_size()
    &&& new.highest_received() == old.highest_received()
    &&& superseded ==> !r && new == old
    &&& !superseded ==> {
        &&& (exists|i: int|
            0 <= i < old.received().len() && #[trigger] old.received()[i].author == t.author
                && new.received() == old.received().update(i, t)) || ((forall|i: int|
            0 <= i < old.received().len() ==> #[trigger] old.received()[i].author != t.author)
            && new.received() == old.received().push(t))
        &&& r <==> (new.received().len() >= new.quorum_size() && exists|q: Round|
            is_quorum_round(new.received(), new.quorum_size(), q) && q > tc_round_or_zero(
                old.highest_local(),
            ))
        &&& r ==> new.highest_local() is Some && is_quorum_round(
            new.received(),
            new.quorum_size(),
            new.highest_local()->0.round,
        ) && certificate_from(new.received(), new.quorum_size(), new.highest_local()->0)
        &&& !r ==> new.highest_local() == old.highest_local()
    }
}

/// `new` is `old` after a certificate `tc` was received from another replica:
/// it becomes the highest received certificate if it is higher than that one.
pub open spec fn received_certificate_recorded(
    old: PacemakerTimeoutManager,
    new: PacemakerTimeoutManager,
    tc: PacemakerTimeoutCertificate,
) -> bool {
    &&& new.quorum_size() == old.quorum_size()
    &&& new.received() == old.received()
    &&& new.highest_local() == old.highest_local()
    &&& tc.round > tc_round_or_zero(old.highest_received()) ==> new.highest_received() is Some
        && new.highest_received()->0.round == tc.round && new.highest_received()->0.timeouts@
        == tc.timeouts@
    &&& tc.round <= tc_round_or_zero(old.highest_received()) ==> new.highest_received()
        == old.highest_received()
}

/// There is at most one quorum round.
pub proof fn lemma_quorum_round_unique(s: Seq<PacemakerTimeout>, q: nat)
    ensures
        forall|a: Round, b: Round| is_quorum_round(s, q, a) && is_quorum_round(s, q, b) ==> a == b,
{
    assert forall|a: Round, b: Round| is_quorum_round(s, q, a) && is_quorum_round(s, q, b) implies a
        == b by {
        let ia = choose|i: int| 0 <= i < s.len() && #[trigger] s[i].round == a;
        let ib = choose|i: int| 0 <= i < s.len() && #[trigger] s[i].round == b;
        assert(count_at_least(s, s[ia].round) >= q);
        assert(count_at_least(s, s[ib].round) >= q);
    }
}

/// The highest of two optional certificates is one of them, present when
/// either is, and its round is the larger of their rounds.
pub proof fn lemma_highest_of_is_the_larger(
    local: Option<PacemakerTimeoutCertificate>,
    received: Option<PacemakerTimeoutCertificate>,
)
    ensures
        highest_of(local, received) is None <==> (local is None && received is None),
        highest_of(local, received) == local || highest_of(local, received) == received,
        tc_round_or_zero(highest_of(local, received)) >= tc_round_or_zero(local),
        tc_round_or_zero(highest_of(local, received)) >= tc_round_or_zero(received),
{
}

} // verus!
