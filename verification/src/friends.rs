//! The friend-relationship state machine.
//!
//! Relationships are directed edges keyed by an ordered pair of users, each
//! carrying a lifecycle status. A request creates a pending edge in the
//! direction of the request and is idempotent if the edge already exists in
//! any state; mutual simultaneous requests leave two pending edges and are
//! never auto-accepted. An accept marks the requested direction accepted and
//! ensures the reciprocal edge exists as accepted — created if absent,
//! promoted if a crossing request had left it pending — so accepted
//! relationships always come in reciprocal pairs. No transition ever deletes
//! an edge.

use crate::table::{has_key, keys_unique, lemma_key_at, lemma_push_row, lemma_update_value,
    value_of};
use vstd::prelude::*;

verus! {

/// Lifecycle state of one directed edge.
#[derive(Clone, Copy, PartialEq, Eq, Structural, Debug)]
pub enum Status {
    Pending,
    Accepted,
}

/// One directed relationship record.
pub struct FriendEdge {
    pub from: String,
    pub to: String,
    pub status: Status,
}

/// All relationship records, keyed by the ordered (from, to) pair.
pub struct FriendGraph {
    edges: Vec<FriendEdge>,
}

impl FriendGraph {
    /// The edge rows, abstractly: each record as its ordered user pair with
    /// its status.
    pub closed spec fn rows(&self) -> Seq<((Seq<char>, Seq<char>), Status)> {
        self.edges@.map(|i: int, e: FriendEdge| ((e.from@, e.to@), e.status))
    }

    /// At most one record exists per ordered pair.
    pub open spec fn valid(&self) -> bool {
        keys_unique(self.rows())
    }

    /// Whether a record for the directed pair exists.
    pub open spec fn has_edge(&self, from: Seq<char>, to: Seq<char>) -> bool {
        has_key(self.rows(), (from, to))
    }

    /// The status of the directed pair (meaningful only under `has_edge`).
    pub open spec fn status_of(&self, from: Seq<char>, to: Seq<char>) -> Status {
        value_of(self.rows(), (from, to))
    }

    /// A graph with no relationships yet.
    pub fn new() -> (g: FriendGraph)
        ensures
            g.valid(),
            forall|a: Seq<char>, b: Seq<char>| !g.has_edge(a, b),
    {
        FriendGraph { edges: Vec::new() }
    }

    /// The index of the record for the directed pair, if one exists.
    fn find_edge(&self, from: &String, to: &String) -> (r: Option<usize>)
        ensures
            match r {
                Some(i) => i < self.rows().len() && self.rows()[i as int].0 == (from@, to@),
                None => !self.has_edge(from@, to@),
            },
    {
        let mut i: usize = 0;
        while i < self.edges.len()
            invariant
                i <= self.edges.len(),
                forall|j: int| 0 <= j < i ==> (#[trigger] self.rows()[j]).0 != (from@, to@),
            decreases self.edges.len() - i,
        {
            if self.edges[i].from.eq(from) && self.edges[i].to.eq(to) {
                return Some(i);
            }
            i = i + 1;
        }
        None
    }

    /// The status of the directed pair, or nothing if no record exists.
    pub fn edge_status(&self, from: &String, to: &String) -> (r: Option<Status>)
        requires
            self.valid(),
        ensures
            match r {
                Some(s) => self.has_edge(from@, to@) && s == self.status_of(from@, to@),
                None => !self.has_edge(from@, to@),
            },
    {
        match self.find_edge(from, to) {
            Some(i) => {
                proof {
                    lemma_key_at(self.rows(), i as int);
                }
                Some(self.edges[i].status)
            },
            None => None,
        }
    }

    /// A friend request from `from` to `to`: creates the pending edge in the
    /// direction of the request, or does nothing if any edge already exists
    /// in that direction. A pending edge in the opposite direction is left
    /// alone: mutual requests stay pending rather than auto-accepting.
    pub fn request_friend(&mut self, from: &String, to: &String)
        requires
            old(self).valid(),
            from@ != to@,
        ensures
            final(self).valid(),
            request_step(*old(self), *final(self), from@, to@),
    {
        match self.find_edge(from, to) {
            Some(i) => {
                proof {
                    lemma_key_at(self.rows(), i as int);
                }
            },
            None => {
                self.edges.push(
                    FriendEdge { from: from.clone(), to: to.clone(), status: Status::Pending },
                );
                proof {
                    assert(self.rows() =~= old(self).rows().push(((from@, to@), Status::Pending)));
                    lemma_push_row(old(self).rows(), self.rows(), (from@, to@), Status::Pending);
                }
            },
        }
    }

    /// Accept the request from `from` to `to`: the requested direction
    /// becomes accepted (created if the pending edge was lost), and the
    /// reciprocal edge ends accepted as well — created if absent, promoted
    /// if a crossing request had left it pending. Both halves are
    /// idempotent, so accepted edges always come in reciprocal pairs.
    pub fn accept_friend(&mut self, from: &String, to: &String)
        requires
            old(self).valid(),
        ensures
            final(self).valid(),
            accept_step(*old(self), *final(self), from@, to@),
    {
        let ghost pre = *old(self);
        match self.find_edge(from, to) {
            Some(i) => {
                self.edges[i] = FriendEdge {
                    from: from.clone(),
                    to: to.clone(),
                    status: Status::Accepted,
                };
                proof {
                    assert(self.rows() =~= pre.rows().update(
                        i as int,
                        ((from@, to@), Status::Accepted),
                    ));
                    lemma_update_value(
                        pre.rows(),
                        self.rows(),
                        i as int,
                        (from@, to@),
                        Status::Accepted,
                    );
                }
            },
            None => {
                self.edges.push(
                    FriendEdge { from: from.clone(), to: to.clone(), status: Status::Accepted },
                );
                proof {
                    assert(self.rows() =~= pre.rows().push(((from@, to@), Status::Accepted)));
                    lemma_push_row(pre.rows(), self.rows(), (from@, to@), Status::Accepted);
                }
            },
        }
        let ghost mid = *self;
        match self.find_edge(to, from) {
            Some(j) => {
                self.edges[j] = FriendEdge {
                    from: to.clone(),
                    to: from.clone(),
                    status: Status::Accepted,
                };
                proof {
                    assert(self.rows() =~= mid.rows().update(
                        j as int,
                        ((to@, from@), Status::Accepted),
                    ));
                    lemma_update_value(
                        mid.rows(),
                        self.rows(),
                        j as int,
                        (to@, from@),
                        Status::Accepted,
                    );
                }
            },
            None => {
                self.edges.push(
                    FriendEdge { from: to.clone(), to: from.clone(), status: Status::Accepted },
                );
                proof {
                    assert(self.rows() =~= mid.rows().push(((to@, from@), Status::Accepted)));
                    lemma_push_row(mid.rows(), self.rows(), (to@, from@), Status::Accepted);
                }
            },
        }
    }
}

/// How `request_friend` changes the graph: the requested direction exists,
/// was created pending if it was absent, kept its status if it was not, and
/// every other directed pair is exactly as it was.
pub open spec fn request_step(
    pre: FriendGraph,
    post: FriendGraph,
    a: Seq<char>,
    b: Seq<char>,
) -> bool {
    &&& post.has_edge(a, b)
    &&& pre.has_edge(a, b) ==> post.status_of(a, b) == pre.status_of(a, b)
    &&& !pre.has_edge(a, b) ==> post.status_of(a, b) == Status::Pending
    &&& forall|x: Seq<char>, y: Seq<char>|
        (x, y) != (a, b) ==> post.has_edge(x, y) == pre.has_edge(x, y)
    &&& forall|x: Seq<char>, y: Seq<char>|
        (x, y) != (a, b) && pre.has_edge(x, y) ==> post.status_of(x, y) == pre.status_of(x, y)
}

/// How `accept_friend` changes the graph: both directions of the pair end
/// accepted, whatever state either was in before, and every other directed
/// pair is exactly as it was.
pub open spec fn accept_step(
    pre: FriendGraph,
    post: FriendGraph,
    a: Seq<char>,
    b: Seq<char>,
) -> bool {
    &&& post.has_edge(a, b) && post.status_of(a, b) == Status::Accepted
    &&& post.has_edge(b, a) && post.status_of(b, a) == Status::Accepted
    &&& forall|x: Seq<char>, y: Seq<char>|
        (x, y) != (a, b) && (x, y) != (b, a) ==> post.has_edge(x, y) == pre.has_edge(x, y)
    &&& forall|x: Seq<char>, y: Seq<char>|
        (x, y) != (a, b) && (x, y) != (b, a) && pre.has_edge(x, y) ==> post.status_of(x, y)
            == pre.status_of(x, y)
}

/// Two graphs agree on every directed pair.
pub open spec fn same_edges(a: FriendGraph, b: FriendGraph) -> bool {
    forall|x: Seq<char>, y: Seq<char>|
        (#[trigger] a.has_edge(x, y)) == b.has_edge(x, y) && (a.has_edge(x, y) ==> a.status_of(x, y)
            == b.status_of(x, y))
}

/// Requesting then accepting a friendship yields accepted edges in both
/// directions, whatever state the pair was in before, and repeating the
/// accept changes nothing: no second row appears and every status stays as
/// it was.
pub proof fn lemma_request_accept_symmetric_idempotent(
    g0: FriendGraph,
    g1: FriendGraph,
    g2: FriendGraph,
    g3: FriendGraph,
    a: Seq<char>,
    b: Seq<char>,
)
    requires
        a != b,
        request_step(g0, g1, a, b),
        accept_step(g1, g2, a, b),
        accept_step(g2, g3, a, b),
    ensures
        g2.has_edge(a, b) && g2.status_of(a, b) == Status::Accepted,
        g2.has_edge(b, a) && g2.status_of(b, a) == Status::Accepted,
        same_edges(g3, g2),
{
    assert forall|x: Seq<char>, y: Seq<char>|
        (#[trigger] g3.has_edge(x, y)) == g2.has_edge(x, y) && (g3.has_edge(x, y)
            ==> g3.status_of(x, y) == g2.status_of(x, y)) by {
        if (x, y) == (a, b) {
        } else if (x, y) == (b, a) {
        } else {
        }
    }
}

/// The structural invariant over statuses: every accepted edge has its
/// mirror-direction edge present and accepted, so accepted relationships
/// come in reciprocal pairs.
pub open spec fn accepted_pairs_reciprocal(g: FriendGraph) -> bool {
    forall|x: Seq<char>, y: Seq<char>|
        (#[trigger] g.has_edge(x, y)) && g.status_of(x, y) == Status::Accepted ==> g.has_edge(y, x)
            && g.status_of(y, x) == Status::Accepted
}

/// A friend request preserves the reciprocal-pairs invariant: it only ever
/// creates a pending edge, and never changes an accepted one.
pub proof fn lemma_request_preserves_reciprocal_pairs(
    pre: FriendGraph,
    post: FriendGraph,
    a: Seq<char>,
    b: Seq<char>,
)
    requires
        accepted_pairs_reciprocal(pre),
        request_step(pre, post, a, b),
    ensures
        accepted_pairs_reciprocal(post),
{
    assert forall|x: Seq<char>, y: Seq<char>|
        (#[trigger] post.has_edge(x, y)) && post.status_of(x, y) == Status::Accepted
            implies post.has_edge(y, x) && post.status_of(y, x) == Status::Accepted by {
        if (x, y) == (a, b) {
            assert(pre.has_edge(a, b));
            assert(pre.status_of(x, y) == Status::Accepted);
        } else {
            assert(pre.has_edge(x, y) && pre.status_of(x, y) == Status::Accepted);
        }
        assert(pre.has_edge(y, x) && pre.status_of(y, x) == Status::Accepted);
    }
}

/// An accept preserves the reciprocal-pairs invariant: the two directions it
/// touches both end accepted, and no other edge changes.
pub proof fn lemma_accept_preserves_reciprocal_pairs(
    pre: FriendGraph,
    post: FriendGraph,
    a: Seq<char>,
    b: Seq<char>,
)
    requires
        accepted_pairs_reciprocal(pre),
        accept_step(pre, post, a, b),
    ensures
        accepted_pairs_reciprocal(post),
{
    assert forall|x: Seq<char>, y: Seq<char>|
        (#[trigger] post.has_edge(x, y)) && post.status_of(x, y) == Status::Accepted
            implies post.has_edge(y, x) && post.status_of(y, x) == Status::Accepted by {
        if (x, y) != (a, b) && (x, y) != (b, a) {
            assert(pre.has_edge(x, y) && pre.status_of(x, y) == Status::Accepted);
            assert(pre.has_edge(y, x) && pre.status_of(y, x) == Status::Accepted);
        }
    }
}

/// Simultaneous mutual requests leave both directed edges pending: the state
/// machine never auto-accepts a crossing pair of requests.
pub proof fn lemma_mutual_requests_stay_pending(
    g0: FriendGraph,
    g1: FriendGraph,
    g2: FriendGraph,
    a: Seq<char>,
    b: Seq<char>,
)
    requires
        a != b,
        !g0.has_edge(a, b),
        !g0.has_edge(b, a),
        request_step(g0, g1, a, b),
        request_step(g1, g2, b, a),
    ensures
        g2.has_edge(a, b) && g2.status_of(a, b) == Status::Pending,
        g2.has_edge(b, a) && g2.status_of(b, a) == Status::Pending,
{
    assert((a, b) != (b, a));
}

} // verus!
