//! The weighted ledger: per-account records and the array-backed binary
//! tree of stakes and subtree weights that backs the weighted lottery.

use vstd::prelude::*;

use crate::Contract;

verus! {

// ------------------------------------------------------------------
// Parent chains in the array layout
// ------------------------------------------------------------------

/// Does the chain of parents that starts at `node` (that is `node`,
/// `parent(node)`, ..., `0`) pass through `anc`?  The tree lives in an
/// array: the parent of node `i > 0` is `(i - 1) / 2`.
pub open spec fn on_path(node: int, anc: int) -> bool
    decreases node,
{
    if node == anc {
        true
    } else if node <= 0 {
        false
    } else {
        on_path((node - 1) / 2, anc)
    }
}

/// An ancestor's index is never larger than the node's own.
pub proof fn lemma_on_path_bounds(node: int, anc: int)
    requires
        node >= 0,
        on_path(node, anc),
    ensures
        0 <= anc <= node,
    decreases node,
{
    if node != anc {
        lemma_on_path_bounds((node - 1) / 2, anc);
    }
}

/// Every chain ends at the root.
pub proof fn lemma_on_path_root(node: int)
    requires
        node >= 0,
    ensures
        on_path(node, 0),
    decreases node,
{
    if node > 0 {
        lemma_on_path_root((node - 1) / 2);
    }
}

/// Chains compose: an ancestor of an ancestor is an ancestor.
pub proof fn lemma_on_path_trans(a: int, b: int, c: int)
    requires
        on_path(a, b),
        on_path(b, c),
    ensures
        on_path(a, c),
    decreases a,
{
    if a != b {
        lemma_on_path_trans((a - 1) / 2, b, c);
    }
}

/// Two ancestors of one node lie on one chain themselves.
pub proof fn lemma_on_path_linear(a: int, b: int, c: int)
    requires
        on_path(a, b),
        on_path(a, c),
    ensures
        on_path(b, c) || on_path(c, b),
    decreases a,
{
    if a != b && a != c {
        lemma_on_path_linear((a - 1) / 2, b, c);
    }
}

/// Mutual ancestors are equal.
pub proof fn lemma_on_path_antisym(a: int, b: int)
    requires
        a >= 0,
        on_path(a, b),
        on_path(b, a),
    ensures
        a == b,
{
    lemma_on_path_bounds(a, b);
    lemma_on_path_bounds(b, a);
}

/// A chain that passes through `i` continues through exactly one of:
/// `i` itself being the chain's start, or `i`'s left child, or `i`'s
/// right child.
pub proof fn lemma_on_path_step(idx: int, i: int)
    requires
        idx >= 0,
        i >= 0,
    ensures
        on_path(idx, i) <==> (i == idx || on_path(idx, 2 * i + 1) || on_path(idx, 2 * i + 2)),
        !(i == idx && on_path(idx, 2 * i + 1)),
        !(i == idx && on_path(idx, 2 * i + 2)),
        !(on_path(idx, 2 * i + 1) && on_path(idx, 2 * i + 2)),
    decreases idx,
{
    let l = 2 * i + 1;
    let r = 2 * i + 2;
    assert((l - 1) / 2 == i);
    assert((r - 1) / 2 == i);
    // the children's chains pass through i
    assert(on_path(i, i));
    assert(on_path(l, i));
    assert(on_path(r, i));
    // exclusions
    if i == idx && on_path(idx, l) {
        lemma_on_path_bounds(idx, l);
    }
    if i == idx && on_path(idx, r) {
        lemma_on_path_bounds(idx, r);
    }
    if on_path(idx, l) && on_path(idx, r) {
        lemma_on_path_linear(idx, l, r);
        if on_path(l, r) {
            lemma_on_path_bounds(l, r);
        } else {
            // on_path(r, l) unfolds to on_path(i, l)
            assert(on_path(i, l));
            lemma_on_path_bounds(i, l);
        }
    }
    // if the chain passes through a child it passes through i
    if on_path(idx, l) {
        lemma_on_path_trans(idx, l, i);
    }
    if on_path(idx, r) {
        lemma_on_path_trans(idx, r, i);
    }
    // and conversely
    if on_path(idx, i) && i != idx {
        let p = (idx - 1) / 2;
        assert(idx > 0);
        assert(on_path(p, i));
        if p == i {
            assert(2 * i + 1 <= idx <= 2 * i + 2);
            assert(on_path(idx, idx));
        } else {
            lemma_on_path_step(p, i);
            if on_path(p, l) {
                assert(on_path(idx, l));
            } else {
                assert(on_path(p, r));
                assert(on_path(idx, r));
            }
        }
    }
}

// ------------------------------------------------------------------
// The ledger data
// ------------------------------------------------------------------

/// A raffle winner: the account, the amount it received, and the time
/// it won.
#[derive(Clone, Debug, PartialEq, Eq)]
pub struct Winner(pub String, pub u128, pub u64);

/// Per-account bookkeeping held outside the tree.
#[derive(Clone, Copy, Debug, PartialEq, Eq)]
pub struct User {
    /// Index of the account's node in the ledger tree.
    pub node: u32,
    /// Claimable-but-unwithdrawn balance.
    pub unstaked: u128,
    /// The turn at which the account's pending unstake becomes
    /// withdrawable.
    pub withdraw_turn: Option<u64>,
}

/// One node of the ledger tree.
#[derive(Clone, Debug, PartialEq, Eq)]
pub struct UserNode {
    pub account_id: String,
    /// Sum of `staked` over this node and its whole subtree.
    pub weight: u128,
    /// The account's own ticket balance.
    pub staked: u128,
}

/// One entry of the account map.
#[derive(Clone, Debug, PartialEq, Eq)]
pub struct UserEntry {
    pub account_id: String,
    pub user: User,
}

/// The account map and the node tree, appended in lockstep: the i-th
/// registered account owns node i.
#[derive(Debug)]
pub struct Users {
    pub map: Vec<UserEntry>,
    pub tree: Vec<UserNode>,
}

/// The weight of the subtree rooted at `i`, taking a missing node as
/// weightless.
pub open spec fn subtree_weight(t: Seq<UserNode>, i: int) -> int {
    if 0 <= i < t.len() {
        t[i].weight as int
    } else {
        0
    }
}

/// Node `i`'s weight is its own stake plus the weights of its two child
/// subtrees.
pub open spec fn node_balanced(t: Seq<UserNode>, i: int) -> bool {
    t[i].weight == t[i].staked + subtree_weight(t, 2 * i + 1) + subtree_weight(t, 2 * i + 2)
}

/// The structural tree invariant: every node is balanced.
pub open spec fn tree_wf(t: Seq<UserNode>) -> bool {
    forall|i: int| 0 <= i < t.len() ==> #[trigger] node_balanced(t, i)
}

/// Going up a chain, weights never shrink, and they always cover the
/// starting node's own stake.
pub proof fn lemma_weight_on_path(t: Seq<UserNode>, node: int, anc: int)
    requires
        tree_wf(t),
        0 <= node < t.len(),
        on_path(node, anc),
    ensures
        0 <= anc < t.len(),
        t[node].weight <= t[anc].weight,
        t[node].staked <= t[anc].weight,
    decreases node,
{
    lemma_on_path_bounds(node, anc);
    assert(node_balanced(t, node));
    assert(t[node].staked <= t[node].weight);
    if node != anc {
        let p = (node - 1) / 2;
        assert(node == 2 * p + 1 || node == 2 * p + 2);
        assert(node_balanced(t, p));
        assert(subtree_weight(t, node) == t[node].weight);
        assert(t[node].weight <= t[p].weight);
        lemma_weight_on_path(t, p, anc);
    }
}

impl Users {
    /// Structural well-formedness: map and tree have the same length,
    /// entry i owns node i, the two sides agree on the account names,
    /// no account appears twice, the tree respects the weight equation,
    /// and node indices fit in the index type.
    pub open spec fn wf(self) -> bool {
        &&& self.map@.len() == self.tree@.len()
        &&& self.tree@.len() <= u32::MAX
        &&& forall|i: int| #![trigger self.map@[i]]
            0 <= i < self.map@.len() ==> self.map@[i].user.node == i
        &&& forall|i: int| #![trigger self.map@[i]]
            0 <= i < self.map@.len() ==> self.map@[i].account_id@ == self.tree@[i].account_id@
        &&& forall|i: int, j: int| #![trigger self.map@[i], self.map@[j]]
            0 <= i < j < self.map@.len() ==> self.map@[i].account_id@ != self.map@[j].account_id@
        &&& tree_wf(self.tree@)
    }

    /// Is the account in the ledger?
    pub open spec fn registered(self, account: Seq<char>) -> bool {
        exists|i: int| 0 <= i < self.map@.len() && (#[trigger] self.map@[i]).account_id@ == account
    }

    /// The index of the account's map entry (and, when well formed, of
    /// its tree node).
    pub open spec fn index_of(self, account: Seq<char>) -> int {
        choose|i: int| 0 <= i < self.map@.len() && (#[trigger] self.map@[i]).account_id@ == account
    }

    /// The account's record.
    pub open spec fn user_of(self, account: Seq<char>) -> User {
        self.map@[self.index_of(account)].user
    }

    /// The account's own ticket balance, zero when unregistered.
    pub open spec fn staked_of(self, account: Seq<char>) -> u128 {
        if self.registered(account) {
            self.tree@[self.index_of(account)].staked
        } else {
            0
        }
    }

    /// The account's claimable-but-unwithdrawn balance, zero when
    /// unregistered.
    pub open spec fn unstaked_of(self, account: Seq<char>) -> u128 {
        if self.registered(account) {
            self.user_of(account).unstaked
        } else {
            0
        }
    }

    /// The account's assigned withdraw turn, if any.
    pub open spec fn turn_of(self, account: Seq<char>) -> Option<u64> {
        if self.registered(account) {
            self.user_of(account).withdraw_turn
        } else {
            None
        }
    }

    /// An empty ledger.
    pub fn new() -> (r: Users)
        ensures
            r.wf(),
            r.map@.len() == 0,
            r.tree@.len() == 0,
    {
        Users { map: Vec::new(), tree: Vec::new() }
    }

    /// A registered account's index is the one its map entry sits at:
    /// under well-formedness the witness is unique.
    pub proof fn lemma_index_of_unique(self, account: Seq<char>, i: int)
        requires
            self.wf(),
            0 <= i < self.map@.len(),
            self.map@[i].account_id@ == account,
        ensures
            self.registered(account),
            self.index_of(account) == i,
    {
        assert(self.registered(account));
        let j = self.index_of(account);
        assert(0 <= j < self.map@.len() && self.map@[j].account_id@ == account);
        if i < j {
            assert(self.map@[i].account_id@ != self.map@[j].account_id@);
        } else if j < i {
            assert(self.map@[j].account_id@ != self.map@[i].account_id@);
        }
    }

    /// Registration and entry indices only depend on the account names in
    /// the map, so they carry over to any state that keeps those names.
    pub proof fn lemma_index_stable(u1: Users, u2: Users, account: Seq<char>)
        requires
            u1.wf(),
            u2.map@.len() == u1.map@.len(),
            forall|j: int| #![trigger u2.map@[j]]
                0 <= j < u2.map@.len() ==> u2.map@[j].account_id@ == u1.map@[j].account_id@,
        ensures
            u2.registered(account) == u1.registered(account),
            u1.registered(account) ==> u2.index_of(account) == u1.index_of(account),
    {
        if u1.registered(account) {
            let i = u1.index_of(account);
            assert(0 <= i < u1.map@.len() && u1.map@[i].account_id@ == account);
            assert(u2.map@[i].account_id@ == account);
            assert(u2.registered(account));
            let j = u2.index_of(account);
            assert(0 <= j < u2.map@.len() && u2.map@[j].account_id@ == account);
            assert(u1.map@[j].account_id@ == account);
            if i < j {
                assert(u1.map@[i].account_id@ != u1.map@[j].account_id@);
            } else if j < i {
                assert(u1.map@[j].account_id@ != u1.map@[i].account_id@);
            }
        }
        if u2.registered(account) {
            let i = u2.index_of(account);
            assert(0 <= i < u2.map@.len() && u2.map@[i].account_id@ == account);
            assert(u1.map@[i].account_id@ == account);
            assert(u1.registered(account));
        }
    }
}

impl Default for Users {
    /// An empty ledger.
    fn default() -> (r: Users)
        ensures
            r.wf(),
            r.map@.len() == 0,
            r.tree@.len() == 0,
    {
        Users::new()
    }
}

// ------------------------------------------------------------------
// Weighted pick
// ------------------------------------------------------------------

/// The owner of ticket number `ticket` under the deterministic descent
/// from node `i`: a node keeps the first `staked` tickets of its range
/// for itself, hands the next `weight(left)` to its left subtree and the
/// rest to its right subtree.
pub open spec fn pick_spec(t: Seq<UserNode>, i: int, ticket: int) -> int
    decreases t.len() - i,
{
    if i < 0 || i >= t.len() {
        i
    } else if ticket < t[i].staked {
        i
    } else {
        let l = 2 * i + 1;
        let r = 2 * i + 2;
        if l >= t.len() {
            i
        } else if ticket < t[i].staked + t[l].weight {
            pick_spec(t, l, ticket - t[i].staked)
        } else if r >= t.len() {
            i
        } else {
            pick_spec(t, r, ticket - t[i].staked - t[l].weight)
        }
    }
}

/// A big-endian base-256 reading of a byte string.
pub open spec fn base256(s: Seq<u8>) -> int
    decreases s.len(),
{
    if s.len() == 0 {
        0
    } else {
        256 * base256(s.drop_last()) + s.last()
    }
}

/// 256 to the `n`-th power.
pub open spec fn pow256(n: int) -> int
    decreases n,
{
    if n <= 0 {
        1
    } else {
        256 * pow256(n - 1)
    }
}

/// Powers of 256 are positive.
pub proof fn lemma_pow256_pos(n: int)
    ensures
        pow256(n) >= 1,
    decreases n,
{
    if n > 0 {
        lemma_pow256_pos(n - 1);
    }
}

/// Sixteen bytes cover exactly the 128-bit range.
pub proof fn lemma_pow256_sixteen()
    ensures
        pow256(16) == 0x100000000000000000000000000000000,
{
    assert(pow256(0) == 1);
    assert(pow256(1) == 256);
    assert(pow256(2) == 0x10000);
    assert(pow256(3) == 0x1000000);
    assert(pow256(4) == 0x100000000);
    assert(pow256(5) == 0x10000000000);
    assert(pow256(6) == 0x1000000000000);
    assert(pow256(7) == 0x100000000000000);
    assert(pow256(8) == 0x10000000000000000);
    assert(pow256(9) == 0x1000000000000000000);
    assert(pow256(10) == 0x100000000000000000000);
    assert(pow256(11) == 0x10000000000000000000000);
    assert(pow256(12) == 0x1000000000000000000000000);
    assert(pow256(13) == 0x100000000000000000000000000);
    assert(pow256(14) == 0x10000000000000000000000000000);
    assert(pow256(15) == 0x1000000000000000000000000000000);
}

/// Powers of 256 grow with the exponent.
pub proof fn lemma_pow256_mono(a: int, b: int)
    requires
        a <= b,
    ensures
        pow256(a) <= pow256(b),
    decreases b - a,
{
    if a < b {
        lemma_pow256_mono(a, b - 1);
        lemma_pow256_pos(b - 1);
    }
}

/// A byte string reads below 256 to its length.
pub proof fn lemma_base256_bounds(s: Seq<u8>)
    ensures
        0 <= base256(s) < pow256(s.len() as int),
    decreases s.len(),
{
    if s.len() > 0 {
        lemma_base256_bounds(s.drop_last());
    }
}

/// The ticket drawn for the raffle from the given randomness: uniform in
/// `[staked(root), weight(root))` when anyone besides the root holds a
/// ticket, and ticket 0 (the root's own) otherwise.
pub open spec fn winning_ticket(t: Seq<UserNode>, seed: Seq<u8>) -> int {
    if t[0].weight > t[0].staked {
        t[0].staked + base256(seed.take(16)) % (t[0].weight - t[0].staked)
    } else {
        0
    }
}

impl Contract {
    /// The map index of the account, by linear search.
    #[verifier::rlimit(50)]
    pub(crate) fn find_index(&self, account: &String) -> (r: Option<usize>)
        requires
            self.users.wf(),
        ensures
            match r {
                Some(i) => {
                    &&& self.users.registered(account@)
                    &&& i == self.users.index_of(account@)
                    &&& i < self.users.map@.len()
                },
                None => !self.users.registered(account@),
            },
    {
        let n = self.users.map.len();
        let mut i: usize = 0;
        while i < n
            invariant
                n == self.users.map@.len(),
                i <= n,
                self.users.wf(),
                forall|j: int| 0 <= j < i ==> (#[trigger] self.users.map@[j]).account_id@
                    != account@,
            decreases n - i,
        {
            if self.users.map[i].account_id == *account {
                proof {
                    self.users.lemma_index_of_unique(account@, i as int);
                }
                return Some(i);
            }
            i = i + 1;
        }
        None
    }

    /// Whether the account ever deposited.
    pub fn is_registered(&self, user: &String) -> (r: bool)
        requires
            self.users.wf(),
        ensures
            r == self.users.registered(user@),
    {
        let idx = self.find_index(user);
        idx.is_some()
    }

    /// The account's record; the account must be registered.
    pub fn get_user(&self, user: &String) -> (r: User)
        requires
            self.users.wf(),
            self.users.registered(user@),
        ensures
            r == self.users.user_of(user@),
    {
        let idx = self.find_index(user);
        match idx {
            Some(i) => self.users.map[i].user,
            None => User { node: 0, unstaked: 0, withdraw_turn: None },
        }
    }

    /// The account's own ticket balance; the account must be registered.
    pub fn get_staked_for(&self, user: &String) -> (r: u128)
        requires
            self.users.wf(),
            self.users.registered(user@),
        ensures
            r == self.users.staked_of(user@),
    {
        let u = self.get_user(user);
        self.users.tree[u.node as usize].staked
    }

    /// The account's assigned withdraw turn; the account must be
    /// registered.
    pub(crate) fn get_withdraw_turn_for(&self, user: &String) -> (r: Option<u64>)
        requires
            self.users.wf(),
            self.users.registered(user@),
        ensures
            r == self.users.turn_of(user@),
    {
        let u = self.get_user(user);
        u.withdraw_turn
    }

    /// Registers a new account: appends a map entry and a weightless tree
    /// node in lockstep.
    pub(crate) fn add_new_user(&mut self, user: &String) -> (uid: u32)
        requires
            old(self).users.wf(),
            !old(self).users.registered(user@),
            old(self).users.tree@.len() < u32::MAX,
        ensures
            final(self).users.wf(),
            Contract::same_outside_users(*final(self), *old(self)),
            uid == old(self).users.tree@.len(),
            final(self).users.map@.len() == old(self).users.map@.len() + 1,
            final(self).users.tree@.len() == old(self).users.tree@.len() + 1,
            forall|j: int| 0 <= j < old(self).users.map@.len()
                ==> final(self).users.map@[j] == old(self).users.map@[j],
            forall|j: int| 0 <= j < old(self).users.tree@.len()
                ==> final(self).users.tree@[j] == old(self).users.tree@[j],
            final(self).users.map@[uid as int].account_id@ == user@,
            final(self).users.map@[uid as int].user == (User {
                node: uid,
                unstaked: 0,
                withdraw_turn: None,
            }),
            final(self).users.tree@[uid as int].account_id@ == user@,
            final(self).users.tree@[uid as int].staked == 0,
            final(self).users.tree@[uid as int].weight == 0,
            final(self).users.registered(user@),
            final(self).users.index_of(user@) == uid as int,
            final(self).users.staked_of(user@) == 0,
            final(self).users.unstaked_of(user@) == 0,
            final(self).users.turn_of(user@) is None,
    {
        let ghost t0 = old(self).users.tree@;
        let uid: usize = self.users.tree.len();
        self.users.map.push(
            UserEntry {
                account_id: user.clone(),
                user: User { node: uid as u32, unstaked: 0, withdraw_turn: None },
            },
        );
        self.users.tree.push(UserNode { account_id: user.clone(), weight: 0, staked: 0 });
        proof {
            let t1 = self.users.tree@;
            assert forall|i: int| 0 <= i < t1.len() implies node_balanced(t1, i) by {
                if i < t0.len() {
                    assert(node_balanced(t0, i));
                    assert(t1[i] == t0[i]);
                    assert(subtree_weight(t1, 2 * i + 1) == subtree_weight(t0, 2 * i + 1));
                    assert(subtree_weight(t1, 2 * i + 2) == subtree_weight(t0, 2 * i + 2));
                } else {
                    assert(t1[i].weight == 0 && t1[i].staked == 0);
                    assert(subtree_weight(t1, 2 * i + 1) == 0);
                    assert(subtree_weight(t1, 2 * i + 2) == 0);
                }
            }
            self.users.lemma_index_of_unique(user@, uid as int);
        }
        uid as u32
    }

    /// Adds `tickets` to the account's own stake and to the weight of
    /// every node on its parent chain, keeping every node balanced.
    #[verifier::loop_isolation(false)]
    pub(crate) fn stake_tickets_for(&mut self, user: &String, tickets: u128)
        requires
            old(self).users.wf(),
            old(self).users.registered(user@),
            old(self).users.tree@[0].weight + tickets <= u128::MAX,
        ensures
            final(self).users.wf(),
            Contract::same_outside_users(*final(self), *old(self)),
            final(self).users.map == old(self).users.map,
            final(self).users.tree@.len() == old(self).users.tree@.len(),
            forall|j: int| #![trigger final(self).users.tree@[j]]
                0 <= j < old(self).users.tree@.len() ==> final(self).users.tree@[j].account_id
                    == old(self).users.tree@[j].account_id,
            forall|j: int| #![trigger final(self).users.tree@[j]]
                0 <= j < old(self).users.tree@.len() ==> final(self).users.tree@[j].staked
                    == old(self).users.tree@[j].staked + (if j == old(self).users.index_of(user@) {
                    tickets as int
                } else {
                    0int
                }),
            forall|j: int| #![trigger final(self).users.tree@[j]]
                0 <= j < old(self).users.tree@.len() ==> final(self).users.tree@[j].weight
                    == old(self).users.tree@[j].weight + (if on_path(
                    old(self).users.index_of(user@),
                    j,
                ) {
                    tickets as int
                } else {
                    0int
                }),
            final(self).users.staked_of(user@) == old(self).users.staked_of(user@) + tickets,
            final(self).users.tree@[0].weight == old(self).users.tree@[0].weight + tickets,
    {
        let ghost t0 = old(self).users.tree@;
        let ghost idx: int = old(self).users.index_of(user@);
        let opt = self.find_index(user);
        let mut uid: usize = match opt {
            Some(i) => i,
            None => 0,
        };
        proof {
            assert(uid as int == idx);
            assert(0 <= idx < t0.len());
            lemma_on_path_root(idx);
            lemma_weight_on_path(t0, idx, 0);
            assert(node_balanced(t0, idx));
            assert(on_path(idx, idx));
        }
        let s = self.users.tree[uid].staked;
        self.users.tree[uid].staked = s + tickets;
        let w = self.users.tree[uid].weight;
        self.users.tree[uid].weight = w + tickets;
        proof {
            assert forall|j: int| 0 <= j < t0.len() && on_path(idx, j) && on_path(
                j,
                uid as int,
            ) implies j == idx by {
                lemma_on_path_antisym(j, idx);
            }
        }
        while uid != 0
            invariant
                uid < t0.len(),
                self.users.tree@.len() == t0.len(),
                on_path(idx, uid as int),
                self.users.map == old(self).users.map,
                self.config == old(self).config,
                self.pool == old(self).pool,
                self.next_action == old(self).next_action,
                self.winners == old(self).winners,
                forall|j: int| #![trigger self.users.tree@[j]]
                    0 <= j < t0.len() ==> self.users.tree@[j].account_id == t0[j].account_id,
                forall|j: int| #![trigger self.users.tree@[j]]
                    0 <= j < t0.len() ==> self.users.tree@[j].staked == t0[j].staked + (if j == idx {
                        tickets as int
                    } else {
                        0int
                    }),
                forall|j: int| #![trigger self.users.tree@[j]]
                    0 <= j < t0.len() ==> self.users.tree@[j].weight == t0[j].weight + (if on_path(
                        idx,
                        j,
                    ) && on_path(j, uid as int) {
                        tickets as int
                    } else {
                        0int
                    }),
            decreases uid,
        {
            let parent: usize = (uid - 1) / 2;
            proof {
                let u = uid as int;
                let p = parent as int;
                assert(on_path(p, p));
                assert(on_path(u, p));
                lemma_on_path_trans(idx, u, p);
                if on_path(p, u) {
                    lemma_on_path_bounds(p, u);
                }
                assert(!(on_path(idx, p) && on_path(p, u)));
                assert(self.users.tree@[p].weight == t0[p].weight);
                lemma_on_path_root(p);
                lemma_weight_on_path(t0, p, 0);
            }
            let w2 = self.users.tree[parent].weight;
            self.users.tree[parent].weight = w2 + tickets;
            proof {
                let u = uid as int;
                let p = parent as int;
                assert forall|j: int| 0 <= j < t0.len() implies ((on_path(idx, j) && on_path(j, p))
                    <==> ((on_path(idx, j) && on_path(j, u)) || j == p)) by {
                    if on_path(idx, j) && on_path(j, u) {
                        lemma_on_path_trans(j, u, p);
                    }
                    if on_path(idx, j) && on_path(j, p) && j != p {
                        lemma_on_path_linear(idx, j, u);
                        if !on_path(j, u) {
                            assert(on_path(u, j));
                            if u != j {
                                assert(on_path(p, j));
                                lemma_on_path_antisym(j, p);
                            }
                            assert(u == j);
                            assert(on_path(j, u));
                        }
                    }
                }
            }
            uid = parent;
        }
        proof {
            let t1 = self.users.tree@;
            assert forall|j: int| 0 <= j < t0.len() implies on_path(j, 0) by {
                lemma_on_path_root(j);
            }
            assert forall|i: int| 0 <= i < t1.len() implies node_balanced(t1, i) by {
                assert(node_balanced(t0, i));
                lemma_on_path_step(idx, i);
                let l = 2 * i + 1;
                let r = 2 * i + 2;
                if on_path(idx, l) {
                    lemma_on_path_bounds(idx, l);
                }
                if on_path(idx, r) {
                    lemma_on_path_bounds(idx, r);
                }
                assert(subtree_weight(t1, l) == subtree_weight(t0, l) + (if on_path(idx, l) {
                    tickets as int
                } else {
                    0int
                }));
                assert(subtree_weight(t1, r) == subtree_weight(t0, r) + (if on_path(idx, r) {
                    tickets as int
                } else {
                    0int
                }));
            }
            Users::lemma_index_stable(old(self).users, self.users, user@);
        }
    }

    /// Removes `amount` from the account's own stake and from the weight
    /// of every node on its parent chain, keeping every node balanced.
    /// The amount must not exceed the account's stake.
    #[verifier::loop_isolation(false)]
    fn remove_tickets_from(&mut self, user: &String, amount: u128)
        requires
            old(self).users.wf(),
            old(self).users.registered(user@),
            amount <= old(self).users.staked_of(user@),
        ensures
            final(self).users.wf(),
            Contract::same_outside_users(*final(self), *old(self)),
            final(self).users.map == old(self).users.map,
            final(self).users.tree@.len() == old(self).users.tree@.len(),
            forall|j: int| #![trigger final(self).users.tree@[j]]
                0 <= j < old(self).users.tree@.len() ==> final(self).users.tree@[j].account_id
                    == old(self).users.tree@[j].account_id,
            forall|j: int| #![trigger final(self).users.tree@[j]]
                0 <= j < old(self).users.tree@.len() ==> final(self).users.tree@[j].staked
                    == old(self).users.tree@[j].staked - (if j == old(self).users.index_of(user@) {
                    amount as int
                } else {
                    0int
                }),
            forall|j: int| #![trigger final(self).users.tree@[j]]
                0 <= j < old(self).users.tree@.len() ==> final(self).users.tree@[j].weight
                    == old(self).users.tree@[j].weight - (if on_path(
                    old(self).users.index_of(user@),
                    j,
                ) {
                    amount as int
                } else {
                    0int
                }),
            final(self).users.staked_of(user@) == old(self).users.staked_of(user@) - amount,
            final(self).users.tree@[0].weight == old(self).users.tree@[0].weight - amount,
    {
        let ghost t0 = old(self).users.tree@;
        let ghost idx: int = old(self).users.index_of(user@);
        let opt = self.find_index(user);
        let mut uid: usize = match opt {
            Some(i) => i,
            None => 0,
        };
        proof {
            assert(uid as int == idx);
            assert(0 <= idx < t0.len());
            lemma_on_path_root(idx);
            lemma_weight_on_path(t0, idx, 0);
            assert(node_balanced(t0, idx));
            assert(on_path(idx, idx));
        }
        let s = self.users.tree[uid].staked;
        self.users.tree[uid].staked = s - amount;
        let w = self.users.tree[uid].weight;
        self.users.tree[uid].weight = w - amount;
        proof {
            assert forall|j: int| 0 <= j < t0.len() && on_path(idx, j) && on_path(
                j,
                uid as int,
            ) implies j == idx by {
                lemma_on_path_antisym(j, idx);
            }
        }
        while uid != 0
            invariant
                uid < t0.len(),
                self.users.tree@.len() == t0.len(),
                on_path(idx, uid as int),
                self.users.map == old(self).users.map,
                self.config == old(self).config,
                self.pool == old(self).pool,
                self.next_action == old(self).next_action,
                self.winners == old(self).winners,
                forall|j: int| #![trigger self.users.tree@[j]]
                    0 <= j < t0.len() ==> self.users.tree@[j].account_id == t0[j].account_id,
                forall|j: int| #![trigger self.users.tree@[j]]
                    0 <= j < t0.len() ==> self.users.tree@[j].staked == t0[j].staked - (if j == idx {
                        amount as int
                    } else {
                        0int
                    }),
                forall|j: int| #![trigger self.users.tree@[j]]
                    0 <= j < t0.len() ==> self.users.tree@[j].weight == t0[j].weight - (if on_path(
                        idx,
                        j,
                    ) && on_path(j, uid as int) {
                        amount as int
                    } else {
                        0int
                    }),
            decreases uid,
        {
            let parent: usize = (uid - 1) / 2;
            proof {
                let u = uid as int;
                let p = parent as int;
                assert(on_path(p, p));
                assert(on_path(u, p));
                lemma_on_path_trans(idx, u, p);
                if on_path(p, u) {
                    lemma_on_path_bounds(p, u);
                }
                assert(!(on_path(idx, p) && on_path(p, u)));
                assert(self.users.tree@[p].weight == t0[p].weight);
                lemma_weight_on_path(t0, idx, p);
            }
            let w2 = self.users.tree[parent].weight;
            self.users.tree[parent].weight = w2 - amount;
            proof {
                let u = uid as int;
                let p = parent as int;
                assert forall|j: int| 0 <= j < t0.len() implies ((on_path(idx, j) && on_path(j, p))
                    <==> ((on_path(idx, j) && on_path(j, u)) || j == p)) by {
                    if on_path(idx, j) && on_path(j, u) {
                        lemma_on_path_trans(j, u, p);
                    }
                    if on_path(idx, j) && on_path(j, p) && j != p {
                        lemma_on_path_linear(idx, j, u);
                        if !on_path(j, u) {
                            assert(on_path(u, j));
                            if u != j {
                                assert(on_path(p, j));
                                lemma_on_path_antisym(j, p);
                            }
                            assert(u == j);
                            assert(on_path(j, u));
                        }
                    }
                }
            }
            uid = parent;
        }
        proof {
            let t1 = self.users.tree@;
            assert forall|j: int| 0 <= j < t0.len() implies on_path(j, 0) by {
                lemma_on_path_root(j);
            }
            assert forall|i: int| 0 <= i < t1.len() implies node_balanced(t1, i) by {
                assert(node_balanced(t0, i));
                lemma_on_path_step(idx, i);
                let l = 2 * i + 1;
                let r = 2 * i + 2;
                if on_path(idx, l) {
                    lemma_on_path_bounds(idx, l);
                }
                if on_path(idx, r) {
                    lemma_on_path_bounds(idx, r);
                }
                assert(subtree_weight(t1, l) == subtree_weight(t0, l) - (if on_path(idx, l) {
                    amount as int
                } else {
                    0int
                }));
                assert(subtree_weight(t1, r) == subtree_weight(t0, r) - (if on_path(idx, r) {
                    amount as int
                } else {
                    0int
                }));
            }
            Users::lemma_index_stable(old(self).users, self.users, user@);
        }
    }

    /// Moves `amount` of the account's stake to its claimable balance:
    /// removes the tickets from the tree and credits `unstaked`.
    pub(crate) fn unstake_tickets_for(&mut self, user: &String, amount: u128)
        requires
            old(self).users.wf(),
            old(self).users.registered(user@),
            amount <= old(self).users.staked_of(user@),
            old(self).users.unstaked_of(user@) + amount <= u128::MAX,
        ensures
            final(self).users.wf(),
            Contract::same_outside_users(*final(self), *old(self)),
            final(self).users.map@.len() == old(self).users.map@.len(),
            final(self).users.tree@.len() == old(self).users.tree@.len(),
            final(self).users.map@ == old(self).users.map@.update(
                old(self).users.index_of(user@),
                (UserEntry {
                    user: User {
                        unstaked: (old(self).users.unstaked_of(user@) + amount) as u128,
                        ..old(self).users.user_of(user@)
                    },
                    ..old(self).users.map@[old(self).users.index_of(user@)]
                }),
            ),
            forall|j: int| #![trigger final(self).users.tree@[j]]
                0 <= j < old(self).users.tree@.len() ==> final(self).users.tree@[j].account_id
                    == old(self).users.tree@[j].account_id,
            forall|j: int| #![trigger final(self).users.tree@[j]]
                0 <= j < old(self).users.tree@.len() ==> final(self).users.tree@[j].staked
                    == old(self).users.tree@[j].staked - (if j == old(self).users.index_of(user@) {
                    amount as int
                } else {
                    0int
                }),
            forall|j: int| #![trigger final(self).users.tree@[j]]
                0 <= j < old(self).users.tree@.len() ==> final(self).users.tree@[j].weight
                    == old(self).users.tree@[j].weight - (if on_path(
                    old(self).users.index_of(user@),
                    j,
                ) {
                    amount as int
                } else {
                    0int
                }),
            final(self).users.staked_of(user@) == old(self).users.staked_of(user@) - amount,
            final(self).users.unstaked_of(user@) == old(self).users.unstaked_of(user@) + amount,
            final(self).users.turn_of(user@) == old(self).users.turn_of(user@),
            final(self).users.tree@[0].weight == old(self).users.tree@[0].weight - amount,
    {
        self.remove_tickets_from(user, amount);
        let opt = self.find_index(user);
        let i: usize = match opt {
            Some(i) => i,
            None => 0,
        };
        proof {
            Users::lemma_index_stable(old(self).users, self.users, user@);
            assert(i as int == old(self).users.index_of(user@));
        }
        let cur = self.users.map[i].user.unstaked;
        self.users.map[i].user.unstaked = cur + amount;
        proof {
            Users::lemma_index_stable(old(self).users, self.users, user@);
        }
    }

    /// Empties the account's claimable balance and reports how much it
    /// held.
    pub(crate) fn withdraw_all_for(&mut self, user: &String) -> (r: u128)
        requires
            old(self).users.wf(),
            old(self).users.registered(user@),
        ensures
            final(self).users.wf(),
            Contract::same_outside_users(*final(self), *old(self)),
            final(self).users.tree == old(self).users.tree,
            final(self).users.map@.len() == old(self).users.map@.len(),
            r == old(self).users.unstaked_of(user@),
            final(self).users.map@ == old(self).users.map@.update(
                old(self).users.index_of(user@),
                (UserEntry {
                    user: User { unstaked: 0, ..old(self).users.user_of(user@) },
                    ..old(self).users.map@[old(self).users.index_of(user@)]
                }),
            ),
            final(self).users.unstaked_of(user@) == 0,
            final(self).users.staked_of(user@) == old(self).users.staked_of(user@),
            final(self).users.turn_of(user@) == old(self).users.turn_of(user@),
    {
        let opt = self.find_index(user);
        let i: usize = match opt {
            Some(i) => i,
            None => 0,
        };
        let balance = self.users.map[i].user.unstaked;
        self.users.map[i].user.unstaked = 0;
        proof {
            Users::lemma_index_stable(old(self).users, self.users, user@);
        }
        balance
    }

    /// Assigns the turn at which the account's pending unstake becomes
    /// withdrawable.
    pub(crate) fn set_withdraw_turn_for(&mut self, user: &String, turn: u64)
        requires
            old(self).users.wf(),
            old(self).users.registered(user@),
        ensures
            final(self).users.wf(),
            Contract::same_outside_users(*final(self), *old(self)),
            final(self).users.tree == old(self).users.tree,
            final(self).users.map@.len() == old(self).users.map@.len(),
            final(self).users.map@ == old(self).users.map@.update(
                old(self).users.index_of(user@),
                (UserEntry {
                    user: User {
                        withdraw_turn: Some(turn),
                        ..old(self).users.user_of(user@)
                    },
                    ..old(self).users.map@[old(self).users.index_of(user@)]
                }),
            ),
            final(self).users.turn_of(user@) == Some(turn),
            final(self).users.staked_of(user@) == old(self).users.staked_of(user@),
            final(self).users.unstaked_of(user@) == old(self).users.unstaked_of(user@),
    {
        let opt = self.find_index(user);
        let i: usize = match opt {
            Some(i) => i,
            None => 0,
        };
        self.users.map[i].user.withdraw_turn = Some(turn);
        proof {
            Users::lemma_index_stable(old(self).users, self.users, user@);
        }
    }

    /// Walks the tree down from the root to the node that owns the given
    /// ticket.  The enumeration order does not matter for fairness: a
    /// node's chance is its own stake over the total weight.
    pub fn find_user_with_ticket(&self, ticket: u128) -> (uid: u32)
        requires
            self.users.wf(),
            self.users.tree@.len() > 0,
            ticket < self.users.tree@[0].weight,
        ensures
            uid < self.users.tree@.len(),
            uid as int == pick_spec(self.users.tree@, 0, ticket as int),
    {
        let ghost t = self.users.tree@;
        let n = self.users.tree.len();
        let mut uid: usize = 0;
        let mut remaining: u128 = ticket;
        loop
            invariant
                self.users.wf(),
                t == self.users.tree@,
                n == t.len(),
                uid < n,
                remaining < t[uid as int].weight,
                pick_spec(t, uid as int, remaining as int) == pick_spec(t, 0, ticket as int),
            decreases t.len() - uid,
        {
            proof {
                assert(node_balanced(t, uid as int));
            }
            let staked = self.users.tree[uid].staked;
            if remaining < staked {
                return uid as u32;
            }
            let l64: u64 = (uid as u64) * 2 + 1;
            if l64 >= (n as u64) {
                return uid as u32;
            }
            let l: usize = l64 as usize;
            let lw = self.users.tree[l].weight;
            if remaining < staked + lw {
                remaining = remaining - staked;
                uid = l;
            } else {
                let r64: u64 = l64 + 1;
                if r64 >= (n as u64) {
                    return uid as u32;
                }
                let r: usize = r64 as usize;
                remaining = remaining - staked - lw;
                uid = r;
            }
        }
    }

    /// Reads a byte string as one big-endian base-256 number.
    fn as_u128(&self, arr: &[u8]) -> (r: u128)
        requires
            arr@.len() <= 16,
        ensures
            r as int == base256(arr@),
    {
        let n = arr.len();
        let mut result: u128 = 0;
        let mut i: usize = 0;
        while i < n
            invariant
                n == arr@.len() <= 16,
                i <= n,
                result as int == base256(arr@.take(i as int)),
                (result as int) < pow256(i as int),
            decreases n - i,
        {
            proof {
                lemma_pow256_mono(i + 1, 16);
                lemma_pow256_sixteen();
                assert(arr@.take(i + 1).drop_last() =~= arr@.take(i as int));
                assert(arr@.take(i + 1).last() == arr@[i as int]);
            }
            result = result * 256 + (arr[i] as u128);
            i = i + 1;
        }
        proof {
            assert(arr@.take(n as int) =~= arr@);
        }
        result
    }

    /// A number in `[min, max)` derived from the first sixteen bytes of
    /// the given randomness: the bytes read base-256, reduced into the
    /// interval.
    pub fn random_u128(&self, min: u128, max: u128, seed: &Vec<u8>) -> (r: u128)
        requires
            min < max,
            seed@.len() >= 16,
        ensures
            r as int == min + base256(seed@.take(16)) % ((max - min) as int),
            min <= r < max,
    {
        let part = vstd::slice::slice_subrange(seed.as_slice(), 0, 16);
        proof {
            assert(part@ =~= seed@.take(16));
            lemma_base256_bounds(part@);
        }
        let random = self.as_u128(part);
        let span = max - min;
        let rem = random % span;
        min + rem
    }

    /// Draws the raffle winner: a uniformly random ticket outside the
    /// root's own range when anyone else holds stake (the root account is
    /// the reserve and is excluded from ordinary odds), the root itself
    /// otherwise, then the deterministic descent to the ticket's owner.
    pub fn choose_random_winner(&self, seed: &Vec<u8>) -> (winner: String)
        requires
            self.users.wf(),
            self.users.tree@.len() > 0,
            self.users.tree@[0].weight > 0,
            seed@.len() >= 16,
        ensures
            0 <= pick_spec(self.users.tree@, 0, winning_ticket(self.users.tree@, seed@))
                < self.users.tree@.len(),
            winner@ == self.users.tree@[pick_spec(
                self.users.tree@,
                0,
                winning_ticket(self.users.tree@, seed@),
            )].account_id@,
            self.users.registered(winner@),
    {
        let ghost t = self.users.tree@;
        let mut ticket: u128 = 0;
        let w0 = self.users.tree[0].weight;
        let s0 = self.users.tree[0].staked;
        if w0 > s0 {
            ticket = self.random_u128(s0, w0, seed);
        }
        proof {
            lemma_base256_bounds(seed@.take(16));
            assert(ticket as int == winning_ticket(t, seed@));
        }
        let uid = self.find_user_with_ticket(ticket);
        let winner = self.users.tree[uid as usize].account_id.clone();
        proof {
            assert(self.users.map@[uid as int].account_id@ == winner@);
        }
        winner
    }
}

} // verus!
