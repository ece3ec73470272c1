use vstd::prelude::*;

verus! {

/// Opaque handle to one drawable object. It stays the same for the whole life
/// of the object and says nothing about where the object is stored.
#[derive(Copy, Clone, Debug, PartialEq, Eq, Structural)]
pub struct IndexToken {
    namespace: usize,
    id: usize,
}

impl IndexToken {
    /// The namespace of the tracker that issued the token. Tokens of
    /// different namespaces are never equal.
    pub closed spec fn namespace(self) -> nat {
        self.namespace as nat
    }
}

/// The only way a token operation can fail.
#[derive(Copy, Clone, Debug, PartialEq, Eq, Structural)]
pub enum TokenError {
    /// The token was never issued by this tracker (it may belong to another
    /// kind of object), or was already removed.
    InvalidToken,
}

/// Mathematical state of a tracker.
pub struct TrackerState {
    /// Dense index of every live token.
    pub live: Map<IndexToken, nat>,
    /// Every token handed out so far, live or removed.
    pub issued: Set<IndexToken>,
    /// Indices that were given back, the most recent one last.
    pub free: Seq<nat>,
    /// The next index that was never used.
    pub next: nat,
    /// How many tokens were handed out so far.
    pub count: nat,
    /// The namespace of the tokens of this tracker.
    pub namespace: nat,
}

impl TrackerState {
    /// The state of a tracker that has issued nothing.
    pub open spec fn empty(namespace: nat) -> TrackerState {
        TrackerState {
            live: Map::empty(),
            issued: Set::empty(),
            free: Seq::empty(),
            next: 0,
            count: 0,
            namespace,
        }
    }

    /// What holds of every state a tracker can reach.
    pub open spec fn inv(self) -> bool {
        &&& self.next <= self.count <= usize::MAX
        &&& forall|t: IndexToken| #[trigger]
            self.issued.contains(t) ==> t.namespace() == self.namespace
        &&& forall|t: IndexToken| #[trigger] self.live.contains_key(t) ==> self.issued.contains(t)
        &&& forall|t: IndexToken| #[trigger] self.live.contains_key(t) ==> self.live[t] < self.next
        &&& forall|i: int| 0 <= i < self.free.len() ==> #[trigger] self.free[i] < self.next
        &&& forall|i: int, j: int|
            0 <= i < j < self.free.len() ==> #[trigger] self.free[i] != #[trigger] self.free[j]
        &&& forall|t: IndexToken, i: int|
            #[trigger] self.live.contains_key(t) && 0 <= i < self.free.len() ==> self.live[t]
                != #[trigger] self.free[i]
        &&& forall|a: IndexToken, b: IndexToken|
            #[trigger] self.live.contains_key(a) && #[trigger] self.live.contains_key(b) && a != b
                ==> self.live[a] != self.live[b]
        &&& forall|k: nat| k < self.next ==> self.free.contains(k) || #[trigger] self.holds(k)
    }

    /// Some live token has index `k`.
    pub open spec fn holds(self, k: nat) -> bool {
        exists|t: IndexToken| #[trigger] self.live.contains_key(t) && self.live[t] == k
    }

    /// The index that the next insertion receives: the index freed most
    /// recently if there is one, else the next unused one.
    pub open spec fn next_index(self) -> nat {
        if self.free.len() > 0 {
            self.free.last()
        } else {
            self.next
        }
    }

    /// The state after token `t` was issued for a new object.
    pub open spec fn add(self, t: IndexToken) -> TrackerState {
        TrackerState {
            live: self.live.insert(t, self.next_index()),
            issued: self.issued.insert(t),
            free: if self.free.len() > 0 {
                self.free.drop_last()
            } else {
                self.free
            },
            next: if self.free.len() > 0 {
                self.next
            } else {
                self.next + 1
            },
            count: self.count + 1,
            namespace: self.namespace,
        }
    }

    /// The state after the live token `t` was removed.
    pub open spec fn remove(self, t: IndexToken) -> TrackerState {
        TrackerState {
            live: self.live.remove(t),
            issued: self.issued,
            free: self.free.push(self.live[t]),
            next: self.next,
            count: self.count,
            namespace: self.namespace,
        }
    }
}

/// The slots of one kind as the render side knows them: it sees indices, never
/// tokens.
pub struct SlotsView {
    /// The indices in use.
    pub active: Set<nat>,
    /// Indices that were given back, the most recent one last.
    pub free: Seq<nat>,
    /// The next index that was never used.
    pub next: nat,
}

impl SlotsView {
    /// The slots before anything was created.
    pub open spec fn empty() -> SlotsView {
        SlotsView { active: Set::empty(), free: Seq::empty(), next: 0 }
    }

    /// The index that the next creation occupies.
    pub open spec fn next_index(self) -> nat {
        if self.free.len() > 0 {
            self.free.last()
        } else {
            self.next
        }
    }

    /// The slots after a creation.
    pub open spec fn create(self) -> SlotsView {
        SlotsView {
            active: self.active.insert(self.next_index()),
            free: if self.free.len() > 0 {
                self.free.drop_last()
            } else {
                self.free
            },
            next: if self.free.len() > 0 {
                self.next
            } else {
                self.next + 1
            },
        }
    }

    /// The slots after the removal of what index `id` held.
    pub open spec fn release(self, id: nat) -> SlotsView {
        SlotsView { active: self.active.remove(id), free: self.free.push(id), next: self.next }
    }
}

impl TrackerState {
    /// The slots that the live tokens occupy, without the tokens.
    pub open spec fn slots(self) -> SlotsView {
        SlotsView { active: Set::new(|k: nat| self.holds(k)), free: self.free, next: self.next }
    }
}

/// One call on a tracker, with the token it issues or is given.
pub enum TrackerOp {
    /// An insertion that issues the given token.
    Add(IndexToken),
    /// A removal of the given token.
    Remove(IndexToken),
}

impl TrackerState {
    /// The state after one call. A tracker never issues a token twice, nor one
    /// of another namespace, nor more tokens than the machine can count, and
    /// a removal of a token that is not live fails and changes nothing.
    pub open spec fn step(self, op: TrackerOp) -> TrackerState {
        match op {
            TrackerOp::Add(t) => if self.issued.contains(t) || t.namespace() != self.namespace
                || self.count >= usize::MAX {
                self
            } else {
                self.add(t)
            },
            TrackerOp::Remove(t) => if self.live.contains_key(t) {
                self.remove(t)
            } else {
                self
            },
        }
    }

    /// The state after a sequence of calls, the first one first.
    pub open spec fn run(self, ops: Seq<TrackerOp>) -> TrackerState
        decreases ops.len(),
    {
        if ops.len() == 0 {
            self
        } else {
            self.run(ops.drop_last()).step(ops.last())
        }
    }

    /// Token `t` was issued and is no longer live.
    pub open spec fn retired(self, t: IndexToken) -> bool {
        self.issued.contains(t) && !self.live.contains_key(t)
    }
}

/// Maps tokens to dense slot indices, reusing the indices of removed tokens.
pub struct IndexTracker {
    namespace: usize,
    slots: Vec<Option<usize>>,
    free: Vec<usize>,
    next: usize,
}

impl View for IndexTracker {
    type V = TrackerState;

    closed spec fn view(&self) -> TrackerState {
        TrackerState {
            live: Map::new(
                |t: IndexToken|
                    t.namespace == self.namespace && t.id < self.slots@.len()
                        && self.slots@[t.id as int] is Some,
                |t: IndexToken| self.slots@[t.id as int].unwrap() as nat,
            ),
            issued: Set::new(
                |t: IndexToken| t.namespace == self.namespace && t.id < self.slots@.len(),
            ),
            free: self.free@.map_values(|i: usize| i as nat),
            next: self.next as nat,
            count: self.slots@.len(),
            namespace: self.namespace as nat,
        }
    }
}

impl IndexTracker {
    /// The tracker is in a state that it can reach.
    pub closed spec fn wf(&self) -> bool {
        self@.inv()
    }

    /// A reachable tracker satisfies the invariant of its model.
    pub proof fn lemma_wf_inv(&self)
        requires
            self.wf(),
        ensures
            self@.inv(),
    {
    }

    /// A tracker with no token issued, in namespace 0.
    pub fn new() -> (tracker: IndexTracker)
        ensures
            tracker.wf(),
            tracker@ == TrackerState::empty(0),
    {
        IndexTracker::with_namespace(0)
    }

    /// A tracker with no token issued, whose tokens will carry the given
    /// namespace, so that no tracker of another namespace accepts them.
    pub fn with_namespace(namespace: usize) -> (tracker: IndexTracker)
        ensures
            tracker.wf(),
            tracker@ == TrackerState::empty(namespace as nat),
    {
        let tracker = IndexTracker { namespace, slots: Vec::new(), free: Vec::new(), next: 0 };
        proof {
            assert(tracker@.live =~= Map::empty());
            assert(tracker@.issued =~= Set::empty());
            assert(tracker@.free =~= Seq::empty());
        }
        tracker
    }

    /// How many tokens the tracker has issued so far.
    pub fn count(&self) -> (n: usize)
        ensures
            n == self@.count,
    {
        self.slots.len()
    }

    /// Issues a fresh token and gives it a dense index: the one freed most
    /// recently if any is free, else the next unused one.
    pub fn add(&mut self) -> (token: IndexToken)
        requires
            old(self).wf(),
            old(self)@.count < usize::MAX,
        ensures
            final(self).wf(),
            !old(self)@.issued.contains(token),
            token.namespace() == old(self)@.namespace,
            final(self)@ == old(self)@.add(token),
    {
        let token = IndexToken { namespace: self.namespace, id: self.slots.len() };
        let index: usize = match self.free.pop() {
            Some(i) => i,
            None => {
                let i: usize = self.next;
                self.next = i + 1;
                i
            },
        };
        self.slots.push(Some(index));
        proof {
            let before = old(self)@;
            let after = self@;
            assert(index as nat == before.next_index());
            assert(after.live =~= before.add(token).live);
            assert(after.issued =~= before.add(token).issued);
            assert(after.free =~= before.add(token).free);
            lemma_add_keeps_inv(before, token);
        }
        token
    }

    /// The dense index of a live token.
    pub fn get(&self, token: &IndexToken) -> (result: Result<usize, TokenError>)
        ensures
            self@.live.contains_key(*token) ==> result == Ok::<usize, TokenError>(
                self@.live[*token] as usize,
            ) && result->Ok_0 as nat == self@.live[*token],
            !self@.live.contains_key(*token) ==> result == Err::<usize, TokenError>(
                TokenError::InvalidToken,
            ),
    {
        if token.namespace == self.namespace && token.id < self.slots.len() {
            match self.slots[token.id] {
                Some(index) => Ok(index),
                None => Err(TokenError::InvalidToken),
            }
        } else {
            Err(TokenError::InvalidToken)
        }
    }

    /// Ends the life of a token and frees its index for the next insertion.
    pub fn remove(&mut self, token: IndexToken) -> (result: Result<usize, TokenError>)
        requires
            old(self).wf(),
        ensures
            final(self).wf(),
            old(self)@.live.contains_key(token) ==> result is Ok && result->Ok_0 as nat == old(
                self,
            )@.live[token] && final(self)@ == old(self)@.remove(token),
            !old(self)@.live.contains_key(token) ==> result == Err::<usize, TokenError>(
                TokenError::InvalidToken,
            ) && final(self)@ == old(self)@,
    {
        if token.namespace == self.namespace && token.id < self.slots.len() {
            match self.slots[token.id] {
                Some(index) => {
                    self.slots[token.id] = None;
                    self.free.push(index);
                    proof {
                        let before = old(self)@;
                        let after = self@;
                        assert(after.live =~= before.remove(token).live);
                        assert(after.issued =~= before.remove(token).issued);
                        assert(after.free =~= before.remove(token).free);
                        lemma_remove_keeps_inv(before, token);
                    }
                    Ok(index)
                },
                None => Err(TokenError::InvalidToken),
            }
        } else {
            Err(TokenError::InvalidToken)
        }
    }
}

/// Issuing an unissued token keeps a reachable state reachable.
pub proof fn lemma_add_keeps_inv(s: TrackerState, t: IndexToken)
    requires
        s.inv(),
        !s.issued.contains(t),
        t.namespace() == s.namespace,
        s.count < usize::MAX,
    ensures
        s.add(t).inv(),
{
    let r = s.add(t);
    assert forall|i: int, j: int| 0 <= i < j < r.free.len() implies #[trigger] r.free[i]
        != #[trigger] r.free[j] by {
        if s.free.len() > 0 {
            assert(r.free[i] == s.free[i]);
            assert(r.free[j] == s.free[j]);
        }
    }
    assert forall|a: IndexToken, i: int| #[trigger]
        r.live.contains_key(a) && 0 <= i < r.free.len() implies r.live[a] != #[trigger] r.free[i] by {
        if s.free.len() > 0 {
            assert(r.free[i] == s.free[i]);
            assert(s.free.last() == s.free[s.free.len() - 1]);
        } else {
        }
    }
    assert forall|a: IndexToken, b: IndexToken| #[trigger]
        r.live.contains_key(a) && #[trigger] r.live.contains_key(b) && a != b implies r.live[a]
        != r.live[b] by {
        if s.free.len() > 0 {
            assert(s.free.last() == s.free[s.free.len() - 1]);
        }
    }
    assert forall|i: int| 0 <= i < r.free.len() implies #[trigger] r.free[i] < r.next by {
        if s.free.len() > 0 {
            assert(r.free[i] == s.free[i]);
        }
    }
    assert forall|a: IndexToken| #[trigger] r.live.contains_key(a) implies r.live[a] < r.next by {
        if s.free.len() > 0 {
            assert(s.free.last() == s.free[s.free.len() - 1]);
        }
    }
    assert forall|k: nat| k < r.next implies r.free.contains(k) || #[trigger] r.holds(k) by {
        if k == s.next_index() {
            assert(r.live.contains_key(t) && r.live[t] == k);
        } else if k < s.next && s.free.contains(k) {
            let i = choose|i: int| 0 <= i < s.free.len() && s.free[i] == k;
            assert(r.free[i] == k);
        } else {
            assert(s.holds(k));
            let u = choose|u: IndexToken| #[trigger] s.live.contains_key(u) && s.live[u] == k;
            assert(r.live.contains_key(u) && r.live[u] == k);
        }
    }
}

/// Removing a live token keeps a reachable state reachable.
pub proof fn lemma_remove_keeps_inv(s: TrackerState, t: IndexToken)
    requires
        s.inv(),
        s.live.contains_key(t),
    ensures
        s.remove(t).inv(),
{
    let r = s.remove(t);
    assert forall|i: int, j: int| 0 <= i < j < r.free.len() implies #[trigger] r.free[i]
        != #[trigger] r.free[j] by {
        if j < s.free.len() {
            assert(r.free[i] == s.free[i]);
            assert(r.free[j] == s.free[j]);
        } else {
            assert(r.free[i] == s.free[i]);
            assert(r.free[j] == s.live[t]);
        }
    }
    assert forall|a: IndexToken, i: int| #[trigger]
        r.live.contains_key(a) && 0 <= i < r.free.len() implies r.live[a] != #[trigger] r.free[i] by {
        assert(s.live.contains_key(a));
        if i < s.free.len() {
            assert(r.free[i] == s.free[i]);
        } else {
            assert(r.free[i] == s.live[t]);
        }
    }
    assert forall|i: int| 0 <= i < r.free.len() implies #[trigger] r.free[i] < r.next by {
        if i < s.free.len() {
            assert(r.free[i] == s.free[i]);
        }
    }
    assert forall|k: nat| k < r.next implies r.free.contains(k) || #[trigger] r.holds(k) by {
        if k == s.live[t] {
            assert(r.free[s.free.len() as int] == k);
        } else if s.free.contains(k) {
            let i = choose|i: int| 0 <= i < s.free.len() && s.free[i] == k;
            assert(r.free[i] == k);
        } else {
            assert(s.holds(k));
            let u = choose|u: IndexToken| #[trigger] s.live.contains_key(u) && s.live[u] == k;
            assert(r.live.contains_key(u) && r.live[u] == k);
        }
    }
}

/// A tracker that has issued nothing occupies no slot.
pub proof fn lemma_empty_tracker_has_empty_slots(namespace: nat)
    ensures
        TrackerState::empty(namespace).inv(),
        TrackerState::empty(namespace).slots() == SlotsView::empty(),
{
    assert(TrackerState::empty(namespace).slots().active =~= SlotsView::empty().active);
}

/// An insertion occupies exactly the slot that a creation occupies on the
/// render side.
pub proof fn lemma_add_matches_create(s: TrackerState, t: IndexToken)
    requires
        s.inv(),
        !s.issued.contains(t),
    ensures
        s.add(t).slots() == s.slots().create(),
        !s.slots().active.contains(s.next_index()),
{
    let r = s.add(t);
    let k0 = s.next_index();
    if s.free.len() > 0 {
        assert(s.free.last() == s.free[s.free.len() - 1]);
    }
    assert(!s.holds(k0));
    assert forall|k: nat| r.holds(k) <==> (s.holds(k) || k == k0) by {
        if r.holds(k) {
            let u = choose|u: IndexToken| #[trigger] r.live.contains_key(u) && r.live[u] == k;
            if u != t {
                assert(s.live.contains_key(u) && s.live[u] == k);
            }
        }
        if s.holds(k) {
            let u = choose|u: IndexToken| #[trigger] s.live.contains_key(u) && s.live[u] == k;
            assert(r.live.contains_key(u) && r.live[u] == k);
        }
        if k == k0 {
            assert(r.live.contains_key(t) && r.live[t] == k);
        }
    }
    assert(r.slots().active =~= s.slots().create().active);
}

/// A removal frees a slot that is in use on the render side, and leaves the
/// slots as the removal of that index leaves them there.
pub proof fn lemma_remove_matches_release(s: TrackerState, t: IndexToken)
    requires
        s.inv(),
        s.live.contains_key(t),
    ensures
        s.slots().active.contains(s.live[t]),
        s.remove(t).slots() == s.slots().release(s.live[t]),
{
    let r = s.remove(t);
    let k0 = s.live[t];
    assert(s.holds(k0));
    assert forall|k: nat| r.holds(k) <==> (s.holds(k) && k != k0) by {
        if r.holds(k) {
            let u = choose|u: IndexToken| #[trigger] r.live.contains_key(u) && r.live[u] == k;
            assert(s.live.contains_key(u) && s.live[u] == k);
        }
        if s.holds(k) && k != k0 {
            let u = choose|u: IndexToken| #[trigger] s.live.contains_key(u) && s.live[u] == k;
            assert(r.live.contains_key(u) && r.live[u] == k);
        }
    }
    assert(r.slots().active =~= s.slots().release(k0).active);
}

/// Every sequence of insertions and removals keeps a reachable state
/// reachable.
pub proof fn lemma_run_keeps_inv(s: TrackerState, ops: Seq<TrackerOp>)
    requires
        s.inv(),
    ensures
        s.run(ops).inv(),
    decreases ops.len(),
{
    if ops.len() > 0 {
        lemma_run_keeps_inv(s, ops.drop_last());
        let mid = s.run(ops.drop_last());
        match ops.last() {
            TrackerOp::Add(t) => {
                if !mid.issued.contains(t) && t.namespace() == mid.namespace && mid.count
                    < usize::MAX {
                    lemma_add_keeps_inv(mid, t);
                }
            },
            TrackerOp::Remove(t) => {
                if mid.live.contains_key(t) {
                    lemma_remove_keeps_inv(mid, t);
                }
            },
        }
    }
}

/// After any sequence of insertions and removals, two different live tokens
/// never share an index.
pub proof fn lemma_live_indices_distinct(
    s: TrackerState,
    ops: Seq<TrackerOp>,
    a: IndexToken,
    b: IndexToken,
)
    requires
        s.inv(),
        s.run(ops).live.contains_key(a),
        s.run(ops).live.contains_key(b),
        a != b,
    ensures
        s.run(ops).live[a] != s.run(ops).live[b],
{
    lemma_run_keeps_inv(s, ops);
}

/// No sequence of calls makes a tracker accept a token of another namespace.
pub proof fn lemma_foreign_token_never_live(s: TrackerState, t: IndexToken, ops: Seq<TrackerOp>)
    requires
        s.inv(),
        t.namespace() != s.namespace,
    ensures
        !s.run(ops).live.contains_key(t),
        s.run(ops).namespace == s.namespace,
    decreases ops.len(),
{
    lemma_run_keeps_inv(s, ops);
    if ops.len() > 0 {
        lemma_foreign_token_never_live(s, t, ops.drop_last());
    }
}

/// A token that was issued and is no longer live never becomes live again.
pub proof fn lemma_retired_stays_retired(s: TrackerState, t: IndexToken, ops: Seq<TrackerOp>)
    requires
        s.retired(t),
    ensures
        s.run(ops).retired(t),
    decreases ops.len(),
{
    if ops.len() > 0 {
        lemma_retired_stays_retired(s, t, ops.drop_last());
    }
}

/// Once a live token is removed, it is not live after any further calls, so
/// every later lookup or removal of it fails.
pub proof fn lemma_removed_token_stays_invalid(s: TrackerState, t: IndexToken, ops: Seq<TrackerOp>)
    requires
        s.inv(),
        s.live.contains_key(t),
    ensures
        !s.remove(t).run(ops).live.contains_key(t),
        s.remove(t).run(ops).step(TrackerOp::Remove(t)) == s.remove(t).run(ops),
{
    lemma_retired_stays_retired(s.remove(t), t, ops);
}

/// An insertion right after a removal receives the index that was just
/// freed, under a token that differs from the removed one.
pub proof fn lemma_add_after_remove_reuses_index(s: TrackerState, t: IndexToken, u: IndexToken)
    requires
        s.inv(),
        s.live.contains_key(t),
        !s.issued.contains(u),
    ensures
        u != t,
        s.remove(t).next_index() == s.live[t],
        s.remove(t).add(u).live.contains_key(u),
        s.remove(t).add(u).live[u] == s.live[t],
        !s.remove(t).add(u).live.contains_key(t),
{
    assert(s.remove(t).free.last() == s.live[t]);
}

} // verus!
