//! The room registry: the single authority over which session is joined to
//! which room. It allocates session identifiers, records membership, and
//! enumerates the recipients of a broadcast. It never touches a transport
//! itself: `broadcast` hands back the ids to deliver to, and each session's
//! owner performs the actual writes.

use vstd::prelude::*;

verus! {

/// The set of sessions currently joined to `room` under the membership map
/// `m` (session id -> room id).
pub open spec fn room_members(m: Map<u64, u64>, room: u64) -> Set<u64> {
    Set::new(|id: u64| m.dom().contains(id) && m[id] == room)
}

/// Central authority over room membership. Rooms are created implicitly on
/// first join and never destroyed; a session id is registered in at most one
/// room at a time.
pub struct Registry {
    /// One `(session_id, room_id)` entry per registered session.
    members: Vec<(u64, u64)>,
    /// Next identifier to hand out; every registered id is below it, and 0
    /// is never issued (sessions use 0 as their "unset" sentinel).
    next_id: u64,
}

impl Registry {
    /// Registered ids are pairwise distinct and below the allocation
    /// counter, which starts past the zero sentinel.
    pub closed spec fn wf(self) -> bool {
        &&& forall|i: int, j: int|
                0 <= i < j < self.members@.len()
                    ==> self.members@[i].0 != self.members@[j].0
        &&& forall|i: int|
                0 <= i < self.members@.len() ==> self.members@[i].0 < self.next_id
        &&& 1 <= self.next_id
    }

    /// The next identifier the registry would issue: every id issued so far
    /// lies below it. A monotonically increasing counter — identifiers are
    /// never reused, so a fresh one can never collide with a live session.
    pub closed spec fn id_ceiling(self) -> u64 {
        self.next_id
    }

    /// Membership as a map from session id to the room it joined.
    pub closed spec fn membership(self) -> Map<u64, u64> {
        Map::new(
            |id: u64| exists|i: int|
                0 <= i < self.members@.len() && self.members@[i].0 == id,
            |id: u64| self.members@[choose|i: int|
                0 <= i < self.members@.len() && self.members@[i].0 == id].1,
        )
    }

    /// The entry at index `i` is what the membership map records for its id.
    proof fn lemma_entry(self, i: int)
        requires
            self.wf(),
            0 <= i < self.members@.len(),
        ensures
            self.membership().dom().contains(self.members@[i].0),
            self.membership()[self.members@[i].0] == self.members@[i].1,
    {
        let id = self.members@[i].0;
        assert(0 <= i < self.members@.len() && self.members@[i].0 == id);
        let k = choose|k: int|
            0 <= k < self.members@.len() && self.members@[k].0 == id;
        if k < i {
            assert(self.members@[k].0 != self.members@[i].0);
        } else if i < k {
            assert(self.members@[i].0 != self.members@[k].0);
        }
        assert(k == i);
    }

    /// A fresh registry, with no session joined to any room.
    pub fn new() -> (r: Registry)
        ensures
            r.wf(),
            r.membership() == Map::<u64, u64>::empty(),
            r.id_ceiling() == 1,
    {
        let r = Registry { members: Vec::new(), next_id: 1 };
        proof {
            assert(r.membership() =~= Map::<u64, u64>::empty());
        }
        r
    }

    /// Whether another identifier can still be issued. The counter spans
    /// the whole u64 range, so exhaustion is unreachable in practice, but a
    /// caller that cannot reason about it can test here and surface a
    /// connection refusal instead.
    pub fn can_allocate(&self) -> (b: bool)
        ensures
            b == (self.id_ceiling() < u64::MAX),
    {
        self.next_id < u64::MAX
    }

    /// Registers a new session in `room_id` and returns its identifier:
    /// fresh among all currently registered sessions and never the zero
    /// sentinel. The rest of the membership is untouched.
    pub fn connect(&mut self, room_id: u64) -> (id: u64)
        requires
            old(self).wf(),
            old(self).id_ceiling() < u64::MAX,
        ensures
            final(self).wf(),
            id != 0,
            id == old(self).id_ceiling(),
            final(self).id_ceiling() == old(self).id_ceiling() + 1,
            !old(self).membership().dom().contains(id),
            final(self).membership() == old(self).membership().insert(id, room_id),
    {
        let id = self.next_id;
        self.next_id = self.next_id + 1;
        self.members.push((id, room_id));
        proof {
            let so = old(self).members@;
            let sn = self.members@;
            let mo = old(self).membership();
            let mn = self.membership();
            assert(sn == so.push((id, room_id)));
            assert(sn[so.len() as int] == (id, room_id));
            assert forall|i: int| 0 <= i < so.len() implies sn[i] == so[i] by {}
            // the fresh id collides with no registered entry
            assert forall|i: int| 0 <= i < so.len() implies so[i].0 != id by {}
            if mo.dom().contains(id) {
                let i = choose|i: int| 0 <= i < so.len() && so[i].0 == id;
                assert(false);
            }
            // domains agree up to the fresh id
            assert forall|k: u64| #[trigger] mn.dom().contains(k)
                implies mo.dom().contains(k) || k == id by {
                let i = choose|i: int| 0 <= i < sn.len() && sn[i].0 == k;
                if i < so.len() {
                    assert(so[i].0 == k);
                }
            }
            assert forall|k: u64| mo.dom().contains(k) || k == id
                implies #[trigger] mn.dom().contains(k) by {
                if mo.dom().contains(k) {
                    let i = choose|i: int| 0 <= i < so.len() && so[i].0 == k;
                    assert(sn[i].0 == k);
                } else {
                    assert(sn[so.len() as int].0 == id);
                }
            }
            // values agree entry by entry
            self.lemma_entry(so.len() as int);
            assert(mn[id] == room_id);
            assert forall|k: u64| mo.dom().contains(k) && k != id
                implies #[trigger] mn[k] == mo[k] by {
                let i = choose|i: int| 0 <= i < so.len() && so[i].0 == k;
                old(self).lemma_entry(i);
                self.lemma_entry(i);
            }
            assert(mn =~= mo.insert(id, room_id));
        }
        id
    }

    /// Deregisters `id` from whichever room it is in, if any. Removing an
    /// absent or never-issued id is a silent no-op: the operation is
    /// idempotent and never fails.
    #[verifier::loop_isolation(false)]
    pub fn disconnect(&mut self, id: u64)
        requires
            old(self).wf(),
        ensures
            final(self).wf(),
            final(self).id_ceiling() == old(self).id_ceiling(),
            final(self).membership() == old(self).membership().remove(id),
    {
        let ghost mo = old(self).membership();
        let mut i: usize = 0;
        while i < self.members.len()
            invariant
                *self == *old(self),
                0 <= i <= self.members@.len(),
                forall|j: int| 0 <= j < i ==> self.members@[j].0 != id,
            decreases self.members@.len() - i,
        {
            if self.members[i].0 == id {
                self.members.remove(i);
                proof {
                    let so = old(self).members@;
                    let sn = self.members@;
                    let mn = self.membership();
                    assert(sn == so.remove(i as int));
                    so.remove_ensures(i as int);
                    assert forall|a: int| 0 <= a < sn.len() implies
                        #[trigger] sn[a] == (if a < i { so[a] } else { so[a + 1] }) by {
                        if a < i {
                            assert(sn[a] == so[a]);
                        } else {
                            assert(sn[a] == so[a + 1]);
                        }
                    }
                    assert(self.wf());
                    // domains: exactly the old ids, minus the removed one
                    assert forall|k: u64| #[trigger] mn.dom().contains(k)
                        implies mo.dom().contains(k) && k != id by {
                        let a = choose|a: int| 0 <= a < sn.len() && sn[a].0 == k;
                        let b: int = if a < i { a } else { a + 1 };
                        assert(so[b].0 == k);
                        if k == id {
                            // two distinct old entries would share the id
                            assert(so[i as int].0 == id);
                            assert(b != i);
                        }
                    }
                    assert forall|k: u64| mo.dom().contains(k) && k != id
                        implies #[trigger] mn.dom().contains(k) by {
                        let b = choose|b: int| 0 <= b < so.len() && so[b].0 == k;
                        let a: int = if b < i { b } else { b - 1 };
                        assert(sn[a].0 == k);
                    }
                    // values: untouched entries keep their room
                    assert forall|k: u64| mo.dom().contains(k) && k != id
                        implies #[trigger] mn[k] == mo[k] by {
                        let b = choose|b: int| 0 <= b < so.len() && so[b].0 == k;
                        let a: int = if b < i { b } else { b - 1 };
                        old(self).lemma_entry(b);
                        self.lemma_entry(a);
                        assert(sn[a] == so[b]);
                    }
                    assert(mn =~= mo.remove(id));
                }
                return;
            }
            i = i + 1;
        }
        proof {
            if mo.dom().contains(id) {
                let j = choose|j: int|
                    0 <= j < self.members@.len() && self.members@[j].0 == id;
                assert(false);
            }
            assert(self.membership() =~= mo.remove(id));
        }
    }

    /// Enumerates the recipients of a broadcast to `room_id`: exactly the
    /// sessions currently joined to that room, each once, and no session
    /// joined to a different room or to none.
    #[verifier::loop_isolation(false)]
    pub fn broadcast(&self, room_id: u64) -> (out: Vec<u64>)
        requires
            self.wf(),
        ensures
            forall|id: u64| #[trigger] out@.contains(id)
                <==> room_members(self.membership(), room_id).contains(id),
            forall|a: int, b: int| 0 <= a < b < out@.len() ==> out@[a] != out@[b],
    {
        let mut out: Vec<u64> = Vec::new();
        let mut i: usize = 0;
        while i < self.members.len()
            invariant
                0 <= i <= self.members@.len(),
                self.wf(),
                forall|id: u64| #[trigger] out@.contains(id)
                    <==> exists|j: int| 0 <= j < i && self.members@[j] == (id, room_id),
                forall|a: int, b: int| 0 <= a < b < out@.len() ==> out@[a] != out@[b],
            decreases self.members@.len() - i,
        {
            if self.members[i].1 == room_id {
                let ghost before = out@;
                proof {
                    // the id at index i is not yet collected: its witness
                    // index would clash with id uniqueness
                    if before.contains(self.members@[i as int].0) {
                        let j = choose|j: int|
                            0 <= j < i && self.members@[j] == (self.members@[i as int].0, room_id);
                        assert(self.members@[j].0 != self.members@[i as int].0);
                    }
                }
                out.push(self.members[i].0);
                proof {
                    assert(self.members@[i as int] == (self.members@[i as int].0, room_id));
                    assert forall|id: u64| #[trigger] out@.contains(id)
                        implies exists|j: int|
                            0 <= j < i + 1 && self.members@[j] == (id, room_id) by {
                        if before.contains(id) {
                            let j = choose|j: int|
                                0 <= j < i && self.members@[j] == (id, room_id);
                            assert(0 <= j < i + 1 && self.members@[j] == (id, room_id));
                        } else {
                            assert(out@ == before.push(self.members@[i as int].0));
                            assert(id == self.members@[i as int].0);
                            assert(self.members@[i as int] == (id, room_id));
                        }
                    }
                    assert forall|id: u64|
                        (exists|j: int| 0 <= j < i + 1 && self.members@[j] == (id, room_id))
                        implies #[trigger] out@.contains(id) by {
                        let j = choose|j: int|
                            0 <= j < i + 1 && self.members@[j] == (id, room_id);
                        if j < i {
                            assert(before.contains(id));
                            let w = choose|w: int| 0 <= w < before.len() && before[w] == id;
                            assert(out@[w] == id);
                        } else {
                            assert(out@[out@.len() - 1] == id);
                        }
                    }
                }
            } else {
                proof {
                    assert forall|id: u64| #[trigger] out@.contains(id)
                        <==> exists|j: int|
                            0 <= j < i + 1 && self.members@[j] == (id, room_id) by {
                        if exists|j: int| 0 <= j < i + 1 && self.members@[j] == (id, room_id) {
                            let j = choose|j: int|
                                0 <= j < i + 1 && self.members@[j] == (id, room_id);
                            assert(j < i);
                        }
                    }
                }
            }
            i = i + 1;
        }
        proof {
            let m = self.membership();
            assert forall|id: u64| #[trigger] out@.contains(id)
                implies room_members(m, room_id).contains(id) by {
                let j = choose|j: int|
                    0 <= j < self.members@.len() && self.members@[j] == (id, room_id);
                self.lemma_entry(j);
            }
            assert forall|id: u64| room_members(m, room_id).contains(id)
                implies #[trigger] out@.contains(id) by {
                let j = choose|j: int|
                    0 <= j < self.members@.len() && self.members@[j].0 == id;
                self.lemma_entry(j);
                assert(self.members@[j] == (id, room_id));
            }
        }
        out
    }
}

/// A registered session belongs to exactly one room's member set — the room
/// recorded for it — and an unregistered id belongs to none. Together with
/// the contracts of `connect` and `disconnect` this pins the whole
/// lifecycle: from the moment `connect` returns an id until `disconnect`
/// removes it, the id is in precisely one member set, and afterwards in
/// none.
pub proof fn lemma_session_in_exactly_one_room(m: Map<u64, u64>, id: u64)
    ensures
        m.dom().contains(id)
            ==> forall|room: u64| #[trigger] room_members(m, room).contains(id) <==> room == m[id],
        !m.dom().contains(id)
            ==> forall|room: u64| !(#[trigger] room_members(m, room).contains(id)),
{
}

/// Other sessions' churn never moves a registered session: connecting or
/// disconnecting a different id leaves this id registered, in the same
/// room. So a session stays in exactly its one room from its `connect`
/// until its own `disconnect`, whatever happens around it.
pub proof fn lemma_membership_stable_under_others(m: Map<u64, u64>, id: u64, other: u64, room: u64)
    requires
        id != other,
        m.dom().contains(id),
    ensures
        m.insert(other, room).dom().contains(id),
        m.insert(other, room)[id] == m[id],
        m.remove(other).dom().contains(id),
        m.remove(other)[id] == m[id],
{
}

/// Disconnecting is idempotent: removing the same id a second time, or an id
/// that was never registered, leaves the membership exactly as it was.
pub proof fn lemma_disconnect_idempotent(m: Map<u64, u64>, id: u64)
    ensures
        m.remove(id).remove(id) == m.remove(id),
        !m.dom().contains(id) ==> m.remove(id) == m,
{
    assert(m.remove(id).remove(id) =~= m.remove(id));
    if !m.dom().contains(id) {
        assert(m.remove(id) =~= m);
    }
}

/// A session that connects under a fresh id and then disconnects leaves the
/// membership exactly as it found it.
pub proof fn lemma_connect_then_disconnect(m: Map<u64, u64>, id: u64, room: u64)
    requires
        !m.dom().contains(id),
    ensures
        m.insert(id, room).remove(id) == m,
{
    assert(m.insert(id, room).remove(id) =~= m);
}

/// Distinct rooms have disjoint member sets: a broadcast to one room can
/// never reach a session joined to another.
pub proof fn lemma_rooms_disjoint(m: Map<u64, u64>, r1: u64, r2: u64)
    requires
        r1 != r2,
    ensures
        room_members(m, r1).disjoint(room_members(m, r2)),
{
}

} // verus!
