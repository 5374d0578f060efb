use vstd::prelude::*;
use crate::ids::{is_uuid_v7, RoomId, UserId};
use crate::user::{User, UserView};

verus! {

/// The most users that one room holds.
pub const ROOM_CAPACITY: usize = 50;

/// Why a user cannot join a room.
#[derive(Debug, Clone, Copy, PartialEq, Eq, Structural, PartialOrd, Ord, Hash)]
pub enum RoomError {
    Crowded,
}

/// A group of at most `ROOM_CAPACITY` users, in the order in which they
/// joined.
#[derive(Debug)]
pub struct Room {
    id: RoomId,
    users: Vec<User>,
}

/// The members of a room as plain values, in order.
pub open spec fn user_views(users: Seq<User>) -> Seq<UserView> {
    users.map_values(|u: User| u@)
}

/// The index of the first member of `members` with identifier `id`, if any.
pub open spec fn first_index_of(members: Seq<UserView>, id: u128) -> Option<int> {
    if exists|i: int| 0 <= i < members.len() && members[i].id == id {
        let i = choose|i: int|
            0 <= i < members.len() && members[i].id == id && forall|j: int|
                0 <= j < i ==> members[j].id != id;
        Some(i)
    } else {
        None
    }
}

impl Default for Room {
    fn default() -> (r: Self)
        ensures
            r.members().len() == 0,
            is_uuid_v7(r.spec_id()),
    {
        Room::new()
    }
}

impl Room {
    #[verifier::type_invariant]
    closed spec fn within_capacity(&self) -> bool {
        self.users.len() <= ROOM_CAPACITY
    }

    /// The identifier of the room.
    pub closed spec fn spec_id(&self) -> u128 {
        self.id@
    }

    /// The members of the room, in the order in which they joined.
    pub closed spec fn members(&self) -> Seq<UserView> {
        user_views(self.users@)
    }

    /// An empty room with a fresh identifier.
    pub fn new() -> (r: Self)
        ensures
            r.members().len() == 0,
            is_uuid_v7(r.spec_id()),
    {
        Room { id: RoomId::random(), users: Vec::new() }
    }

    pub fn id(&self) -> (id: RoomId)
        ensures
            id@ == self.spec_id(),
    {
        self.id
    }

    /// The number of members; never more than `ROOM_CAPACITY`.
    pub fn count(&self) -> (n: usize)
        ensures
            n == self.members().len(),
            n <= ROOM_CAPACITY,
    {
        proof {
            use_type_invariant(self);
        }
        self.users.len()
    }

    /// The identifiers of the members, in the order in which they joined.
    pub fn members_ids(&self) -> (ids: Vec<UserId>)
        ensures
            ids@.len() == self.members().len(),
            forall|i: int| 0 <= i < ids@.len() ==> (#[trigger] ids@[i])@ == self.members()[i].id,
    {
        let mut ids: Vec<UserId> = Vec::new();
        let mut i: usize = 0;
        while i < self.users.len()
            invariant
                i <= self.users@.len(),
                ids@.len() == i,
                forall|k: int| 0 <= k < i ==> (#[trigger] ids@[k])@ == self.members()[k].id,
            decreases self.users@.len() - i,
        {
            ids.push(self.users[i].id());
            i += 1;
        }
        ids
    }

    /// The room has no members.
    pub fn is_empty(&self) -> (b: bool)
        ensures
            b == (self.members().len() == 0),
    {
        self.users.len() == 0
    }

    /// Adds `user` as the last member, unless the room is full.
    pub fn add_member(&mut self, user: User) -> (r: Result<(), RoomError>)
        ensures
            r is Err <==> old(self).members().len() >= ROOM_CAPACITY,
            r is Err ==> r->Err_0 == RoomError::Crowded && final(self).members() == old(
                self,
            ).members(),
            r is Ok ==> final(self).members() == old(self).members().push(user@),
            final(self).spec_id() == old(self).spec_id(),
    {
        proof {
            use_type_invariant(&*self);
        }
        if self.count() >= ROOM_CAPACITY {
            return Err(RoomError::Crowded);
        }
        let mut users: Vec<User> = Vec::new();
        core::mem::swap(&mut users, &mut self.users);
        users.push(user);
        self.users = users;
        proof {
            assert(user_views(self.users@) == user_views(old(self).users@).push(user@));
        }
        Ok(())
    }

    /// Removes the first member with identifier `id`, if there is one.
    pub fn remove_member(&mut self, id: UserId)
        ensures
            final(self).spec_id() == old(self).spec_id(),
            match first_index_of(old(self).members(), id@) {
                Some(i) => final(self).members() == old(self).members().remove(i),
                None => final(self).members() == old(self).members(),
            },
    {
        proof {
            use_type_invariant(&*self);
        }
        let mut idx: usize = 0;
        let n = self.users.len();
        while idx < n
            invariant
                n == self.users.len(),
                idx <= n,
                self.users@ == old(self).users@,
                self.id == old(self).id,
                n <= ROOM_CAPACITY,
                forall|j: int| 0 <= j < idx ==> (#[trigger] self.users@[j])@.id != id@,
            decreases n - idx,
        {
            if self.users[idx].id().value() == id.value() {
                let ghost members = old(self).members();
                proof {
                    assert(members[idx as int].id == id@);
                    assert(forall|j: int| 0 <= j < idx ==> members[j].id != id@);
                    let k = choose|i: int|
                        0 <= i < members.len() && members[i].id == id@ && forall|j: int|
                            0 <= j < i ==> members[j].id != id@;
                    assert(k == idx) by {
                        if k < idx {
                            assert(members[k].id != id@);
                        }
                        if idx < k {
                            assert(members[idx as int].id != id@);
                        }
                    }
                }
                let mut users: Vec<User> = Vec::new();
                core::mem::swap(&mut users, &mut self.users);
                users.remove(idx);
                self.users = users;
                proof {
                    assert(user_views(self.users@) == members.remove(idx as int));
                }
                return;
            }
            idx += 1;
        }
        proof {
            let members = old(self).members();
            assert(forall|i: int| 0 <= i < members.len() ==> members[i].id != id@);
        }
    }
}

} // verus!
