use vstd::prelude::*;
use vstd::hash_map::HashMapWithView;
use vstd::hash_set::HashSetWithView;
use crate::ids::{is_uuid_v7, UserId};
use crate::quiz::QuizError;
use crate::room::{first_index_of, Room, RoomError, ROOM_CAPACITY};
use crate::user::{default_username, User, UserView, Username};

verus! {

/// Why the server refuses a request on its rooms or quizzes.
#[derive(Debug, Clone, Copy, PartialEq, Eq, Structural, PartialOrd, Ord, Hash)]
pub enum AppStateError {
    Room(RoomError),
    Quiz(QuizError),
    RoomNotFound,
    QuizNotFound,
}

/// The users known to the server, by identifier, and the rooms, by the
/// identifier of the user who created them.
pub struct AppState {
    users: HashMapWithView<u128, User>,
    rooms: HashMapWithView<u128, Room>,
}

/// The registered users among `ids`, each once, in the order in which
/// their identifiers first occur.
pub open spec fn registered(ids: Seq<u128>, users: Map<u128, User>) -> Seq<UserView>
    decreases ids.len(),
{
    if ids.len() == 0 {
        seq![]
    } else {
        let prev = registered(ids.drop_last(), users);
        let x = ids.last();
        if users.contains_key(x) && !ids.drop_last().contains(x) {
            prev.push(users[x]@)
        } else {
            prev
        }
    }
}

/// The identifiers of the members of `room`, in order.
pub open spec fn member_ids(room: Room) -> Seq<u128> {
    room.members().map_values(|u: UserView| u.id)
}

impl AppState {
    /// The registered users.
    pub closed spec fn users(&self) -> Map<u128, User> {
        self.users@
    }

    /// The rooms, by owner.
    pub closed spec fn rooms(&self) -> Map<u128, Room> {
        self.rooms@
    }

    /// Every user is registered under its own identifier.
    pub open spec fn wf(&self) -> bool {
        forall|k: u128| #[trigger] self.users().contains_key(k) ==> self.users()[k]@.id == k
    }

    /// No user and no room.
    pub fn new() -> (s: Self)
        ensures
            s.users() == Map::<u128, User>::empty(),
            s.rooms() == Map::<u128, Room>::empty(),
            s.wf(),
    {
        broadcast use vstd::std_specs::hash::group_hash_axioms;

        AppState { users: HashMapWithView::new(), rooms: HashMapWithView::new() }
    }

    /// Registers `user`, replacing a user with the same identifier.
    pub fn add_user(&mut self, user: User) -> (id: UserId)
        requires
            old(self).wf(),
        ensures
            final(self).wf(),
            id@ == user@.id,
            final(self).users() == old(self).users().insert(user@.id, user),
            final(self).rooms() == old(self).rooms(),
    {
        let id = user.id();
        let ghost u = user;
        self.users.insert(id.value(), user);
        proof {
            assert forall|k: u128| #[trigger] self.users().contains_key(k) implies self.users()[k]@.id == k by {
                if k == id@ {
                    assert(self.users()[k] == u);
                } else {
                    assert(old(self).users().contains_key(k));
                }
            }
        }
        id
    }

    /// The registered user with identifier `user_id`.
    pub fn get_user(&self, user_id: &UserId) -> (r: Option<User>)
        ensures
            self.users().contains_key(user_id@) ==> (r matches Some(u) && u@ == self.users()[user_id@]@),
            !self.users().contains_key(user_id@) ==> r is None,
    {
        match self.users.get(&user_id.value()) {
            Some(user) => Some(user.clone()),
            None => None,
        }
    }

    /// Renames the registered user with identifier `user_id`, if any.
    pub fn rename_user(&mut self, user_id: &UserId, username: Username)
        requires
            old(self).wf(),
        ensures
            final(self).wf(),
            final(self).rooms() == old(self).rooms(),
            final(self).users().dom() == old(self).users().dom(),
            forall|k: u128| k != user_id@ && old(self).users().contains_key(k) ==> #[trigger] final(self).users()[k] == old(self).users()[k],
            old(self).users().contains_key(user_id@) ==> final(self).users()[user_id@]@ == (UserView {
                id: old(self).users()[user_id@]@.id,
                username: username@,
            }),
    {
        match self.users.remove(&user_id.value()) {
            Some(mut user) => {
                user.rename(username);
                let ghost renamed = user;
                self.users.insert(user_id.value(), user);
                proof {
                    assert(self.users().dom() =~= old(self).users().dom());
                    assert forall|k: u128| #[trigger] self.users().contains_key(k) implies self.users()[k]@.id == k by {
                        if k == user_id@ {
                            assert(self.users()[k] == renamed);
                            assert(old(self).users().contains_key(k));
                        } else {
                            assert(old(self).users().contains_key(k));
                        }
                    }
                }
            },
            None => {
                assert(self.users() =~= old(self).users());
            },
        }
    }

    /// Forgets the registered user with identifier `user_id`, if any.
    pub fn remove_user(&mut self, user_id: &UserId)
        requires
            old(self).wf(),
        ensures
            final(self).wf(),
            final(self).users() == old(self).users().remove(user_id@),
            final(self).rooms() == old(self).rooms(),
    {
        let _ = self.users.remove(&user_id.value());
        proof {
            assert(self.users() =~= old(self).users().remove(user_id@));
        }
    }

    /// The identifiers of the members of the room of `owner_id`.
    pub fn get_room_member_ids(&self, owner_id: &UserId) -> (r: Result<Vec<UserId>, AppStateError>)
        ensures
            !self.rooms().contains_key(owner_id@) ==> r == Err::<Vec<UserId>, _>(AppStateError::RoomNotFound),
            self.rooms().contains_key(owner_id@) ==> (r matches Ok(ids) && ids@.map_values(|u: UserId| u@) == member_ids(self.rooms()[owner_id@])),
    {
        match self.rooms.get(&owner_id.value()) {
            Some(room) => {
                let ids = room.members_ids();
                assert(ids@.map_values(|u: UserId| u@) =~= member_ids(*room));
                Ok(ids)
            },
            None => Err(AppStateError::RoomNotFound),
        }
    }

    /// The registered users among the members of the room of `owner_id`,
    /// each once.
    pub fn get_room_members(&self, owner_id: &UserId) -> (r: Result<Vec<User>, AppStateError>)
        ensures
            !self.rooms().contains_key(owner_id@) ==> r == Err::<Vec<User>, _>(AppStateError::RoomNotFound),
            self.rooms().contains_key(owner_id@) ==> (r matches Ok(users) && users@.map_values(|u: User| u@) == registered(member_ids(self.rooms()[owner_id@]), self.users())),
            self.rooms().contains_key(owner_id@) ==> (r matches Ok(users) && forall|x: u128|
                self.users().contains_key(x) && #[trigger] member_ids(self.rooms()[owner_id@]).contains(x) ==> users@.map_values(|u: User| u@).contains(self.users()[x]@)),
    {
        let ids = match self.get_room_member_ids(owner_id) {
            Ok(ids) => ids,
            Err(e) => {
                return Err(e);
            },
        };
        let ghost id_seq = ids@.map_values(|u: UserId| u@);
        let mut members: Vec<User> = Vec::new();
        let mut i: usize = 0;
        while i < ids.len()
            invariant
                i <= ids@.len(),
                id_seq == ids@.map_values(|u: UserId| u@),
                members@.map_values(|u: User| u@) == registered(id_seq.take(i as int), self.users()),
            decreases ids@.len() - i,
        {
            let id = ids[i];
            let ghost prefix = id_seq.take(i as int);
            assert(id_seq.take(i + 1).drop_last() == prefix);
            assert(id_seq.take(i + 1).last() == id@);
            let mut seen = false;
            let mut k: usize = 0;
            while k < i
                invariant
                    k <= i < ids@.len(),
                    id == ids@[i as int],
                    id_seq == ids@.map_values(|u: UserId| u@),
                    prefix == id_seq.take(i as int),
                    seen == exists|j: int| 0 <= j < k && prefix[j] == id@,
                decreases i - k,
            {
                if ids[k].value() == id.value() {
                    assert(prefix[k as int] == id@);
                    seen = true;
                }
                k += 1;
            }
            assert(seen == prefix.contains(id@));
            if !seen {
                match self.users.get(&id.value()) {
                    Some(user) => {
                        let ghost before = members@;
                        members.push(user.clone());
                        assert(members@.map_values(|u: User| u@) =~= before.map_values(|u: User| u@).push(user@));
                    },
                    None => {},
                }
            }
            i += 1;
        }
        assert(id_seq.take(ids@.len() as int) == id_seq);
        proof {
            crate::laws::lemma_registered_lists_every_member(id_seq, self.users());
        }
        Ok(members)
    }

    /// Creates an empty room owned by `owner_id`, unless it has one already.
    /// Returns the owner's identifier, which identifies the room.
    pub fn create_room(&mut self, owner_id: UserId) -> (id: UserId)
        ensures
            id == owner_id,
            final(self).users() == old(self).users(),
            old(self).rooms().contains_key(owner_id@) ==> final(self).rooms() == old(self).rooms(),
            !old(self).rooms().contains_key(owner_id@) ==> {
                &&& final(self).rooms().dom() == old(self).rooms().dom().insert(owner_id@)
                &&& forall|k: u128| k != owner_id@ && old(self).rooms().contains_key(k) ==> #[trigger] final(self).rooms()[k] == old(self).rooms()[k]
                &&& final(self).rooms()[owner_id@].members().len() == 0
            },
    {
        if self.rooms.contains_key(&owner_id.value()) {
            return owner_id;
        }
        self.rooms.insert(owner_id.value(), Room::new());
        proof {
            assert(self.rooms().dom() =~= old(self).rooms().dom().insert(owner_id@));
        }
        owner_id
    }

    /// Adds the user `user_id` to the room of `owner_id`, unless there is no
    /// such room or it is full. The room records the member by identifier,
    /// as `User::from` makes it.
    pub fn join_room(&mut self, owner_id: &UserId, user_id: UserId) -> (r: Result<(), AppStateError>)
        ensures
            final(self).users() == old(self).users(),
            final(self).rooms().dom() == old(self).rooms().dom(),
            forall|k: u128| k != owner_id@ && old(self).rooms().contains_key(k) ==> #[trigger] final(self).rooms()[k] == old(self).rooms()[k],
            !old(self).rooms().contains_key(owner_id@) ==> r == Err::<(), _>(AppStateError::RoomNotFound),
            old(self).rooms().contains_key(owner_id@) ==> {
                let before = old(self).rooms()[owner_id@];
                let after = final(self).rooms()[owner_id@];
                &&& after.spec_id() == before.spec_id()
                &&& (before.members().len() >= ROOM_CAPACITY <==> r == Err::<(), _>(AppStateError::Room(RoomError::Crowded)))
                &&& (before.members().len() < ROOM_CAPACITY <==> r is Ok)
                &&& r is Err ==> after.members() == before.members()
                &&& r is Ok ==> {
                    &&& after.members().len() == before.members().len() + 1
                    &&& after.members().drop_last() == before.members()
                    &&& after.members().last().id == user_id@
                    &&& exists|v: u128| is_uuid_v7(v) && after.members().last().username == default_username(v)
                }
            },
    {
        match self.rooms.remove(&owner_id.value()) {
            Some(mut room) => {
                let member = User::from(user_id);
                let r = room.add_member(member);
                self.rooms.insert(owner_id.value(), room);
                proof {
                    assert(self.rooms().dom() =~= old(self).rooms().dom());
                }
                match r {
                    Ok(()) => Ok(()),
                    Err(e) => Err(AppStateError::Room(e)),
                }
            },
            None => Err(AppStateError::RoomNotFound),
        }
    }

    /// Removes the user `user_id` from the room of `owner_id`; a room left
    /// empty is removed.
    pub fn leave_room(&mut self, owner_id: &UserId, user_id: &UserId) -> (r: Result<(), AppStateError>)
        ensures
            final(self).users() == old(self).users(),
            forall|k: u128| k != owner_id@ && old(self).rooms().contains_key(k) ==> #[trigger] final(self).rooms().contains_key(k) && final(self).rooms()[k] == old(self).rooms()[k],
            forall|k: u128| k != owner_id@ && !old(self).rooms().contains_key(k) ==> !#[trigger] final(self).rooms().contains_key(k),
            !old(self).rooms().contains_key(owner_id@) ==> r == Err::<(), _>(AppStateError::RoomNotFound) && final(self).rooms() == old(self).rooms(),
            old(self).rooms().contains_key(owner_id@) ==> {
                let before = old(self).rooms()[owner_id@];
                let left = match first_index_of(before.members(), user_id@) {
                    Some(i) => before.members().remove(i),
                    None => before.members(),
                };
                &&& r is Ok
                &&& left.len() == 0 ==> !final(self).rooms().contains_key(owner_id@)
                &&& left.len() > 0 ==> final(self).rooms().contains_key(owner_id@)
                    && final(self).rooms()[owner_id@].members() == left
                    && final(self).rooms()[owner_id@].spec_id() == before.spec_id()
            },
    {
        match self.rooms.remove(&owner_id.value()) {
            Some(mut room) => {
                room.remove_member(*user_id);
                if !room.is_empty() {
                    self.rooms.insert(owner_id.value(), room);
                }
                Ok(())
            },
            None => Err(AppStateError::RoomNotFound),
        }
    }
}

/// The quizzes of the rooms, by the identifier of the room's owner, and
/// the owners whose quiz has started. A quiz is of any type `Q`: what runs
/// it is no concern of the registry.
#[verifier::reject_recursive_types(Q)]
pub struct QuizRegistry<Q> {
    quizzes: HashMapWithView<u128, Q>,
    started: HashSetWithView<u128>,
}

impl<Q> QuizRegistry<Q> {
    /// The quizzes, by owner.
    pub closed spec fn quizzes(&self) -> Map<u128, Q> {
        self.quizzes@
    }

    /// The owners whose quiz has started.
    pub closed spec fn started(&self) -> Set<u128> {
        self.started@
    }

    /// No quiz.
    pub fn new() -> (r: Self)
        ensures
            r.quizzes() == Map::<u128, Q>::empty(),
            r.started() == Set::<u128>::empty(),
    {
        broadcast use vstd::std_specs::hash::group_hash_axioms;

        QuizRegistry { quizzes: HashMapWithView::new(), started: HashSetWithView::new() }
    }

    /// Creates a quiz for the room of `owner_id` with `make`, unless the
    /// room has one already; `make` is called only then. Returns the
    /// owner's identifier.
    pub fn create_quiz<F: FnOnce() -> Q>(&mut self, owner_id: UserId, make: F) -> (id: UserId)
        requires
            make.requires(()),
        ensures
            id == owner_id,
            final(self).started() == old(self).started(),
            old(self).quizzes().contains_key(owner_id@) ==> final(self).quizzes() == old(self).quizzes(),
            !old(self).quizzes().contains_key(owner_id@) ==> exists|q: Q| {
                &&& make.ensures((), q)
                &&& final(self).quizzes() == old(self).quizzes().insert(owner_id@, q)
            },
    {
        if self.quizzes.contains_key(&owner_id.value()) {
            return owner_id;
        }
        let quiz = make();
        self.quizzes.insert(owner_id.value(), quiz);
        owner_id
    }

    /// Whether the quiz of the room of `owner_id` has started.
    pub fn is_started(&self, owner_id: &UserId) -> (b: bool)
        ensures
            b == self.started().contains(owner_id@),
    {
        self.started.contains(&owner_id.value())
    }

    /// Records that the quiz of the room of `owner_id` has started.
    pub fn mark_started(&mut self, owner_id: &UserId)
        ensures
            final(self).quizzes() == old(self).quizzes(),
            final(self).started() == old(self).started().insert(owner_id@),
    {
        let _ = self.started.insert(owner_id.value());
    }

    /// The quiz of the room of `owner_id`, taken out of the registry.
    pub fn take_quiz(&mut self, owner_id: &UserId) -> (r: Result<Q, AppStateError>)
        ensures
            final(self).started() == old(self).started(),
            !old(self).quizzes().contains_key(owner_id@) ==> r is Err && r->Err_0 == AppStateError::QuizNotFound
                && final(self).quizzes() == old(self).quizzes(),
            old(self).quizzes().contains_key(owner_id@) ==> r is Ok && r->Ok_0 == old(self).quizzes()[owner_id@]
                && final(self).quizzes() == old(self).quizzes().remove(owner_id@),
    {
        match self.quizzes.remove(&owner_id.value()) {
            Some(quiz) => Ok(quiz),
            None => Err(AppStateError::QuizNotFound),
        }
    }

    /// Puts `quiz` back as the quiz of the room of `owner_id`.
    pub fn put_quiz(&mut self, owner_id: UserId, quiz: Q)
        ensures
            final(self).started() == old(self).started(),
            final(self).quizzes() == old(self).quizzes().insert(owner_id@, quiz),
    {
        self.quizzes.insert(owner_id.value(), quiz);
    }

    /// The quiz of the room of `owner_id`.
    pub fn get_quiz(&self, owner_id: &UserId) -> (r: Result<&Q, AppStateError>)
        ensures
            !self.quizzes().contains_key(owner_id@) ==> r is Err && r->Err_0 == AppStateError::QuizNotFound,
            self.quizzes().contains_key(owner_id@) ==> r is Ok && *r->Ok_0 == self.quizzes()[owner_id@],
    {
        match self.quizzes.get(&owner_id.value()) {
            Some(quiz) => Ok(quiz),
            None => Err(AppStateError::QuizNotFound),
        }
    }

    /// Forgets the quiz of the room of `owner_id`, if any, and that it
    /// started.
    pub fn remove_quiz(&mut self, owner_id: &UserId)
        ensures
            final(self).quizzes() == old(self).quizzes().remove(owner_id@),
            final(self).started() == old(self).started().remove(owner_id@),
    {
        let _ = self.quizzes.remove(&owner_id.value());
        let _ = self.started.remove(&owner_id.value());
        proof {
            assert(self.quizzes() =~= old(self).quizzes().remove(owner_id@));
        }
    }

    /// The number of quizzes.
    pub fn len(&self) -> (n: usize)
        ensures
            n == self.quizzes().len(),
    {
        self.quizzes.len()
    }
}

} // verus!
