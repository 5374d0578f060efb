use vstd::prelude::*;
use vstd::string::*;
use crate::ids::{hyphenated, is_uuid_v7, lemma_hyphenated_ascii, UserId};

verus! {

/// Why a text is refused as a username.
#[derive(Debug, Clone, Copy, PartialEq, Eq, Structural, PartialOrd, Ord, Hash)]
pub enum UsernameError {
    Empty,
}

/// Why a user cannot be created.
#[derive(Debug, Clone, Copy, PartialEq, Eq, Structural, PartialOrd, Ord, Hash)]
pub enum UserError {
    InvalidUsername(UsernameError),
}

/// A display name of a user: any non-empty text.
#[derive(Debug, PartialEq, Eq, PartialOrd, Ord, Hash)]
pub struct Username(String);

impl View for Username {
    type V = Seq<char>;

    closed spec fn view(&self) -> Seq<char> {
        self.0@
    }
}

impl Clone for Username {
    fn clone(&self) -> (r: Self)
        ensures
            r@ == self@,
    {
        Username(self.0.clone())
    }
}

impl Username {
    /// Accepts `username` unless it is empty.
    pub fn new(username: String) -> (r: Result<Self, UsernameError>)
        ensures
            r is Ok <==> username@.len() > 0,
            r is Ok ==> r->Ok_0@ == username@,
            r is Err ==> r->Err_0 == UsernameError::Empty,
    {
        if username.as_str().is_empty() {
            return Err(UsernameError::Empty);
        }
        Ok(Username(username))
    }

    /// The text of the name.
    pub fn as_str(&self) -> (s: &str)
        ensures
            s@ == self@,
    {
        self.0.as_str()
    }
}

/// The name given to a user who did not choose one: `User #` and the last
/// four hexadecimal digits of the text of the UUID `v`.
pub open spec fn default_username(v: u128) -> Seq<char> {
    seq!['U', 's', 'e', 'r', ' ', '#'] + hyphenated(v).subrange(32, 36)
}

/// A user of the game: an identifier and a display name.
#[derive(Debug, PartialEq, Eq, PartialOrd, Ord, Hash)]
pub struct User {
    id: UserId,
    username: Username,
}

/// What a user is made of, as plain values.
pub struct UserView {
    pub id: u128,
    pub username: Seq<char>,
}

impl View for User {
    type V = UserView;

    closed spec fn view(&self) -> UserView {
        UserView { id: self.id@, username: self.username@ }
    }
}

impl Clone for User {
    fn clone(&self) -> (r: Self)
        ensures
            r@ == self@,
    {
        User { id: self.id, username: self.username.clone() }
    }
}

/// The name `default_username(v)` of the UUID `v` whose text is `text`.
fn default_username_of(id: UserId) -> (name: Username)
    ensures
        name@ == default_username(id@),
{
    let text = id.to_string();
    proof {
        lemma_hyphenated_ascii(id@);
    }
    let tail: &str = text.as_str().substring_ascii(32, 36);
    let prefix: &str = "User #";
    proof {
        reveal_strlit("User #");
    }
    let name: String = prefix.to_owned().concat(tail);
    assert(name@ == default_username(id@));
    Username::new(name).expect("got invalid username")
}

impl Default for User {
    /// A user with a fresh identifier and the default name of another fresh
    /// identifier, the one it was made with.
    fn default() -> (u: Self)
        ensures
            is_uuid_v7(u@.id),
            u@.username == default_username(u@.id),
    {
        let id = UserId::random();
        let username = default_username_of(id);
        User { id, username }
    }
}

impl From<UserId> for User {
    /// A user with the given identifier and a default name, taken from
    /// another fresh identifier.
    fn from(id: UserId) -> (u: Self)
        ensures
            u@.id == id@,
            exists|v: u128| is_uuid_v7(v) && u@.username == default_username(v),
    {
        let base = User::default();
        User { id, username: base.username }
    }
}

impl vstd::std_specs::convert::FromSpecImpl<UserId> for User {
    /// The name is drawn at random, so no function of the identifier gives
    /// the user.
    open spec fn obeys_from_spec() -> bool {
        false
    }

    closed spec fn from_spec(v: UserId) -> User {
        arbitrary()
    }
}

impl User {
    /// A user with a fresh identifier and the given name.
    pub fn new(username: String) -> (r: Result<Self, UserError>)
        ensures
            r is Ok <==> username@.len() > 0,
            r is Ok ==> r->Ok_0@.username == username@ && is_uuid_v7(r->Ok_0@.id),
            r is Err ==> r->Err_0 == UserError::InvalidUsername(UsernameError::Empty),
    {
        let username = match Username::new(username) {
            Ok(name) => name,
            Err(e) => {
                return Err(UserError::InvalidUsername(e));
            },
        };
        let base = User::default();
        Ok(User { username, id: base.id })
    }

    pub fn id(&self) -> (id: UserId)
        ensures
            id@ == self@.id,
    {
        self.id
    }

    pub fn username(&self) -> (name: &Username)
        ensures
            name@ == self@.username,
    {
        &self.username
    }

    pub fn rename(&mut self, username: Username)
        ensures
            final(self)@.id == old(self)@.id,
            final(self)@.username == username@,
    {
        self.username = username;
    }
}

} // verus!
