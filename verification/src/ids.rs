use vstd::prelude::*;
use vstd::arithmetic::power::pow;
use vstd::utf8::is_ascii_chars;

verus! {

/// The error of `uuid` when a text is not a UUID.
#[verifier::external_type_specification]
#[verifier::external_body]
pub struct ExUuidError(uuid::Error);

/// The lower-case hexadecimal digit of `d`, for `0 <= d < 16`.
pub open spec fn hex_digit(d: int) -> char {
    if d == 0 { '0' } else if d == 1 { '1' } else if d == 2 { '2' } else if d == 3 { '3' }
    else if d == 4 { '4' } else if d == 5 { '5' } else if d == 6 { '6' } else if d == 7 { '7' }
    else if d == 8 { '8' } else if d == 9 { '9' } else if d == 10 { 'a' } else if d == 11 { 'b' }
    else if d == 12 { 'c' } else if d == 13 { 'd' } else if d == 14 { 'e' } else { 'f' }
}

/// The 32 hexadecimal digits of `v`, most significant first.
pub open spec fn simple_hex(v: u128) -> Seq<char> {
    Seq::new(32, |i: int| hex_digit(((v as int) / pow(16, (31 - i) as nat)) % 16))
}

/// The hyphenated text of the UUID whose big-endian value is `v`, as
/// `67e55044-10b1-426f-9247-bb680e5fe0c8`: groups of 8, 4, 4, 4 and 12
/// lower-case hexadecimal digits joined by `-`.
pub open spec fn hyphenated(v: u128) -> Seq<char> {
    let s = simple_hex(v);
    s.subrange(0, 8) + seq!['-'] + s.subrange(8, 12) + seq!['-'] + s.subrange(12, 16)
        + seq!['-'] + s.subrange(16, 20) + seq!['-'] + s.subrange(20, 32)
}

/// `v` carries the version and variant bits of a version 7 UUID.
pub open spec fn is_uuid_v7(v: u128) -> bool {
    &&& (v >> 76u128) & 0xfu128 == 7
    &&& (v >> 62u128) & 0x3u128 == 2
}

/// The value that `uuid` parses out of a text, if the text is a UUID.
pub uninterp spec fn uuid_parsed(text: Seq<char>) -> Option<u128>;

/// The hyphenated text is 36 ASCII characters long.
pub proof fn lemma_hyphenated_ascii(v: u128)
    ensures
        hyphenated(v).len() == 36,
        is_ascii_chars(hyphenated(v)),
{
    let s = simple_hex(v);
    assert forall|i: int| 0 <= i < 32 implies '\0' <= #[trigger] s[i] <= '\u{7f}' by {
        let d = ((v as int) / pow(16, (31 - i) as nat)) % 16;
        assert(0 <= d < 16);
    }
    let h = hyphenated(v);
    assert forall|i: int| 0 <= i < h.len() implies '\0' <= #[trigger] h[i] <= '\u{7f}' by {
        if i < 8 {
            assert(h[i] == s[i]);
        } else if i == 8 {
        } else if i < 13 {
            assert(h[i] == s[i - 1]);
        } else if i == 13 {
        } else if i < 18 {
            assert(h[i] == s[i - 2]);
        } else if i == 18 {
        } else if i < 23 {
            assert(h[i] == s[i - 3]);
        } else if i == 23 {
        } else {
            assert(h[i] == s[i - 4]);
        }
    }
}

/// Calls `uuid::Uuid::now_v7`: a fresh version 7 UUID from the clock and
/// random bits, as its big-endian `u128`. Only its version and variant
/// bits are stated; the other bits come from the time and chance.
#[verifier::external_body]
fn uuid_now_v7() -> (v: u128)
    ensures
        is_uuid_v7(v),
{
    uuid::Uuid::now_v7().as_u128()
}

/// Calls `Uuid::to_string` on `Uuid::from_u128(v)`: the hyphenated
/// lower-case text of the UUID (its `Display` is `LowerHex` of
/// `as_hyphenated`).
#[verifier::external_body]
fn uuid_text(v: u128) -> (s: String)
    ensures
        s@ == hyphenated(v),
{
    uuid::Uuid::from_u128(v).to_string()
}

/// Calls `uuid::Uuid::parse_str`. Its result is named `uuid_parsed`; of
/// the texts that it accepts, only the hyphenated form of a value is
/// stated here: it parses back to that value.
#[verifier::external_body]
fn uuid_parse(text: &str) -> (r: Result<u128, uuid::Error>)
    ensures
        r is Ok <==> uuid_parsed(text@) is Some,
        r is Ok ==> r->Ok_0 == uuid_parsed(text@)->0,
        forall|v: u128| #[trigger] hyphenated(v) == text@ ==> (r is Ok && r->Ok_0 == v),
{
    match uuid::Uuid::parse_str(text) {
        Ok(u) => Ok(u.as_u128()),
        Err(e) => Err(e),
    }
}

/// Identifier of a user.
#[derive(Debug, Clone, Copy, PartialEq, Eq, Structural, PartialOrd, Ord, Hash)]
pub struct UserId(u128);

impl View for UserId {
    type V = u128;

    closed spec fn view(&self) -> u128 {
        self.0
    }
}

impl UserId {
    /// A fresh identifier from a new version 7 UUID.
    pub fn random() -> (id: Self)
        ensures
            is_uuid_v7(id@),
    {
        UserId(uuid_now_v7())
    }

    /// The identifier of the UUID whose big-endian value is `value`.
    pub fn from_value(value: u128) -> (id: Self)
        ensures
            id@ == value,
    {
        UserId(value)
    }

    /// The big-endian value of the UUID.
    pub fn value(&self) -> (v: u128)
        ensures
            v == self@,
    {
        self.0
    }

    /// The hyphenated lower-case text of the UUID.
    pub fn to_string(&self) -> (s: String)
        ensures
            s@ == hyphenated(self@),
    {
        uuid_text(self.0)
    }

    /// Parses a UUID text, as `uuid` does.
    pub fn try_from(s: &str) -> (r: Result<Self, uuid::Error>)
        ensures
            r is Ok <==> uuid_parsed(s@) is Some,
            r is Ok ==> r->Ok_0@ == uuid_parsed(s@)->0,
            forall|v: u128| #[trigger] hyphenated(v) == s@ ==> (r is Ok && r->Ok_0@ == v),
    {
        match uuid_parse(s) {
            Ok(v) => Ok(UserId(v)),
            Err(e) => Err(e),
        }
    }

    /// Parses a UUID text; the same as `try_from`.
    pub fn from_str(s: &str) -> (r: Result<Self, uuid::Error>)
        ensures
            r is Ok <==> uuid_parsed(s@) is Some,
            r is Ok ==> r->Ok_0@ == uuid_parsed(s@)->0,
            forall|v: u128| #[trigger] hyphenated(v) == s@ ==> (r is Ok && r->Ok_0@ == v),
    {
        Self::try_from(s)
    }
}

/// Identifier of a room.
#[derive(Debug, Clone, Copy, PartialEq, Eq, Structural, PartialOrd, Ord, Hash)]
pub struct RoomId(u128);

impl View for RoomId {
    type V = u128;

    closed spec fn view(&self) -> u128 {
        self.0
    }
}

impl RoomId {
    /// A fresh identifier from a new version 7 UUID.
    pub fn random() -> (id: Self)
        ensures
            is_uuid_v7(id@),
    {
        RoomId(uuid_now_v7())
    }

    /// The identifier of the UUID whose big-endian value is `value`.
    pub fn from_value(value: u128) -> (id: Self)
        ensures
            id@ == value,
    {
        RoomId(value)
    }

    /// The big-endian value of the UUID.
    pub fn value(&self) -> (v: u128)
        ensures
            v == self@,
    {
        self.0
    }

    /// The hyphenated lower-case text of the UUID.
    pub fn to_string(&self) -> (s: String)
        ensures
            s@ == hyphenated(self@),
    {
        uuid_text(self.0)
    }

    /// Parses a UUID text, as `uuid` does.
    pub fn try_from(s: &str) -> (r: Result<Self, uuid::Error>)
        ensures
            r is Ok <==> uuid_parsed(s@) is Some,
            r is Ok ==> r->Ok_0@ == uuid_parsed(s@)->0,
            forall|v: u128| #[trigger] hyphenated(v) == s@ ==> (r is Ok && r->Ok_0@ == v),
    {
        match uuid_parse(s) {
            Ok(v) => Ok(RoomId(v)),
            Err(e) => Err(e),
        }
    }

    /// Parses a UUID text; the same as `try_from`.
    pub fn from_str(s: &str) -> (r: Result<Self, uuid::Error>)
        ensures
            r is Ok <==> uuid_parsed(s@) is Some,
            r is Ok ==> r->Ok_0@ == uuid_parsed(s@)->0,
            forall|v: u128| #[trigger] hyphenated(v) == s@ ==> (r is Ok && r->Ok_0@ == v),
    {
        Self::try_from(s)
    }
}

/// Identifier of a quiz.
#[derive(Debug, Clone, Copy, PartialEq, Eq, Structural, PartialOrd, Ord, Hash)]
pub struct QuizId(u128);

impl View for QuizId {
    type V = u128;

    closed spec fn view(&self) -> u128 {
        self.0
    }
}

impl QuizId {
    /// A fresh identifier from a new version 7 UUID.
    pub fn random() -> (id: Self)
        ensures
            is_uuid_v7(id@),
    {
        QuizId(uuid_now_v7())
    }

    /// The identifier of the UUID whose big-endian value is `value`.
    pub fn from_value(value: u128) -> (id: Self)
        ensures
            id@ == value,
    {
        QuizId(value)
    }

    /// The big-endian value of the UUID.
    pub fn value(&self) -> (v: u128)
        ensures
            v == self@,
    {
        self.0
    }

    /// The hyphenated lower-case text of the UUID.
    pub fn to_string(&self) -> (s: String)
        ensures
            s@ == hyphenated(self@),
    {
        uuid_text(self.0)
    }

    /// Parses a UUID text, as `uuid` does.
    pub fn try_from(s: &str) -> (r: Result<Self, uuid::Error>)
        ensures
            r is Ok <==> uuid_parsed(s@) is Some,
            r is Ok ==> r->Ok_0@ == uuid_parsed(s@)->0,
            forall|v: u128| #[trigger] hyphenated(v) == s@ ==> (r is Ok && r->Ok_0@ == v),
    {
        match uuid_parse(s) {
            Ok(v) => Ok(QuizId(v)),
            Err(e) => Err(e),
        }
    }

    /// Parses a UUID text; the same as `try_from`.
    pub fn from_str(s: &str) -> (r: Result<Self, uuid::Error>)
        ensures
            r is Ok <==> uuid_parsed(s@) is Some,
            r is Ok ==> r->Ok_0@ == uuid_parsed(s@)->0,
            forall|v: u128| #[trigger] hyphenated(v) == s@ ==> (r is Ok && r->Ok_0@ == v),
    {
        Self::try_from(s)
    }
}

/// Identifier of a question.
#[derive(Debug, Clone, Copy, PartialEq, Eq, Structural, PartialOrd, Ord, Hash)]
pub struct QuestionId(u128);

impl View for QuestionId {
    type V = u128;

    closed spec fn view(&self) -> u128 {
        self.0
    }
}

impl QuestionId {
    /// A fresh identifier from a new version 7 UUID.
    pub fn random() -> (id: Self)
        ensures
            is_uuid_v7(id@),
    {
        QuestionId(uuid_now_v7())
    }

    /// The identifier of the UUID whose big-endian value is `value`.
    pub fn from_value(value: u128) -> (id: Self)
        ensures
            id@ == value,
    {
        QuestionId(value)
    }

    /// The big-endian value of the UUID.
    pub fn value(&self) -> (v: u128)
        ensures
            v == self@,
    {
        self.0
    }

    /// The hyphenated lower-case text of the UUID.
    pub fn to_string(&self) -> (s: String)
        ensures
            s@ == hyphenated(self@),
    {
        uuid_text(self.0)
    }

    /// Parses a UUID text, as `uuid` does.
    pub fn try_from(s: &str) -> (r: Result<Self, uuid::Error>)
        ensures
            r is Ok <==> uuid_parsed(s@) is Some,
            r is Ok ==> r->Ok_0@ == uuid_parsed(s@)->0,
            forall|v: u128| #[trigger] hyphenated(v) == s@ ==> (r is Ok && r->Ok_0@ == v),
    {
        match uuid_parse(s) {
            Ok(v) => Ok(QuestionId(v)),
            Err(e) => Err(e),
        }
    }

    /// Parses a UUID text; the same as `try_from`.
    pub fn from_str(s: &str) -> (r: Result<Self, uuid::Error>)
        ensures
            r is Ok <==> uuid_parsed(s@) is Some,
            r is Ok ==> r->Ok_0@ == uuid_parsed(s@)->0,
            forall|v: u128| #[trigger] hyphenated(v) == s@ ==> (r is Ok && r->Ok_0@ == v),
    {
        Self::try_from(s)
    }
}

/// Identifier of an answer variant.
#[derive(Debug, Clone, Copy, PartialEq, Eq, Structural, PartialOrd, Ord, Hash)]
pub struct VariantId(u128);

impl View for VariantId {
    type V = u128;

    closed spec fn view(&self) -> u128 {
        self.0
    }
}

impl VariantId {
    /// A fresh identifier from a new version 7 UUID.
    pub fn random() -> (id: Self)
        ensures
            is_uuid_v7(id@),
    {
        VariantId(uuid_now_v7())
    }

    /// The identifier of the UUID whose big-endian value is `value`.
    pub fn from_value(value: u128) -> (id: Self)
        ensures
            id@ == value,
    {
        VariantId(value)
    }

    /// The big-endian value of the UUID.
    pub fn value(&self) -> (v: u128)
        ensures
            v == self@,
    {
        self.0
    }

    /// The hyphenated lower-case text of the UUID.
    pub fn to_string(&self) -> (s: String)
        ensures
            s@ == hyphenated(self@),
    {
        uuid_text(self.0)
    }

    /// Parses a UUID text, as `uuid` does.
    pub fn try_from(s: &str) -> (r: Result<Self, uuid::Error>)
        ensures
            r is Ok <==> uuid_parsed(s@) is Some,
            r is Ok ==> r->Ok_0@ == uuid_parsed(s@)->0,
            forall|v: u128| #[trigger] hyphenated(v) == s@ ==> (r is Ok && r->Ok_0@ == v),
    {
        match uuid_parse(s) {
            Ok(v) => Ok(VariantId(v)),
            Err(e) => Err(e),
        }
    }

    /// Parses a UUID text; the same as `try_from`.
    pub fn from_str(s: &str) -> (r: Result<Self, uuid::Error>)
        ensures
            r is Ok <==> uuid_parsed(s@) is Some,
            r is Ok ==> r->Ok_0@ == uuid_parsed(s@)->0,
            forall|v: u128| #[trigger] hyphenated(v) == s@ ==> (r is Ok && r->Ok_0@ == v),
    {
        Self::try_from(s)
    }
}

/// Identifier of a round.
#[derive(Debug, Clone, Copy, PartialEq, Eq, Structural, PartialOrd, Ord, Hash)]
pub struct RoundId(u128);

impl View for RoundId {
    type V = u128;

    closed spec fn view(&self) -> u128 {
        self.0
    }
}

impl RoundId {
    /// A fresh identifier from a new version 7 UUID.
    pub fn random() -> (id: Self)
        ensures
            is_uuid_v7(id@),
    {
        RoundId(uuid_now_v7())
    }

    /// The identifier of the UUID whose big-endian value is `value`.
    pub fn from_value(value: u128) -> (id: Self)
        ensures
            id@ == value,
    {
        RoundId(value)
    }

    /// The big-endian value of the UUID.
    pub fn value(&self) -> (v: u128)
        ensures
            v == self@,
    {
        self.0
    }

    /// The hyphenated lower-case text of the UUID.
    pub fn to_string(&self) -> (s: String)
        ensures
            s@ == hyphenated(self@),
    {
        uuid_text(self.0)
    }

    /// Parses a UUID text, as `uuid` does.
    pub fn try_from(s: &str) -> (r: Result<Self, uuid::Error>)
        ensures
            r is Ok <==> uuid_parsed(s@) is Some,
            r is Ok ==> r->Ok_0@ == uuid_parsed(s@)->0,
            forall|v: u128| #[trigger] hyphenated(v) == s@ ==> (r is Ok && r->Ok_0@ == v),
    {
        match uuid_parse(s) {
            Ok(v) => Ok(RoundId(v)),
            Err(e) => Err(e),
        }
    }

    /// Parses a UUID text; the same as `try_from`.
    pub fn from_str(s: &str) -> (r: Result<Self, uuid::Error>)
        ensures
            r is Ok <==> uuid_parsed(s@) is Some,
            r is Ok ==> r->Ok_0@ == uuid_parsed(s@)->0,
            forall|v: u128| #[trigger] hyphenated(v) == s@ ==> (r is Ok && r->Ok_0@ == v),
    {
        Self::try_from(s)
    }
}

/// Identifier of a lobby.
#[derive(Debug, Clone, Copy, PartialEq, Eq, Structural, PartialOrd, Ord, Hash)]
pub struct LobbyId(u128);

impl View for LobbyId {
    type V = u128;

    closed spec fn view(&self) -> u128 {
        self.0
    }
}

impl LobbyId {
    /// A fresh identifier from a new version 7 UUID.
    pub fn random() -> (id: Self)
        ensures
            is_uuid_v7(id@),
    {
        LobbyId(uuid_now_v7())
    }

    /// The identifier of the UUID whose big-endian value is `value`.
    pub fn from_value(value: u128) -> (id: Self)
        ensures
            id@ == value,
    {
        LobbyId(value)
    }

    /// The big-endian value of the UUID.
    pub fn value(&self) -> (v: u128)
        ensures
            v == self@,
    {
        self.0
    }

    /// The hyphenated lower-case text of the UUID.
    pub fn to_string(&self) -> (s: String)
        ensures
            s@ == hyphenated(self@),
    {
        uuid_text(self.0)
    }

    /// Parses a UUID text, as `uuid` does.
    pub fn try_from(s: &str) -> (r: Result<Self, uuid::Error>)
        ensures
            r is Ok <==> uuid_parsed(s@) is Some,
            r is Ok ==> r->Ok_0@ == uuid_parsed(s@)->0,
            forall|v: u128| #[trigger] hyphenated(v) == s@ ==> (r is Ok && r->Ok_0@ == v),
    {
        match uuid_parse(s) {
            Ok(v) => Ok(LobbyId(v)),
            Err(e) => Err(e),
        }
    }

    /// Parses a UUID text; the same as `try_from`.
    pub fn from_str(s: &str) -> (r: Result<Self, uuid::Error>)
        ensures
            r is Ok <==> uuid_parsed(s@) is Some,
            r is Ok ==> r->Ok_0@ == uuid_parsed(s@)->0,
            forall|v: u128| #[trigger] hyphenated(v) == s@ ==> (r is Ok && r->Ok_0@ == v),
    {
        Self::try_from(s)
    }
}

} // verus!
