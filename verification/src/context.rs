//! Per-operation ambient data: actor identity, request id, wall clock and
//! identifier generation.
//!
//! A context is captured once per operation and flows by reference through
//! the engine, the event store and the dispatchers. Its clock is read at
//! construction, so every envelope of one commit carries the same timestamp.
//! Identifier generation draws fresh random bytes unless the test-only
//! override `with_rand_bytes` pinned them, in which case `next_uuid` is a
//! deterministic function of those bytes.

use vstd::prelude::*;

use crate::string_map::StringMap;

verus! {

/// The hyphenated text of the version-4 UUID built from sixteen bytes.
/// It depends on the bytes alone.
pub uninterp spec fn uuid_of(bytes: Seq<u8>) -> Seq<char>;

/// A lower-case hexadecimal digit.
pub open spec fn is_lower_hex_digit(c: char) -> bool {
    ('0' <= c && c <= '9') || ('a' <= c && c <= 'f')
}

/// The hyphenated text of a syntactically valid version-4 UUID: 36 lower-case
/// hex characters with hyphens at positions 8, 13, 18 and 23, the version
/// nibble `4` and an RFC 4122 variant nibble.
pub open spec fn is_uuid_v4_text(s: Seq<char>) -> bool {
    &&& s.len() == 36
    &&& s[8] == '-' && s[13] == '-' && s[18] == '-' && s[23] == '-'
    &&& forall|i: int|
        0 <= i < 36 && i != 8 && i != 13 && i != 18 && i != 23 ==> is_lower_hex_digit(#[trigger] s[i])
    &&& s[14] == '4'
    &&& (s[19] == '8' || s[19] == '9' || s[19] == 'a' || s[19] == 'b')
}

/// Relies on `rand::random::<[u8; 16]>`: sixteen bytes from the thread-local
/// generator. Nothing is promised of them.
#[verifier::external_body]
fn random_bytes() -> (r: [u8; 16]) {
    rand::random::<[u8; 16]>()
}

/// Relies on `chrono::Utc::now` and `DateTime::timestamp_millis`: the wall
/// clock as non-leap milliseconds since the UNIX epoch. Nothing is promised
/// of the value.
#[verifier::external_body]
fn current_millis() -> (r: i64) {
    chrono::Utc::now().timestamp_millis()
}

/// Relies on `uuid::Builder::from_random_bytes` and `Uuid`'s `Display`: the
/// bytes, with the version nibble forced to 4 and the variant bits to the
/// RFC 4122 values, formatted as lowercase hyphenated hex: 36 characters,
/// hyphens at positions 8, 13, 18 and 23, `4` at position 14, a variant
/// nibble at position 19, and a function of the bytes alone.
#[verifier::external_body]
fn uuid_from_bytes(bytes: [u8; 16]) -> (r: String)
    ensures
        r@ == uuid_of(bytes@),
        is_uuid_v4_text(r@),
{
    uuid::Builder::from_random_bytes(bytes).as_uuid().to_string()
}

/// The actor an inbound call was authenticated as, if any.
pub enum AuthenticatedUser {
    User(String),
    Anonymous,
}

impl AuthenticatedUser {
    pub open spec fn username_spec(&self) -> Seq<char> {
        match self {
            AuthenticatedUser::User(u) => u@,
            AuthenticatedUser::Anonymous => "anonymous"@,
        }
    }

    pub fn username(&self) -> (r: String)
        ensures
            r@ == self.username_spec(),
    {
        match self {
            AuthenticatedUser::User(u) => u.clone(),
            AuthenticatedUser::Anonymous => "anonymous".to_owned(),
        }
    }
}

/// The per-operation context.
pub struct CqrsContext {
    current_user: Option<String>,
    metadata: Option<StringMap<String>>,
    request_id: String,
    now: i64,
    rand_bytes: Option<[u8; 16]>,
}

impl CqrsContext {
    /// The actor, with `"anonymous"` standing in for an absent one.
    pub open spec fn current_user_spec(&self) -> Seq<char> {
        match self.spec_user() {
            Some(u) => u@,
            None => "anonymous"@,
        }
    }

    pub closed spec fn spec_user(&self) -> Option<String> {
        self.current_user
    }

    pub closed spec fn request_id_spec(&self) -> Seq<char> {
        self.request_id@
    }

    pub closed spec fn now_spec(&self) -> i64 {
        self.now
    }

    pub closed spec fn rand_bytes_spec(&self) -> Option<Seq<u8>> {
        match self.rand_bytes {
            Some(b) => Some(b@),
            None => None,
        }
    }

    pub closed spec fn metadata_spec(&self) -> Option<StringMap<String>> {
        self.metadata
    }

    pub fn new(current_user: Option<String>) -> (r: Self)
        ensures
            r.spec_user() == current_user,
            r.request_id_spec() == Seq::<char>::empty(),
            r.rand_bytes_spec() is None,
            r.metadata_spec() is None,
    {
        proof {
            reveal_strlit("");
            assert(""@ =~= Seq::<char>::empty());
        }
        CqrsContext {
            current_user,
            metadata: None,
            request_id: "".to_owned(),
            now: current_millis(),
            rand_bytes: None,
        }
    }

    pub fn current_user(&self) -> (r: String)
        ensures
            r@ == self.current_user_spec(),
    {
        match &self.current_user {
            Some(u) => u.clone(),
            None => "anonymous".to_owned(),
        }
    }

    pub fn request_id(&self) -> (r: String)
        ensures
            r@ == self.request_id_spec(),
    {
        self.request_id.clone()
    }

    pub fn now(&self) -> (r: i64)
        ensures
            r == self.now_spec(),
    {
        self.now
    }

    /// A fresh identifier. With pinned bytes the result is the UUID of those
    /// bytes; otherwise fresh random bytes are drawn. Either way the text is
    /// a syntactically valid hyphenated version-4 UUID.
    pub fn next_uuid(&self) -> (r: String)
        ensures
            r@.len() == 36,
            is_uuid_v4_text(r@),
            self.rand_bytes_spec() matches Some(b) ==> r@ == uuid_of(b),
    {
        let bytes: [u8; 16] = match &self.rand_bytes {
            Some(b) => *b,
            None => random_bytes(),
        };
        uuid_from_bytes(bytes)
    }

    /// The same context under a freshly generated request id.
    pub fn with_next_request_id(self) -> (r: Self)
        ensures
            r.spec_user() == self.spec_user(),
            r.metadata_spec() == self.metadata_spec(),
            r.now_spec() == self.now_spec(),
            r.rand_bytes_spec() == self.rand_bytes_spec(),
            r.request_id_spec().len() == 36,
            is_uuid_v4_text(r.request_id_spec()),
            self.rand_bytes_spec() matches Some(b) ==> r.request_id_spec() == uuid_of(b),
    {
        let request_id = self.next_uuid();
        CqrsContext { request_id, ..self }
    }

    pub fn with_request_id(self, request_id: String) -> (r: Self)
        ensures
            r.spec_user() == self.spec_user(),
            r.metadata_spec() == self.metadata_spec(),
            r.now_spec() == self.now_spec(),
            r.rand_bytes_spec() == self.rand_bytes_spec(),
            r.request_id_spec() == request_id@,
    {
        CqrsContext { request_id, ..self }
    }

    pub fn with_metadata(self, metadata: StringMap<String>) -> (r: Self)
        ensures
            r.spec_user() == self.spec_user(),
            r.metadata_spec() == Some(metadata),
            r.now_spec() == self.now_spec(),
            r.rand_bytes_spec() == self.rand_bytes_spec(),
            r.request_id_spec() == self.request_id_spec(),
    {
        CqrsContext { metadata: Some(metadata), ..self }
    }

    /// Pin the bytes `next_uuid` draws from. Meant for tests alone: it trades
    /// the uniqueness of generated identifiers for determinism.
    pub fn with_rand_bytes(self, bytes: [u8; 16]) -> (r: Self)
        ensures
            r.spec_user() == self.spec_user(),
            r.metadata_spec() == self.metadata_spec(),
            r.now_spec() == self.now_spec(),
            r.rand_bytes_spec() == Some(bytes@),
            r.request_id_spec() == self.request_id_spec(),
    {
        CqrsContext { rand_bytes: Some(bytes), ..self }
    }

    /// A value held in the metadata bag, if the bag and the key are present.
    pub fn metadata(&self, key: &String) -> (r: Option<&String>)
        requires
            self.metadata_spec() matches Some(m) ==> m.wf(),
        ensures
            match r {
                Some(v) => {
                    &&& self.metadata_spec() matches Some(m)
                    &&& m@.dom().contains(key@)
                    &&& v@ == m@[key@]@
                },
                None => match self.metadata_spec() {
                    Some(m) => !m@.dom().contains(key@),
                    None => true,
                },
            },
    {
        match &self.metadata {
            Some(m) => m.get(key),
            None => None,
        }
    }

    /// The whole metadata bag, if one was attached.
    pub fn metadata_bag(&self) -> (r: Option<&StringMap<String>>)
        ensures
            match r {
                Some(m) => self.metadata_spec() == Some(*m),
                None => self.metadata_spec() is None,
            },
    {
        match &self.metadata {
            Some(m) => Some(m),
            None => None,
        }
    }

    /// A value-equal copy: contexts are cheap to clone and flow by value
    /// through concurrent operations.
    pub fn clone_context(&self) -> (r: Self)
        ensures
            r.spec_user() == self.spec_user(),
            r.request_id_spec() == self.request_id_spec(),
            r.now_spec() == self.now_spec(),
            r.rand_bytes_spec() == self.rand_bytes_spec(),
            match (r.metadata_spec(), self.metadata_spec()) {
                (Some(a), Some(b)) => a@ == b@ && a.entries() == b.entries() && a.wf() == b.wf(),
                (None, None) => true,
                _ => false,
            },
    {
        CqrsContext {
            current_user: match &self.current_user {
                Some(u) => Some(u.clone()),
                None => None,
            },
            metadata: match &self.metadata {
                Some(m) => Some(m.duplicate()),
                None => None,
            },
            request_id: self.request_id.clone(),
            now: self.now,
            rand_bytes: self.rand_bytes,
        }
    }
}

impl Default for CqrsContext {
    /// An anonymous context with an empty request id.
    fn default() -> (r: Self)
        ensures
            r.spec_user() is None,
            r.request_id_spec() == Seq::<char>::empty(),
            r.rand_bytes_spec() is None,
            r.metadata_spec() is None,
    {
        CqrsContext::new(None)
    }
}

} // verus!
