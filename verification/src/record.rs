//! The values that travel through the client: a key, a timestamp and the
//! signed record that a key's owner publishes.
//!
//! Signing and signature checking are not done here. A [`SignedPacket`] is a
//! record that has already been checked against its key by whoever built it.

use vstd::prelude::*;

verus! {

/// Microseconds since the Unix epoch.
#[derive(Clone, Copy, Debug, PartialEq, Eq, Hash, Structural)]
pub struct Timestamp {
    micros: u64,
}

impl Timestamp {
    /// Seconds from which on a timestamp lies past the year 9999 and has no
    /// HTTP date.
    pub const HTTP_DATE_END_SECS: u64 = 253_402_300_800;

    /// The microseconds since the Unix epoch.
    pub closed spec fn micros(self) -> u64 {
        self.micros
    }

    /// Whether the timestamp can be written as an HTTP date.
    pub open spec fn has_http_date(self) -> bool {
        self.micros() / 1_000_000 < Self::HTTP_DATE_END_SECS
    }

    /// The time `micros` microseconds after the Unix epoch.
    pub fn new(micros: u64) -> (t: Self)
        ensures
            t.micros() == micros,
    {
        Timestamp { micros }
    }

    /// The microseconds since the Unix epoch.
    pub fn as_u64(&self) -> (m: u64)
        ensures
            m == self.micros(),
    {
        self.micros
    }

    /// Tells whether the timestamp can be written as an HTTP date.
    pub fn before_http_date_end(&self) -> (b: bool)
        ensures
            b == self.has_http_date(),
    {
        self.micros / 1_000_000 < Self::HTTP_DATE_END_SECS
    }

    /// The timestamp as it is written in an HTTP header.
    pub fn format_http_date(&self) -> (date: String)
        requires
            self.has_http_date(),
        ensures
            date@ == http_date(self.micros()),
    {
        timestamp_http_date(self.micros)
    }
}

/// The HTTP date of the second in which `micros` microseconds have passed
/// since the Unix epoch, such as `Fri, 15 May 2015 15:34:21 GMT`.
pub uninterp spec fn http_date(micros: u64) -> Seq<char>;

/// Calls `pubky_timestamp::Timestamp::format_http_date` on the timestamp made
/// of `micros`. That function turns the microseconds into a `SystemTime` and
/// hands it to `httpdate::fmt_http_date`, whose result depends on the
/// argument alone and which panics from the year 10000 on: such timestamps are
/// left out.
#[verifier::external_body]
fn timestamp_http_date(micros: u64) -> (date: String)
    requires
        micros / 1_000_000 < 253_402_300_800,
    ensures
        date@ == http_date(micros),
{
    pubky_timestamp::Timestamp::from(micros).format_http_date()
}

/// The number of bytes that `text` takes as UTF-8.
pub open spec fn byte_len(text: Seq<char>) -> nat {
    vstd::utf8::encode_utf8(text).len()
}

/// The identity of a record, held in the text form in which it appears in a
/// relay's URL. Two keys are the same key when their text is the same.
#[derive(Debug)]
pub struct PublicKey {
    encoded: String,
}

impl View for PublicKey {
    type V = Seq<char>;

    closed spec fn view(&self) -> Seq<char> {
        self.encoded@
    }
}

impl PublicKey {
    /// The longest text, in bytes, that is taken for a key: 16 MiB.
    pub const MAX_LEN: usize = 0x0100_0000;

    /// What holds of every key: its text is no longer than
    /// [`Self::MAX_LEN`] bytes.
    #[verifier::type_invariant]
    spec fn wf(&self) -> bool {
        byte_len(self.encoded@) <= Self::MAX_LEN
    }

    /// The key with the given text, unless the text is longer than
    /// [`Self::MAX_LEN`] bytes.
    pub fn new(encoded: String) -> (key: Option<Self>)
        ensures
            match key {
                Some(key) => key@ == encoded@ && byte_len(encoded@) <= Self::MAX_LEN,
                None => byte_len(encoded@) > Self::MAX_LEN,
            },
    {
        if encoded.as_str().as_bytes().len() <= Self::MAX_LEN {
            Some(PublicKey { encoded })
        } else {
            None
        }
    }

    /// The text of the key.
    pub fn as_str(&self) -> (s: &str)
        ensures
            s@ == self@,
            byte_len(s@) <= Self::MAX_LEN,
    {
        proof {
            use_type_invariant(self);
        }
        self.encoded.as_str()
    }
}

impl Clone for PublicKey {
    fn clone(&self) -> (key: Self)
        ensures
            key@ == self@,
    {
        proof {
            use_type_invariant(self);
        }
        PublicKey { encoded: self.encoded.clone() }
    }
}

impl PartialEq for PublicKey {
    fn eq(&self, other: &Self) -> (r: bool) {
        self.encoded == other.encoded
    }
}

impl Eq for PublicKey {}

impl vstd::std_specs::cmp::PartialEqSpecImpl for PublicKey {
    open spec fn obeys_eq_spec() -> bool {
        true
    }

    open spec fn eq_spec(&self, other: &Self) -> bool {
        self@ == other@
    }
}

/// What a [`SignedPacket`] is, as plain values.
pub struct SignedPacketView {
    pub public_key: Seq<char>,
    pub signature: Seq<u8>,
    pub timestamp: Timestamp,
    pub payload: Seq<u8>,
}

/// A record signed by the owner of its key: the bytes that relays store, the
/// signature over them and the time of signing.
#[derive(Debug)]
pub struct SignedPacket {
    public_key: PublicKey,
    signature: Vec<u8>,
    timestamp: Timestamp,
    payload: Vec<u8>,
}

impl View for SignedPacket {
    type V = SignedPacketView;

    closed spec fn view(&self) -> SignedPacketView {
        SignedPacketView {
            public_key: self.public_key@,
            signature: self.signature@,
            timestamp: self.timestamp,
            payload: self.payload@,
        }
    }
}

impl SignedPacketView {
    /// The strict order by which one record supersedes another: a later time
    /// of signing.
    pub open spec fn more_recent_than(self, other: SignedPacketView) -> bool {
        self.timestamp.micros() > other.timestamp.micros()
    }
}

impl SignedPacket {
    /// The largest number of bytes that a record may take on the wire.
    pub const MAX_BYTES: u64 = 1104;

    /// The record of `public_key` that holds `payload`, signed with
    /// `signature` at the time `timestamp`.
    pub fn new(
        public_key: PublicKey,
        signature: Vec<u8>,
        timestamp: Timestamp,
        payload: Vec<u8>,
    ) -> (packet: Self)
        ensures
            packet@ == (SignedPacketView {
                public_key: public_key@,
                signature: signature@,
                timestamp,
                payload: payload@,
            }),
    {
        SignedPacket { public_key, signature, timestamp, payload }
    }

    /// The key that the record is published under.
    pub fn public_key(&self) -> (key: PublicKey)
        ensures
            key@ == self@.public_key,
    {
        self.public_key.clone()
    }

    /// Whether the record is published under `public_key`.
    pub fn is_for(&self, public_key: &PublicKey) -> (r: bool)
        ensures
            r == (self@.public_key == public_key@),
    {
        self.public_key == *public_key
    }

    /// The signature over the record.
    pub fn signature(&self) -> (signature: &Vec<u8>)
        ensures
            signature@ == self@.signature,
    {
        &self.signature
    }

    /// The time of signing.
    pub fn timestamp(&self) -> (timestamp: Timestamp)
        ensures
            timestamp == self@.timestamp,
    {
        self.timestamp
    }

    /// The bytes that a relay is sent for this record.
    pub fn to_relay_payload(&self) -> (payload: Vec<u8>)
        ensures
            payload@ == self@.payload,
    {
        self.payload.clone()
    }

    /// Whether this record supersedes `other`.
    pub fn more_recent_than(&self, other: &SignedPacket) -> (r: bool)
        ensures
            r == self@.more_recent_than(other@),
    {
        self.timestamp.as_u64() > other.timestamp.as_u64()
    }

    /// Whether both records carry the same signature, which makes them the
    /// same write.
    pub fn same_signature(&self, other: &SignedPacket) -> (r: bool)
        ensures
            r == (self@.signature == other@.signature),
    {
        let r = self.signature == other.signature;
        proof {
            if r {
                assert(self.signature@ =~= other.signature@);
            }
        }
        r
    }
}

impl Clone for SignedPacket {
    fn clone(&self) -> (packet: Self)
        ensures
            packet@ == self@,
    {
        SignedPacket {
            public_key: self.public_key.clone(),
            signature: self.signature.clone(),
            timestamp: self.timestamp,
            payload: self.payload.clone(),
        }
    }
}

} // verus!
