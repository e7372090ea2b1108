//! Relay addresses and the URL under which a relay keeps a key's record.

use vstd::prelude::*;

use crate::record::{byte_len, PublicKey};

verus! {

/// Whether `text` is a URL and, if it is one, whether it is of the kind that
/// has no path to extend (`mailto:` and `data:` URLs are). `None` where
/// `text` is no URL.
pub uninterp spec fn url_cannot_be_a_base(text: Seq<char>) -> Option<bool>;

/// The URL `base` with `segment` appended to its path as one more segment.
pub uninterp spec fn url_with_segment(base: Seq<char>, segment: Seq<char>) -> Seq<char>;

/// Calls `url::Url::parse` on `text` and, where that gives a URL,
/// `Url::cannot_be_a_base` on it.
#[verifier::external_body]
fn parse_cannot_be_a_base(text: &str) -> (kind: Option<bool>)
    ensures
        kind == url_cannot_be_a_base(text@),
{
    match url::Url::parse(text) {
        Ok(url) => Some(url.cannot_be_a_base()),
        Err(_) => None,
    }
}

/// Parses `base` with `url::Url::parse`, appends `segment` with
/// `PathSegmentsMut::push` and returns the URL's text.
///
/// `Url::path_segments_mut` fails on a URL that cannot be a base: such a
/// `base` is left out. The URL crate keeps positions in 32 bits and panics
/// when the text of a URL outgrows them after a change. Both texts are
/// therefore held to 16 MiB: the segment grows at most threefold when it is
/// percent-encoded, and the address would have to grow more than a
/// hundredfold in parsing to come near 4 GiB.
#[verifier::external_body]
fn push_path_segment(base: &str, segment: &str) -> (url: String)
    requires
        url_cannot_be_a_base(base@) == Some(false),
        byte_len(base@) <= 0x0100_0000,
        byte_len(segment@) <= 0x0100_0000,
    ensures
        url@ == url_with_segment(base@, segment@),
{
    let mut url = url::Url::parse(base).unwrap();
    url.path_segments_mut().unwrap().push(segment);
    url.into()
}

/// Whether `text` can stand for a relay: a URL with a path that can be
/// extended, of at most [`Relay::MAX_LEN`] bytes.
pub open spec fn is_relay_url(text: Seq<char>) -> bool {
    url_cannot_be_a_base(text) == Some(false) && byte_len(text) <= Relay::MAX_LEN
}

/// The address of one relay.
#[derive(Debug)]
pub struct Relay {
    url: String,
}

impl View for Relay {
    type V = Seq<char>;

    closed spec fn view(&self) -> Seq<char> {
        self.url@
    }
}

impl Relay {
    /// The longest address, in bytes, that is taken for a relay: 16 MiB.
    pub const MAX_LEN: usize = 0x0100_0000;

    /// What holds of every relay: its address can stand for one.
    #[verifier::type_invariant]
    spec fn wf(&self) -> bool {
        is_relay_url(self.url@)
    }

    /// The relay at the URL `text`, if `text` can stand for one.
    pub fn parse(text: &str) -> (relay: Option<Relay>)
        ensures
            match relay {
                Some(relay) => relay@ == text@ && is_relay_url(text@),
                None => !is_relay_url(text@),
            },
    {
        if text.as_bytes().len() > Self::MAX_LEN {
            return None;
        }
        match parse_cannot_be_a_base(text) {
            Some(false) => Some(Relay { url: text.to_owned() }),
            _ => None,
        }
    }

    /// The address as it was given.
    pub fn as_str(&self) -> (s: &str)
        ensures
            s@ == self@,
            is_relay_url(s@),
    {
        proof {
            use_type_invariant(self);
        }
        self.url.as_str()
    }
}

impl Clone for Relay {
    fn clone(&self) -> (relay: Self)
        ensures
            relay@ == self@,
    {
        proof {
            use_type_invariant(self);
        }
        Relay { url: self.url.clone() }
    }
}

/// The URL of the record of `public_key` at `relay`: the relay's address with
/// the key's text as one more path segment.
pub fn format_url(relay: &Relay, public_key: &PublicKey) -> (url: String)
    ensures
        url@ == url_with_segment(relay@, public_key@),
{
    push_path_segment(relay.as_str(), public_key.as_str())
}

} // verus!
