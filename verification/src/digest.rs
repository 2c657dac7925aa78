//! Stable identifiers derived from SHA-256: short registration hashes and
//! notice keys that survive restarts.

use vstd::prelude::*;

use sha2::Digest;

use crate::dto::ChannelPreference;
use crate::item::CollectorItem;
use crate::runtime::{hex_digest, hex_text};
use crate::text::concat;

verus! {

/// The SHA-256 digest of the UTF-8 encoding of `text`.
pub uninterp spec fn sha256_of_text(text: Seq<char>) -> Seq<u8>;

/// Calls `sha2::Sha256::digest` on the bytes of `text`; the digest is a
/// function of the text alone and is thirty-two bytes long.
#[verifier::external_body]
fn sha256_text(text: &str) -> (d: Vec<u8>)
    ensures
        d@ == sha256_of_text(text@),
        d@.len() == 32,
{
    sha2::Sha256::digest(text.as_bytes()).to_vec()
}

/// The SHA-256 digest of `bytes`.
pub uninterp spec fn sha256_of_bytes(bytes: Seq<u8>) -> Seq<u8>;

/// Calls `sha2::Sha256::digest` on `bytes`; the digest is a function of the
/// bytes alone and is thirty-two bytes long.
#[verifier::external_body]
pub(crate) fn sha256_bytes(bytes: &[u8]) -> (d: Vec<u8>)
    ensures
        d@ == sha256_of_bytes(bytes@),
        d@.len() == 32,
{
    sha2::Sha256::digest(bytes).to_vec()
}

/// The first eight bytes of the SHA-256 digest of `value`, in hexadecimal.
pub open spec fn short_hash_spec(value: Seq<char>) -> Seq<char> {
    hex_text(sha256_of_text(value).take(8))
}

pub fn short_hash(value: &str) -> (r: String)
    ensures
        r@ == short_hash_spec(value@),
        r@.len() == 16,
{
    let digest = sha256_text(value);
    let mut head: Vec<u8> = Vec::new();
    let mut i: usize = 0;
    while i < 8
        invariant
            digest@.len() == 32,
            i <= 8,
            head@ == digest@.take(i as int),
        decreases 8 - i,
    {
        head.push(digest[i]);
        i = i + 1;
        proof {
            assert(head@ =~= digest@.take(i as int));
        }
    }
    hex_digest(head.as_slice())
}

/// The key of the notice an item raises on a channel.
pub open spec fn notice_key_spec(channel_id: Seq<char>, item_id: Seq<char>) -> Seq<char> {
    "notice:"@ + hex_text(sha256_of_text("channel-notice\0"@ + channel_id + "\0"@ + item_id))
}

pub fn channel_notice_key(channel: &ChannelPreference, item: &CollectorItem) -> (r: String)
    ensures
        r@ == notice_key_spec(channel.id@, item.id@),
{
    let a = concat("channel-notice\0", channel.id.as_str());
    let b = concat(a.as_str(), "\0");
    let text = concat(b.as_str(), item.id.as_str());
    let digest = sha256_text(text.as_str());
    concat("notice:", hex_digest(digest.as_slice()).as_str())
}

/// The key of a channel's single weather notice.
pub open spec fn weather_notice_key_spec(channel_id: Seq<char>) -> Seq<char> {
    "notice:"@ + hex_text(sha256_of_text("channel-weather-notice\0"@ + channel_id))
}

pub fn channel_weather_notice_key(channel: &ChannelPreference) -> (r: String)
    ensures
        r@ == weather_notice_key_spec(channel.id@),
{
    let text = concat("channel-weather-notice\0", channel.id.as_str());
    let digest = sha256_text(text.as_str());
    concat("notice:", hex_digest(digest.as_slice()).as_str())
}

} // verus!
