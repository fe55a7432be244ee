use vstd::prelude::*;

verus! {

// Identifiers are UUIDs held as their 128-bit value (most significant byte first).

/// The RFC 9562 namespace for URLs, 6ba7b811-9dad-11d1-80b4-00c04fd430c8.
pub const NAMESPACE_URL: u128 = 0x6ba7b8119dad11d180b400c04fd430c8u128;

/// The version 5 (SHA-1, name-based) UUID that `uuid::Uuid::new_v5` derives from a
/// namespace and the UTF-8 bytes of a name.
pub uninterp spec fn name_based_uuid(namespace: u128, name: Seq<char>) -> u128;

/// Calls `uuid::Uuid::new_v5` with the namespace and the UTF-8 bytes of `name`; the
/// result is named by `name_based_uuid`.
#[verifier::external_body]
fn new_v5(namespace: u128, name: &str) -> (id: u128)
    ensures
        id == name_based_uuid(namespace, name@),
{
    uuid::Uuid::new_v5(&uuid::Uuid::from_u128(namespace), name.as_bytes()).as_u128()
}

pub open spec fn hex_digit(d: int) -> char {
    "0123456789abcdef"@[d]
}

/// The lowest `n` hex digits of `v`, most significant first, in lower case.
pub open spec fn hex_digits(v: nat, n: nat) -> Seq<char>
    decreases n,
{
    if n == 0 {
        seq![]
    } else {
        hex_digits(v / 16, (n - 1) as nat).push(hex_digit((v % 16) as int))
    }
}

/// The hyphenated lower-case text of a UUID: 8-4-4-4-12 hex digits.
pub open spec fn hyphenated(id: u128) -> Seq<char> {
    let h = hex_digits(id as nat, 32);
    h.subrange(0, 8) + seq!['-'] + h.subrange(8, 12) + seq!['-'] + h.subrange(12, 16) + seq!['-']
        + h.subrange(16, 20) + seq!['-'] + h.subrange(20, 32)
}

/// Formats a UUID with `uuid::Uuid`'s `Display`, which writes it hyphenated in lower case.
#[verifier::external_body]
pub(crate) fn uuid_to_string(id: u128) -> (s: String)
    ensures
        s@ == hyphenated(id),
{
    uuid::Uuid::from_u128(id).to_string()
}

/// Identifier of the podcast with this feed URL.
pub open spec fn podcast_uuid(feed_url: Seq<char>) -> u128 {
    name_based_uuid(NAMESPACE_URL, feed_url)
}

/// Identifier of the episode with this GUID within a podcast.
pub open spec fn episode_uuid(podcast_id: u128, guid: Seq<char>) -> u128 {
    name_based_uuid(podcast_id, guid)
}

/// Stable stand-in text for a missing GUID.
pub open spec fn deterministic_hash(input: Seq<char>) -> Seq<char> {
    hyphenated(name_based_uuid(NAMESPACE_URL, input))
}

/// The podcast's identifier, derived from its feed URL.
pub fn generate_podcast_uuid(feed_url: &str) -> (id: u128)
    ensures
        id == podcast_uuid(feed_url@),
{
    new_v5(NAMESPACE_URL, feed_url)
}

/// The episode's identifier, derived from its podcast and its GUID.
pub fn generate_episode_uuid(podcast_id: u128, guid: &str) -> (id: u128)
    ensures
        id == episode_uuid(podcast_id, guid@),
{
    new_v5(podcast_id, guid)
}

/// A stable text derived from `input`, used where a feed gives no GUID.
pub fn generate_deterministic_hash(input: &str) -> (s: String)
    ensures
        s@ == deterministic_hash(input@),
{
    uuid_to_string(new_v5(NAMESPACE_URL, input))
}

proof fn lemma_hex_digits_len(v: nat, n: nat)
    ensures
        hex_digits(v, n).len() == n,
    decreases n,
{
    if n > 0 {
        lemma_hex_digits_len(v / 16, (n - 1) as nat);
    }
}

/// A UUID's text is always 36 characters long, with hyphens at 8, 13, 18 and 23.
pub proof fn lemma_hyphenated_shape(id: u128)
    ensures
        hyphenated(id).len() == 36,
        hyphenated(id)[8] == '-' && hyphenated(id)[13] == '-' && hyphenated(id)[18] == '-'
            && hyphenated(id)[23] == '-',
{
    lemma_hex_digits_len(id as nat, 32);
}

} // verus!
