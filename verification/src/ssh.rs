//! The embedded SSH server: the handshake before the protocol, and what a session starts.

use std::time::SystemTime;

use hmac::{Hmac, Mac};
use sha2::Sha256;
use vstd::prelude::*;
use vstd::utf8::encode_utf8;

use crate::clock::{self, ClockError};
use crate::number;
use crate::text;

verus! {

/// The word that opens a handshake line.
pub const PREFACE_MAGIC: &'static str = "NSSH1";

/// The most bytes of a handshake line, less one.
pub const MAX_PREFACE_BYTES: usize = 1024;

// ---------------------------------------------------------------------------
// The handshake line
// ---------------------------------------------------------------------------

/// The bytes of the handshake line read so far: no line feed, and at most one byte more than
/// [`MAX_PREFACE_BYTES`].
#[derive(Debug)]
pub struct PrefaceBuffer {
    bytes: Vec<u8>,
}

impl View for PrefaceBuffer {
    type V = Seq<u8>;

    closed spec fn view(&self) -> Seq<u8> {
        self.bytes@
    }
}

/// Whether a handshake line ends with this byte.
pub open spec fn ends_line(line: Seq<u8>, byte: u8) -> bool {
    byte == 10 || line.len() >= MAX_PREFACE_BYTES
}

impl PrefaceBuffer {
    #[verifier::type_invariant]
    spec fn well_formed(self) -> bool {
        &&& self.bytes@.len() <= MAX_PREFACE_BYTES + 1
        &&& !self.bytes@.contains(10u8)
    }

    /// An empty line.
    pub fn new() -> (b: PrefaceBuffer)
        ensures
            b@ == Seq::<u8>::empty(),
    {
        PrefaceBuffer { bytes: Vec::new() }
    }

    /// Takes one byte. Says whether the line is complete: at a line feed, which is not kept, and
    /// once it is too long.
    pub fn push(&mut self, byte: u8) -> (complete: bool)
        requires
            old(self)@.len() <= MAX_PREFACE_BYTES,
        ensures
            final(self)@ == (if byte == 10 {
                old(self)@
            } else {
                old(self)@.push(byte)
            }),
            complete == ends_line(old(self)@, byte),
    {
        proof {
            use_type_invariant(&*self);
        }
        if byte == 10 {
            return true;
        }
        let mut bytes: Vec<u8> = Vec::new();
        std::mem::swap(&mut bytes, &mut self.bytes);
        bytes.push(byte);
        let complete = bytes.len() > MAX_PREFACE_BYTES;
        proof {
            let b = bytes@;
            assert forall|i: int| 0 <= i < b.len() implies b[i] != 10 by {
                if i < b.len() - 1 {
                    assert(old(self)@.contains(b[i]));
                }
            }
        }
        self.bytes = bytes;
        complete
    }

    /// The line as text.
    pub fn line(&self) -> (s: String)
        ensures
            s@ == text::lossy_text(self@),
            self@.len() <= MAX_PREFACE_BYTES + 1,
            !self@.contains(10u8),
    {
        proof {
            use_type_invariant(self);
        }
        text::utf8_lossy(self.bytes.as_slice())
    }
}

// ---------------------------------------------------------------------------
// Authentication
// ---------------------------------------------------------------------------

/// The HMAC of `data` under `key`, with SHA-256.
pub uninterp spec fn hmac_sha256_mac(key: Seq<u8>, data: Seq<u8>) -> Seq<u8>;

/// `Hmac::<Sha256>` over `data`, with a key of any length: 32 bytes that the key and the data
/// determine.
#[verifier::external_body]
fn hmac_sha256_bytes(key: &[u8], data: &[u8]) -> (mac: Vec<u8>)
    ensures
        mac@ == hmac_sha256_mac(key@, data@),
        mac@.len() == 32,
{
    let mut mac = Hmac::<Sha256>::new_from_slice(key).expect("hmac key");
    mac.update(data);
    mac.finalize().into_bytes().to_vec()
}

/// `hex::encode`: each byte as two lower-case hexadecimal digits.
#[verifier::external_body]
fn hex_encode(bytes: &[u8]) -> (s: String)
    ensures
        s@ == number::hex_bytes(bytes@),
{
    hex::encode(bytes)
}

/// The HMAC of `data` under `key`, with SHA-256, in hexadecimal.
pub fn hmac_sha256(key: &[u8], data: &[u8]) -> (s: String)
    ensures
        s@ == number::hex_bytes(hmac_sha256_mac(key@, data@)),
        s@.len() == 64,
{
    let mac = hmac_sha256_bytes(key, data);
    hex_encode(mac.as_slice())
}

/// The timestamp that a word writes, zero if it writes none.
pub open spec fn timestamp_of(word: Seq<char>) -> i64 {
    match number::i64_value(word) {
        Some(t) => t,
        None => 0,
    }
}

/// How far a timestamp is from the clock.
pub open spec fn clock_skew(now: i64, timestamp: i64) -> int {
    if now < timestamp {
        timestamp - now
    } else {
        now - timestamp
    }
}

/// What a handshake signs.
pub open spec fn preface_payload(token: Seq<char>, timestamp: i64, nonce: Seq<char>) -> Seq<char> {
    token + "|"@ + number::signed_decimal(timestamp as int) + "|"@ + nonce
}

/// The signature over a payload with a shared secret.
pub open spec fn preface_signature(secret: Seq<char>, payload: Seq<char>) -> Seq<char> {
    number::hex_bytes(hmac_sha256_mac(encode_utf8(secret), encode_utf8(payload)))
}

/// Whether a line has the form of a handshake: the magic word, then a token, a timestamp, a nonce
/// and a signature.
pub open spec fn preface_shaped(line: Seq<char>) -> bool {
    text::words_of(line).len() == 5 && text::words_of(line)[0] == PREFACE_MAGIC@
}

/// Whether a handshake line is accepted when the clock shows `now`.
pub open spec fn preface_accepted(
    line: Seq<char>,
    secret: Seq<char>,
    max_skew_secs: u64,
    now: i64,
) -> bool {
    let w = text::words_of(line);
    let timestamp = timestamp_of(w[2]);
    &&& preface_shaped(line)
    &&& clock_skew(now, timestamp) <= max_skew_secs
    &&& w[4] == preface_signature(secret, preface_payload(w[1], timestamp, w[3]))
}

fn skew_secs(now: i64, timestamp: i64) -> (r: u64)
    ensures
        r == clock_skew(now, timestamp),
{
    let (from, to) = if now < timestamp {
        (now, timestamp)
    } else {
        (timestamp, now)
    };
    (to as i128 - from as i128) as u64
}

/// Whether the handshake line is accepted when the clock shows `now`.
pub fn verify_preface_at(line: &str, secret: &str, handshake_skew_secs: u64, now: i64) -> (r: bool)
    ensures
        r == preface_accepted(line@, secret@, handshake_skew_secs, now),
{
    let parts = text::words(line);
    if parts.len() != 5 || !text::same(parts[0].as_str(), PREFACE_MAGIC) {
        return false;
    }
    let timestamp: i64 = match number::parse_i64(parts[2].as_str()) {
        Some(t) => t,
        None => 0,
    };
    if skew_secs(now, timestamp) > handshake_skew_secs {
        return false;
    }
    let payload = parts[1].clone().concat("|").concat(
        number::render_i64(timestamp).as_str(),
    ).concat("|").concat(parts[3].as_str());
    let expected = hmac_sha256(secret.as_bytes(), payload.as_str().as_bytes());
    text::same(parts[4].as_str(), expected.as_str())
}

/// Whether the handshake line is accepted now. A line of another form is refused without a look
/// at the clock; an error says that the clock gives no time.
pub fn verify_preface(line: &str, secret: &str, handshake_skew_secs: u64) -> (r: Result<
    bool,
    ClockError,
>)
    ensures
        !preface_shaped(line@) ==> r == Ok::<bool, ClockError>(false),
        preface_shaped(line@) ==> exists|t: SystemTime|
            #![trigger clock::secs_at(t)]
            r == (match clock::secs_at(t) {
                Ok(now) => Ok::<bool, ClockError>(
                    preface_accepted(line@, secret@, handshake_skew_secs, now),
                ),
                Err(e) => Err(e),
            }),
{
    let parts = text::words(line);
    if parts.len() != 5 || !text::same(parts[0].as_str(), PREFACE_MAGIC) {
        return Ok(false);
    }
    match clock::unix_secs() {
        Ok(now) => Ok(verify_preface_at(line, secret, handshake_skew_secs, now)),
        Err(e) => Err(e),
    }
}

/// What the server answers to a handshake.
pub fn handshake_reply(accepted: bool) -> (s: &'static str)
    ensures
        s@ == (if accepted {
            "OK\n"@
        } else {
            "ERR\n"@
        }),
{
    if accepted {
        "OK\n"
    } else {
        "ERR\n"
    }
}

/// A handshake that is signed with the shared secret, and whose timestamp is near the clock, is
/// accepted. (A signature has 64 characters: see [`hmac_sha256`].)
pub proof fn law_signed_preface_is_accepted(
    token: Seq<char>,
    timestamp: i64,
    nonce: Seq<char>,
    secret: Seq<char>,
    max_skew_secs: u64,
    now: i64,
)
    requires
        text::is_word(token),
        text::is_word(nonce),
        clock_skew(now, timestamp) <= max_skew_secs,
    ensures
        preface_signature(secret, preface_payload(token, timestamp, nonce)).len() > 0
            ==> preface_accepted(
            PREFACE_MAGIC@ + " "@ + (token + " "@ + (number::signed_decimal(timestamp as int) + " "@
                + (nonce + " "@ + preface_signature(
                secret,
                preface_payload(token, timestamp, nonce),
            )))),
            secret,
            max_skew_secs,
            now,
        ),
{
    let signature = preface_signature(secret, preface_payload(token, timestamp, nonce));
    let mac = hmac_sha256_mac(
        encode_utf8(secret),
        encode_utf8(preface_payload(token, timestamp, nonce)),
    );
    let stamp = number::signed_decimal(timestamp as int);
    reveal_strlit(" ");
    assert(" "@ =~= seq![' ']);
    reveal_strlit("NSSH1");
    assert(text::is_word(PREFACE_MAGIC@));
    if timestamp < 0 {
        number::lemma_decimal_reads_back((-(timestamp as int)) as nat);
    } else {
        number::lemma_decimal_reads_back(timestamp as nat);
    }
    assert forall|i: int| 0 <= i < stamp.len() implies !text::is_space(#[trigger] stamp[i]) by {
        if timestamp < 0 && i > 0 {
            assert(stamp[i] == number::decimal((-(timestamp as int)) as nat)[i - 1]);
        }
    }
    assert forall|i: int| 0 <= i < signature.len() implies !text::is_space(
        #[trigger] signature[i],
    ) by {
        let b = mac[i / 2];
        assert(signature[i] == number::digit_char((b / 16) as nat) || signature[i]
            == number::digit_char((b % 16) as nat));
    }
    number::law_i64_reads_back(timestamp);
    let d = nonce + " "@ + signature;
    let c = stamp + " "@ + d;
    let b = token + " "@ + c;
    if signature.len() > 0 {
        text::lemma_words_of_word(signature);
        text::lemma_words_of_cons(nonce, signature);
        text::lemma_words_of_cons(stamp, d);
        text::lemma_words_of_cons(token, c);
        text::lemma_words_of_cons(PREFACE_MAGIC@, b);
        let w = text::words_of(PREFACE_MAGIC@ + " "@ + b);
        assert(w =~= seq![PREFACE_MAGIC@, token, stamp, nonce, signature]);
    }
}

/// A handshake whose timestamp is too far from the clock is refused, whatever its signature.
pub proof fn law_stale_preface_is_refused(
    line: Seq<char>,
    secret: Seq<char>,
    max_skew_secs: u64,
    now: i64,
)
    requires
        preface_shaped(line),
        clock_skew(now, timestamp_of(text::words_of(line)[2])) > max_skew_secs,
    ensures
        !preface_accepted(line, secret, max_skew_secs, now),
{
}

// ---------------------------------------------------------------------------
// Laws
// ---------------------------------------------------------------------------

/// A handshake is accepted exactly if its line has five words, the first of them the magic word,
/// its timestamp is no further from the clock than allowed, on either side, and its last word is
/// the signature, in hexadecimal, of its token, its timestamp and its nonce with bars between them.
pub proof fn law_accepted_prefaces(
    line: Seq<char>,
    token: Seq<char>,
    timestamp: i64,
    nonce: Seq<char>,
    signature: Seq<char>,
    magic: Seq<char>,
    stamp: Seq<char>,
    secret: Seq<char>,
    max_skew_secs: u64,
    now: i64,
)
    requires
        text::words_of(line) == seq![magic, token, stamp, nonce, signature],
        number::i64_value(stamp) == Some(timestamp),
    ensures
        preface_accepted(line, secret, max_skew_secs, now) <==> {
            &&& magic == "NSSH1"@
            &&& now - timestamp <= max_skew_secs
            &&& timestamp - now <= max_skew_secs
            &&& signature == number::hex_bytes(
                hmac_sha256_mac(
                    encode_utf8(secret),
                    encode_utf8(
                        token + "|"@ + number::signed_decimal(timestamp as int) + "|"@ + nonce,
                    ),
                ),
            )
        },
{
}

/// A line of more or fewer words than five is refused, and so is one that begins with another word
/// than the magic one.
pub proof fn law_other_lines_are_refused(
    line: Seq<char>,
    secret: Seq<char>,
    max_skew_secs: u64,
    now: i64,
)
    requires
        text::words_of(line).len() != 5 || text::words_of(line)[0] != "NSSH1"@,
    ensures
        !preface_shaped(line),
        !preface_accepted(line, secret, max_skew_secs, now),
{
}

/// A timestamp is the number that its word writes; a word that writes none counts as zero.
pub proof fn law_timestamp_is_the_number_written(timestamp: i64, word: Seq<char>)
    ensures
        timestamp_of(number::signed_decimal(timestamp as int)) == timestamp,
        number::i64_value(word) is None ==> timestamp_of(word) == 0,
        number::i64_value(word) matches Some(t) ==> timestamp_of(word) == t,
{
    number::law_i64_reads_back(timestamp);
}

/// The skew is the distance of two times: the same both ways, none only between equal ones, and one
/// second more for each second further away.
pub proof fn law_skew_is_a_distance(now: i64, timestamp: i64)
    ensures
        clock_skew(now, timestamp) == clock_skew(timestamp, now),
        clock_skew(now, timestamp) >= 0,
        clock_skew(now, timestamp) == 0 <==> now == timestamp,
        timestamp <= now < i64::MAX ==> clock_skew((now + 1) as i64, timestamp) == clock_skew(
            now,
            timestamp,
        ) + 1,
        clock_skew(now, timestamp) == now - timestamp || clock_skew(now, timestamp) == timestamp
            - now,
{
}

/// A handshake line ends at a line feed or once it is over the limit, and not before.
pub proof fn law_line_ends_at_a_feed_or_the_limit(line: Seq<u8>, byte: u8)
    ensures
        ends_line(line, 10),
        line.len() < 1024 && byte != 10 ==> !ends_line(line, byte),
        line.len() >= 1024 ==> ends_line(line, byte),
{
}

} // verus!
