//! CSRF token authority.
//!
//! A process-wide random secret signs tokens that are bound to a session
//! identifier: a token is a random 32-byte nonce and the SHA-256 digest of
//! `secret || session_id || nonce`, both URL-safe base64 without padding,
//! joined by a `.`. Validation re-derives the digest and compares it in
//! constant time; malformed input is a validation failure, never a fault.

use vstd::prelude::*;

verus! {

use vstd::string::StrSliceExecFns;
use vstd::string::StringExecFns;
use vstd::utf8::encode_utf8;

use crate::crypto::b64_decode;
use crate::crypto::b64_decode_of;
use crate::crypto::b64_encode;
use crate::crypto::push_all;
use crate::crypto::random_bytes;
use crate::crypto::sha256;
use crate::crypto::sha256_of;

/// Length in bytes of a token's random nonce (256 bits).
pub const TOKEN_BYTES: usize = 32;

/// Length in bytes of the process-wide secret.
pub const SECRET_BYTES: usize = 64;

/// The signing input for a token: secret, then the session id's bytes, then
/// the nonce.
pub open spec fn token_message(key: Seq<u8>, session_id: Seq<char>, nonce: Seq<u8>) -> Seq<u8> {
    key + encode_utf8(session_id) + nonce
}

/// `i` is the position of the first `.` in `s`.
pub open spec fn is_first_dot(s: Seq<char>, i: int) -> bool {
    &&& 0 <= i < s.len()
    &&& s[i] == '.'
    &&& forall|j: int| 0 <= j < i ==> s[j] != '.'
}

/// Whether the two segments of a token, split at its first dot, carry a
/// 32-byte nonce and the digest that binds that nonce to `session_id` under
/// `key`.
pub open spec fn token_parts_valid(
    key: Seq<u8>,
    session_id: Seq<char>,
    nonce_part: Seq<char>,
    sig_part: Seq<char>,
) -> bool {
    match b64_decode_of(nonce_part) {
        Some(nonce) => nonce.len() == TOKEN_BYTES && match b64_decode_of(sig_part) {
            Some(sig) => sig == sha256_of(token_message(key, session_id, nonce)),
            None => false,
        },
        None => false,
    }
}

/// Whether `token` validates for `session_id` under the secret `key`: it
/// splits at its first dot into a valid 32-byte nonce and the matching
/// signature.
pub open spec fn spec_token_valid(key: Seq<u8>, session_id: Seq<char>, token: Seq<char>) -> bool {
    exists|i: int|
        #[trigger] is_first_dot(token, i) && token_parts_valid(
            key,
            session_id,
            token.subrange(0, i),
            token.subrange(i + 1, token.len() as int),
        )
}

/// A sequence has at most one first dot.
pub proof fn lemma_first_dot_unique(s: Seq<char>, i: int, j: int)
    requires
        is_first_dot(s, i),
        is_first_dot(s, j),
    ensures
        i == j,
{
    if i < j {
        assert(s[i] != '.');
    } else if j < i {
        assert(s[j] != '.');
    }
}

/// Secret key that signs and validates CSRF tokens (generated once at
/// startup).
#[derive(Clone)]
pub struct CsrfSecret(Vec<u8>);

impl View for CsrfSecret {
    type V = Seq<u8>;

    closed spec fn view(&self) -> Seq<u8> {
        self.0@
    }
}

impl CsrfSecret {
    /// Generate a new random secret at server startup.
    pub fn generate() -> (secret: Self)
        ensures
            secret@.len() == SECRET_BYTES,
    {
        CsrfSecret(random_bytes(SECRET_BYTES))
    }

    /// Generate a CSRF token bound to a session id. The token always
    /// validates for that id under this secret; its nonce is fresh
    /// randomness, so repeated calls yield distinct tokens with overwhelming
    /// probability (not stated here: the nonce could repeat).
    pub fn generate_token(&self, session_id: &str) -> (token: String)
        ensures
            spec_token_valid(self@, session_id@, token@),
    {
        let nonce = random_bytes(TOKEN_BYTES);

        let mut msg: Vec<u8> = Vec::new();
        push_all(&mut msg, self.0.as_slice());
        push_all(&mut msg, session_id.as_bytes());
        push_all(&mut msg, nonce.as_slice());
        proof {
            assert(msg@ =~= token_message(self@, session_id@, nonce@));
        }
        let sig = sha256(msg.as_slice());

        let mut token = b64_encode(nonce.as_slice());
        let sig_b64 = b64_encode(sig.as_slice());
        let ghost nonce_part = token@;
        token.append(".");
        token.append(sig_b64.as_str());

        proof {
            reveal_strlit(".");
            let i = nonce_part.len() as int;
            assert(token@[i] == '.');
            assert(forall|j: int| 0 <= j < i ==> token@[j] == nonce_part[j]);
            assert(is_first_dot(token@, i));
            assert(token@.subrange(0, i) =~= nonce_part);
            assert(token@.subrange(i + 1, token@.len() as int) =~= sig_b64@);
            assert(token_parts_valid(self@, session_id@, nonce_part, sig_b64@));
        }
        token
    }

    /// Validate a token against a session id. Returns true exactly when the
    /// token is well-formed and its signature matches; a malformed token is
    /// a plain `false`, never an error.
    pub fn validate_token(&self, token: &str, session_id: &str) -> (valid: bool)
        ensures
            valid == spec_token_valid(self@, session_id@, token@),
    {
        let n = token.unicode_len();

        let mut i: usize = 0;
        loop
            invariant_except_break
                i <= n,
            invariant
                n == token@.len(),
                forall|j: int| 0 <= j < i ==> token@[j] != '.',
            ensures
                is_first_dot(token@, i as int),
            decreases n - i,
        {
            if i == n {
                proof {
                    assert forall|k: int| !is_first_dot(token@, k) by {
                        if is_first_dot(token@, k) {
                            assert(token@[k] != '.');
                        }
                    }
                }
                return false;
            }
            if token.get_char(i) == '.' {
                break;
            }
            i = i + 1;
        }

        let nonce_part = token.substring_char(0, i);
        let sig_part = token.substring_char(i + 1, n);
        let ghost fd = i as int;

        proof {
            assert(forall|k: int| is_first_dot(token@, k) ==> k == fd) by {
                assert forall|k: int| is_first_dot(token@, k) implies k == fd by {
                    lemma_first_dot_unique(token@, k, fd);
                }
            }
        }

        let nonce = match b64_decode(nonce_part) {
            Some(v) => v,
            None => {
                return false;
            },
        };
        if nonce.len() != TOKEN_BYTES {
            return false;
        }
        let sig = match b64_decode(sig_part) {
            Some(v) => v,
            None => {
                return false;
            },
        };

        let mut msg: Vec<u8> = Vec::new();
        push_all(&mut msg, self.0.as_slice());
        push_all(&mut msg, session_id.as_bytes());
        push_all(&mut msg, nonce.as_slice());
        let expected = sha256(msg.as_slice());

        constant_time_eq(sig.as_slice(), expected.as_slice())
    }
}

/// Constant-time byte comparison: the running time does not depend on where
/// the inputs first differ, so the comparison leaks no timing information.
pub fn constant_time_eq(a: &[u8], b: &[u8]) -> (eq: bool)
    ensures
        eq == (a@ == b@),
{
    if a.len() != b.len() {
        proof {
            assert(a@ != b@);
        }
        return false;
    }
    let mut diff: u8 = 0;
    let mut i: usize = 0;
    while i < a.len()
        invariant
            a@.len() == b@.len(),
            i <= a@.len(),
            (diff == 0) <==> (forall|j: int| 0 <= j < i ==> a@[j] == b@[j]),
        decreases a@.len() - i,
    {
        let x = a[i];
        let y = b[i];
        proof {
            let d = diff;
            assert((d | (x ^ y)) == 0 <==> (d == 0 && x == y)) by (bit_vector);
        }
        diff = diff | (x ^ y);
        i = i + 1;
    }
    proof {
        if forall|j: int| 0 <= j < a@.len() ==> a@[j] == b@[j] {
            assert(a@ =~= b@);
        }
    }
    diff == 0
}

/// A token that validates for two session ids forces a SHA-256 collision:
/// the same nonce and signature would have to match the signing input of
/// both ids, which differ whenever the ids' byte encodings differ. Since
/// finding such a collision is infeasible, a token minted for one session is
/// rejected for every other.
pub proof fn lemma_token_bound_to_session(
    key: Seq<u8>,
    sid1: Seq<char>,
    sid2: Seq<char>,
    token: Seq<char>,
)
    ensures
        (spec_token_valid(key, sid1, token) && spec_token_valid(key, sid2, token))
            ==> exists|nonce: Seq<u8>|
                #![all_triggers]
                nonce.len() == TOKEN_BYTES
                && sha256_of(token_message(key, sid1, nonce))
                    == sha256_of(token_message(key, sid2, nonce)),
{
    if spec_token_valid(key, sid1, token) && spec_token_valid(key, sid2, token) {
        let i1 = choose|i: int|
            #[trigger] is_first_dot(token, i) && token_parts_valid(
                key,
                sid1,
                token.subrange(0, i),
                token.subrange(i + 1, token.len() as int),
            );
        let i2 = choose|i: int|
            #[trigger] is_first_dot(token, i) && token_parts_valid(
                key,
                sid2,
                token.subrange(0, i),
                token.subrange(i + 1, token.len() as int),
            );
        lemma_first_dot_unique(token, i1, i2);
        let nonce = b64_decode_of(token.subrange(0, i1))->Some_0;
        assert(nonce.len() == TOKEN_BYTES
            && sha256_of(token_message(key, sid1, nonce))
                == sha256_of(token_message(key, sid2, nonce)));
    }
}

/// A token that validates under two secrets forces a SHA-256 collision: the
/// same nonce and signature would have to match the signing input of both
/// secrets, which differ whenever the secrets differ (both are 64 bytes, so
/// the inputs differ byte for byte wherever the secrets do). Since finding
/// such a collision is infeasible, tokens minted under one secret are
/// rejected by a validator holding another.
pub proof fn lemma_token_bound_to_secret(
    key1: Seq<u8>,
    key2: Seq<u8>,
    sid: Seq<char>,
    token: Seq<char>,
)
    ensures
        (spec_token_valid(key1, sid, token) && spec_token_valid(key2, sid, token))
            ==> exists|nonce: Seq<u8>|
                #![all_triggers]
                nonce.len() == TOKEN_BYTES
                && sha256_of(token_message(key1, sid, nonce))
                    == sha256_of(token_message(key2, sid, nonce)),
{
    if spec_token_valid(key1, sid, token) && spec_token_valid(key2, sid, token) {
        let i1 = choose|i: int|
            #[trigger] is_first_dot(token, i) && token_parts_valid(
                key1,
                sid,
                token.subrange(0, i),
                token.subrange(i + 1, token.len() as int),
            );
        let i2 = choose|i: int|
            #[trigger] is_first_dot(token, i) && token_parts_valid(
                key2,
                sid,
                token.subrange(0, i),
                token.subrange(i + 1, token.len() as int),
            );
        lemma_first_dot_unique(token, i1, i2);
        let nonce = b64_decode_of(token.subrange(0, i1))->Some_0;
        assert(nonce.len() == TOKEN_BYTES
            && sha256_of(token_message(key1, sid, nonce))
                == sha256_of(token_message(key2, sid, nonce)));
    }
}

} // verus!
