//! Challenge-response authentication for agent connections: HMAC-SHA256 over
//! the agent id, the server's nonce and the challenge timestamp.
use vstd::prelude::*;

verus! {

use crate::ext::hex_encode;
use crate::ext::hex_of;
use crate::ext::hmac_sha256;
use crate::ext::hmac_sha256_of;
use crate::ext::new_uuid_string;
use crate::strutil::dec_u64;
use crate::strutil::u64_to_string;
use vstd::utf8::encode_utf8;

/// The protocol messages of the authentication round trip.
#[derive(Debug)]
pub enum TcpAuthMessage {
    /// Server to agent: prove yourself against this nonce and timestamp.
    Challenge { nonce: String, timestamp: u64 },
    /// Agent to server: the keyed hash over id, nonce and timestamp.
    Response { client_id: String, nonce: String, response_hash: String, timestamp: u64 },
    /// Server to agent: the verdict.
    AuthResult { success: bool, message: String },
}

pub ghost enum TcpAuthMessageV {
    Challenge { nonce: Seq<char>, timestamp: u64 },
    Response { client_id: Seq<char>, nonce: Seq<char>, response_hash: Seq<char>, timestamp: u64 },
    AuthResult { success: bool, message: Seq<char> },
}

impl View for TcpAuthMessage {
    type V = TcpAuthMessageV;

    open spec fn view(&self) -> TcpAuthMessageV {
        match self {
            TcpAuthMessage::Challenge { nonce, timestamp } => TcpAuthMessageV::Challenge {
                nonce: nonce@,
                timestamp: *timestamp,
            },
            TcpAuthMessage::Response { client_id, nonce, response_hash, timestamp } => {
                TcpAuthMessageV::Response {
                    client_id: client_id@,
                    nonce: nonce@,
                    response_hash: response_hash@,
                    timestamp: *timestamp,
                }
            },
            TcpAuthMessage::AuthResult { success, message } => TcpAuthMessageV::AuthResult {
                success: *success,
                message: message@,
            },
        }
    }
}

impl Clone for TcpAuthMessage {
    fn clone(&self) -> (r: Self)
        ensures
            r@ == self@,
    {
        match self {
            TcpAuthMessage::Challenge { nonce, timestamp } => TcpAuthMessage::Challenge {
                nonce: nonce.clone(),
                timestamp: *timestamp,
            },
            TcpAuthMessage::Response { client_id, nonce, response_hash, timestamp } => {
                TcpAuthMessage::Response {
                    client_id: client_id.clone(),
                    nonce: nonce.clone(),
                    response_hash: response_hash.clone(),
                    timestamp: *timestamp,
                }
            },
            TcpAuthMessage::AuthResult { success, message } => TcpAuthMessage::AuthResult {
                success: *success,
                message: message.clone(),
            },
        }
    }
}

/// `a - b`, floored at zero.
pub open spec fn sat_sub(a: u64, b: u64) -> int {
    if a >= b {
        a - b
    } else {
        0
    }
}

/// The exact text that is keyed: agent id, nonce, then the decimal
/// timestamp with no padding.
pub open spec fn auth_data(client_id: Seq<char>, nonce: Seq<char>, timestamp: u64) -> Seq<char> {
    client_id + nonce + dec_u64(timestamp as int)
}

/// The hex HMAC-SHA256 tag the protocol expects for these inputs.
pub open spec fn expected_hash(
    secret: Seq<char>,
    client_id: Seq<char>,
    nonce: Seq<char>,
    timestamp: u64,
) -> Seq<char> {
    hex_of(hmac_sha256_of(encode_utf8(secret), encode_utf8(auth_data(client_id, nonce, timestamp))))
}

/// Whether a response message passes verification against the challenge the
/// server issued: matching nonce, a response timestamp at most 60 seconds
/// old, and the right tag over the original nonce and timestamp.
pub open spec fn spec_verify_response(
    secret: Seq<char>,
    response: TcpAuthMessageV,
    original_nonce: Seq<char>,
    original_timestamp: u64,
    now_secs: u64,
) -> bool {
    match response {
        TcpAuthMessageV::Response { client_id, nonce, response_hash, timestamp } => {
            &&& nonce == original_nonce
            &&& sat_sub(now_secs, timestamp) <= 60
            &&& response_hash == expected_hash(secret, client_id, original_nonce, original_timestamp)
        },
        _ => false,
    }
}

/// Holds the shared symmetric secret and implements both ends of the round
/// trip.
pub struct TcpAuthenticator {
    pub shared_secret: String,
}

impl Clone for TcpAuthenticator {
    fn clone(&self) -> (r: Self)
        ensures
            r.shared_secret@ == self.shared_secret@,
    {
        TcpAuthenticator { shared_secret: self.shared_secret.clone() }
    }
}

impl TcpAuthenticator {
    pub fn new(shared_secret: String) -> (r: TcpAuthenticator)
        ensures
            r.shared_secret == shared_secret,
    {
        TcpAuthenticator { shared_secret }
    }

    /// A fresh challenge: a random nonce and the current time.
    pub fn generate_challenge(now_secs: u64) -> (r: TcpAuthMessage)
        ensures
            r@ matches TcpAuthMessageV::Challenge { nonce, timestamp } && timestamp == now_secs
                && nonce.len() == 36,
    {
        let nonce = new_uuid_string();
        TcpAuthMessage::Challenge { nonce, timestamp: now_secs }
    }

    /// The hex HMAC-SHA256 tag of `data` under the shared secret.
    fn compute_hmac(&self, data: &str) -> (r: String)
        ensures
            r@ == hex_of(
                hmac_sha256_of(encode_utf8(self.shared_secret@), encode_utf8(data@)),
            ),
    {
        let tag = hmac_sha256(self.shared_secret.as_str().as_bytes(), data.as_bytes());
        hex_encode(tag.as_slice())
    }

    /// The agent's side: refuses a challenge older than 30 seconds, else
    /// answers with the tag over id, nonce and the challenge timestamp.
    pub fn generate_response(
        &self,
        client_id: String,
        challenge_nonce: String,
        challenge_timestamp: u64,
        now_secs: u64,
    ) -> (r: Result<TcpAuthMessage, String>)
        ensures
            match r {
                Ok(m) => sat_sub(now_secs, challenge_timestamp) <= 30 && (
                m@ matches TcpAuthMessageV::Response { client_id: c, nonce: n, response_hash: h, timestamp: t }
                    && c == client_id@ && n == challenge_nonce@ && t == now_secs && h
                    == expected_hash(
                    self.shared_secret@,
                    client_id@,
                    challenge_nonce@,
                    challenge_timestamp,
                )),
                Err(e) => sat_sub(now_secs, challenge_timestamp) > 30 && e@
                    == "Challenge timestamp too old"@,
            },
    {
        let age = if now_secs >= challenge_timestamp {
            now_secs - challenge_timestamp
        } else {
            0
        };
        if age > 30 {
            return Err(String::from_str("Challenge timestamp too old"));
        }
        let mut data = self.build_auth_data(client_id.as_str(), challenge_nonce.as_str(), challenge_timestamp);
        let response_hash = self.compute_hmac(data.as_str());
        Ok(
            TcpAuthMessage::Response {
                client_id,
                nonce: challenge_nonce,
                response_hash,
                timestamp: now_secs,
            },
        )
    }

    /// The literal concatenation `{client_id}{nonce}{timestamp}`.
    fn build_auth_data(&self, client_id: &str, nonce: &str, timestamp: u64) -> (r: String)
        ensures
            r@ == auth_data(client_id@, nonce@, timestamp),
    {
        let mut data = String::from_str(client_id);
        data.append(nonce);
        let ts = u64_to_string(timestamp);
        data.append(ts.as_str());
        data
    }

    /// The server's side: checks the response against the challenge it
    /// issued, comparing tags in constant time.
    pub fn verify_response(
        &self,
        response: &TcpAuthMessage,
        original_nonce: &str,
        original_timestamp: u64,
        now_secs: u64,
    ) -> (r: Result<bool, String>)
        ensures
            r matches Ok(b) && b == spec_verify_response(
                self.shared_secret@,
                response@,
                original_nonce@,
                original_timestamp,
                now_secs,
            ),
    {
        match response {
            TcpAuthMessage::Response { client_id, nonce, response_hash, timestamp } => {
                if !crate::strutil::str_eq(nonce.as_str(), original_nonce) {
                    return Ok(false);
                }
                let age = if now_secs >= *timestamp {
                    now_secs - *timestamp
                } else {
                    0
                };
                if age > 60 {
                    return Ok(false);
                }
                let data = self.build_auth_data(
                    client_id.as_str(),
                    original_nonce,
                    original_timestamp,
                );
                let expected = self.compute_hmac(data.as_str());
                Ok(constant_time_compare(expected.as_str(), response_hash.as_str()))
            },
            _ => Ok(false),
        }
    }

    pub fn create_success_result() -> (r: TcpAuthMessage)
        ensures
            r@ == (TcpAuthMessageV::AuthResult {
                success: true,
                message: "Authentication successful"@,
            }),
    {
        TcpAuthMessage::AuthResult {
            success: true,
            message: String::from_str("Authentication successful"),
        }
    }

    pub fn create_failure_result(message: &str) -> (r: TcpAuthMessage)
        ensures
            r@ == (TcpAuthMessageV::AuthResult { success: false, message: message@ }),
    {
        TcpAuthMessage::AuthResult { success: false, message: String::from_str(message) }
    }
}

/// Equality of two strings, scanning every character so that the time taken
/// does not reveal where they first differ.
pub fn constant_time_compare(a: &str, b: &str) -> (r: bool)
    ensures
        r == (a@ == b@),
{
    let na = a.unicode_len();
    let nb = b.unicode_len();
    if na != nb {
        return false;
    }
    let mut diff: u32 = 0;
    let mut i: usize = 0;
    while i < na
        invariant
            na == a@.len(),
            na == b@.len(),
            i <= na,
            (diff == 0) <==> (forall|k: int| 0 <= k < i ==> a@[k] == b@[k]),
        decreases na - i,
    {
        let ca = a.get_char(i);
        let cb = b.get_char(i);
        let ua: u32 = ca as u32;
        let ub: u32 = cb as u32;
        let x: u32 = ua ^ ub;
        proof {
            assert((x == 0) == (ua == ub)) by (bit_vector)
                requires
                    x == ua ^ ub,
            ;
            if ca as u32 == cb as u32 {
                vstd::utf8::char_u32_cast(ca, ca as u32);
                vstd::utf8::char_u32_cast(cb, cb as u32);
                assert(ca == cb);
            }
            let d = diff;
            assert(((d | x) == 0) == (d == 0 && x == 0)) by (bit_vector);
        }
        diff = diff | x;
        i = i + 1;
    }
    if diff == 0 {
        proof {
            assert(a@ =~= b@);
        }
        true
    } else {
        false
    }
}

} // verus!
