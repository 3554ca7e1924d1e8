//! The per-connection protocol engine: one state machine per accepted
//! socket. The surrounding read loop only moves bytes; every decision about
//! a line — authentication, ingest, correlation, capacity — is taken here.
use vstd::prelude::*;

verus! {

use crate::codec::Frame;
use crate::codec::FrameV;
use crate::codec::ack_line;
use crate::codec::enc_frame;
use crate::codec::encode_frame;
use crate::codec::parse_frame;
use crate::codec::rejected_line;
use crate::codec::spec_ack_line;
use crate::codec::spec_is_cmd_echo;
use crate::codec::spec_rejected_line;
use crate::codec::sp_frame;
use crate::command_results::CommandResult;
use crate::model::ClientInfoV;
use crate::model::Timestamp;
use crate::shared_data::SharedData;
use crate::tcp_auth::TcpAuthMessage;
use crate::tcp_auth::TcpAuthMessageV;
use crate::tcp_auth::TcpAuthenticator;
use crate::tcp_auth::spec_verify_response;

/// Where one connection stands: freshly accepted and (when authentication is
/// on) still proving itself, proven, or refused.
pub enum ConnectionState {
    Connected,
    Authenticated,
    AuthFailed,
}

/// Everything the engine keeps per connection: the phase, the agent id once
/// bound, and the challenge it issued.
pub struct ConnectionHandler {
    pub state: ConnectionState,
    pub client_id: String,
    pub challenge_nonce: Option<String>,
    pub challenge_timestamp: Option<u64>,
    pub auth_enabled: bool,
    pub authenticator: TcpAuthenticator,
}

/// What the caller must do after one step: write `reply` if there is one,
/// and close the connection when `close` holds.
pub struct StepOutcome {
    pub reply: Option<String>,
    pub close: bool,
}

/// Whether a response frame passes against the challenge this handler
/// issued; false when no challenge was issued.
pub open spec fn auth_ok(
    h: ConnectionHandler,
    client_id: Seq<char>,
    nonce: Seq<char>,
    response_hash: Seq<char>,
    timestamp: u64,
    now: Timestamp,
) -> bool {
    &&& h.challenge_nonce is Some
    &&& h.challenge_timestamp is Some
    &&& spec_verify_response(
        h.authenticator.shared_secret@,
        TcpAuthMessageV::Response { client_id, nonce, response_hash, timestamp },
        h.challenge_nonce->0@,
        h.challenge_timestamp->0,
        now.secs,
    )
}

/// The registry is exactly as it was.
pub open spec fn registry_same<H>(pre: SharedData<H>, post: SharedData<H>) -> bool {
    &&& post.client_data == pre.client_data
    &&& post.client_connections == pre.client_connections
    &&& post.connection_count == pre.connection_count
    &&& post.command_results == pre.command_results
    &&& post.max_connections == pre.max_connections
}

/// The handler's identity and configuration never change across steps; only
/// the phase and the bound agent id may move.
pub open spec fn handler_config_same(pre: ConnectionHandler, post: ConnectionHandler) -> bool {
    &&& post.challenge_nonce == pre.challenge_nonce
    &&& post.challenge_timestamp == pre.challenge_timestamp
    &&& post.auth_enabled == pre.auth_enabled
    &&& post.authenticator == pre.authenticator
}

impl ConnectionHandler {
    /// Accepts a connection. With authentication on, issues a challenge
    /// (recording its nonce and timestamp) and waits in `Connected`;
    /// otherwise the connection counts as authenticated at once.
    pub fn on_connect(auth_enabled: bool, shared_secret: String, now_secs: u64) -> (r: (
        ConnectionHandler,
        Option<String>,
    ))
        ensures
            r.0.auth_enabled == auth_enabled,
            r.0.authenticator.shared_secret == shared_secret,
            r.0.client_id@ == Seq::<char>::empty(),
            !auth_enabled ==> {
                &&& r.0.state is Authenticated
                &&& r.0.challenge_nonce is None
                &&& r.0.challenge_timestamp is None
                &&& r.1 is None
            },
            auth_enabled ==> {
                &&& r.0.state is Connected
                &&& r.0.challenge_nonce is Some
                &&& r.0.challenge_timestamp == Some(now_secs)
                &&& (r.1 matches Some(line) && line@ == enc_frame(
                    FrameV::AuthChallenge {
                        nonce: r.0.challenge_nonce->0@,
                        timestamp: now_secs,
                    },
                ) + "\n"@)
            },
    {
        if auth_enabled {
            let challenge = TcpAuthenticator::generate_challenge(now_secs);
            match challenge {
                TcpAuthMessage::Challenge { nonce, timestamp } => {
                    let frame = Frame::AuthChallenge { nonce: nonce.clone(), timestamp };
                    let mut line = encode_frame(&frame);
                    line.append("\n");
                    let handler = ConnectionHandler {
                        state: ConnectionState::Connected,
                        client_id: String::new(),
                        challenge_nonce: Some(nonce),
                        challenge_timestamp: Some(timestamp),
                        auth_enabled,
                        authenticator: TcpAuthenticator::new(shared_secret),
                    };
                    (handler, Some(line))
                },
                _ => {
                    proof {
                        assert(false);
                    }
                    (
                        ConnectionHandler {
                            state: ConnectionState::AuthFailed,
                            client_id: String::new(),
                            challenge_nonce: None,
                            challenge_timestamp: None,
                            auth_enabled,
                            authenticator: TcpAuthenticator::new(shared_secret),
                        },
                        None,
                    )
                },
            }
        } else {
            (
                ConnectionHandler {
                    state: ConnectionState::Authenticated,
                    client_id: String::new(),
                    challenge_nonce: None,
                    challenge_timestamp: None,
                    auth_enabled,
                    authenticator: TcpAuthenticator::new(shared_secret),
                },
                None,
            )
        }
    }

    /// Whether frames other than authentication may be ingested now.
    pub open spec fn spec_ingest_allowed(self) -> bool {
        !self.auth_enabled || self.state is Authenticated
    }

    /// One step of the event table: takes one logical line, drives the
    /// registry and the tracker, and says what to write back and whether to
    /// close. Lines that echo `CMD:`, fail to parse, or arrive in the wrong
    /// phase are dropped and change nothing.
    #[verifier::rlimit(80)]
    pub fn process_line<H>(
        &mut self,
        shared: &mut SharedData<H>,
        line: &Vec<char>,
        handle: H,
        now: Timestamp,
    ) -> (r: StepOutcome)
        requires
            old(shared).wf(),
            now.wf(),
        ensures
            final(shared).wf(),
            handler_config_same(*old(self), *final(self)),
            final(shared).max_connections == old(shared).max_connections,
            // Echoed commands, unparsable lines and empty lines change nothing.
            (spec_is_cmd_echo(line@) || sp_frame(line@) is None) ==> {
                &&& registry_same(*old(shared), *final(shared))
                &&& *final(self) == *old(self)
                &&& r.reply is None
                &&& !r.close
            },
            // A response to the challenge: verified against the issued nonce
            // and timestamp; success binds the agent id and attaches it,
            // failure answers and closes.
            !spec_is_cmd_echo(line@) ==> (sp_frame(line@) matches Some(
                FrameV::AuthResponse { client_id, nonce, response_hash, timestamp },
            ) ==> {
                &&& (!old(self).auth_enabled ==> registry_same(*old(shared), *final(shared))
                    && *final(self) == *old(self) && r.reply is None && !r.close)
                &&& (old(self).auth_enabled && auth_ok(
                    *old(self),
                    client_id,
                    nonce,
                    response_hash,
                    timestamp,
                    now,
                ) ==> {
                    &&& final(shared).client_data == old(shared).client_data
                    &&& final(shared).command_results == old(shared).command_results
                    &&& (old(shared).connection_count < old(shared).max_connections || old(shared).client_connections@.contains_key(client_id) ==> {
                        &&& final(self).state is Authenticated
                        &&& final(self).client_id@ == client_id
                        &&& final(shared).client_connections@ == old(shared).client_connections@.insert(client_id, handle)
                        &&& (r.reply matches Some(reply) && reply@ == enc_frame(
                            FrameV::AuthResult {
                                success: true,
                                message: "Authentication successful"@,
                            },
                        ) + "\n"@)
                        &&& !r.close
                    })
                    &&& (old(shared).connection_count >= old(shared).max_connections && !old(shared).client_connections@.contains_key(client_id) ==> {
                        &&& registry_same(*old(shared), *final(shared))
                        &&& (r.reply matches Some(reply) && reply@ == spec_rejected_line())
                        &&& r.close
                    })
                })
                &&& (old(self).auth_enabled && !auth_ok(
                    *old(self),
                    client_id,
                    nonce,
                    response_hash,
                    timestamp,
                    now,
                ) ==> {
                    &&& registry_same(*old(shared), *final(shared))
                    &&& final(self).state is AuthFailed
                    &&& (r.reply matches Some(reply) && reply@ == enc_frame(
                        FrameV::AuthResult { success: false, message: "Authentication failed"@ },
                    ) + "\n"@)
                    &&& r.close
                })
            }),
            // A heartbeat: before authentication it is dropped; after, the
            // connection is attached (capacity permitting), the state entry
            // stamped with the server's clock, and an ACK goes back.
            !spec_is_cmd_echo(line@) ==> (sp_frame(line@) matches Some(
                FrameV::ClientInfo { client_id, system_info, version_info, app_info, last_seen },
            ) ==> {
                &&& (!old(self).spec_ingest_allowed() ==> registry_same(
                    *old(shared),
                    *final(shared),
                ) && *final(self) == *old(self) && r.reply is None && !r.close)
                &&& (old(self).spec_ingest_allowed() && (old(shared).connection_count < old(shared).max_connections || old(shared).client_connections@.contains_key(client_id))
                    ==> {
                    &&& final(self).client_id@ == client_id
                    &&& final(shared).client_connections@ == old(shared).client_connections@.insert(client_id, handle)
                    &&& final(shared).client_data@.contains_key(client_id)
                    &&& final(shared).client_data@[client_id]@ == (ClientInfoV {
                        client_id,
                        system_info,
                        version_info,
                        app_info,
                        last_seen: now,
                    })
                    &&& (forall|k: Seq<char>|
                        k != client_id ==> (final(shared).client_data@.contains_key(k) <==> old(shared).client_data@.contains_key(k)))
                    &&& (forall|k: Seq<char>|
                        k != client_id && old(shared).client_data@.contains_key(k) ==> final(shared).client_data@[k] == old(shared).client_data@[k])
                    &&& final(shared).command_results == old(shared).command_results
                    &&& (r.reply matches Some(reply) && reply@ == spec_ack_line())
                    &&& !r.close
                })
                &&& (old(self).spec_ingest_allowed() && !(old(shared).connection_count < old(shared).max_connections || old(shared).client_connections@.contains_key(client_id))
                    ==> {
                    &&& registry_same(*old(shared), *final(shared))
                    &&& (r.reply matches Some(reply) && reply@ == spec_rejected_line())
                    &&& r.close
                })
            }),
            // An agent's answer to a dispatched command: filed under the
            // server's clock; before authentication it is dropped.
            !spec_is_cmd_echo(line@) ==> (sp_frame(line@) matches Some(
                FrameV::CommandResponse {
                    command_id,
                    client_id,
                    command,
                    output,
                    error_output,
                    exit_code,
                    executed_at,
                },
            ) ==> {
                &&& (!old(self).spec_ingest_allowed() ==> registry_same(
                    *old(shared),
                    *final(shared),
                ) && *final(self) == *old(self) && r.reply is None && !r.close)
                &&& (old(self).spec_ingest_allowed() ==> {
                    &&& *final(self) == *old(self)
                    &&& final(shared).client_data == old(shared).client_data
                    &&& final(shared).client_connections == old(shared).client_connections
                    &&& final(shared).connection_count == old(shared).connection_count
                    &&& final(shared).command_results.pending_commands@ == old(shared).command_results.pending_commands@.remove(command_id)
                    &&& final(shared).command_results.completed_results@.contains_key(command_id)
                    &&& final(shared).command_results.completed_results@[command_id]@ == (
                    crate::command_results::CommandResultV {
                        command_id,
                        client_id,
                        command,
                        output,
                        error_output,
                        exit_code,
                        executed_at,
                        received_at: now,
                    })
                    &&& r.reply is None
                    &&& !r.close
                })
            }),
            // Server-to-agent frame kinds arriving from an agent are dropped.
            (!spec_is_cmd_echo(line@) && (sp_frame(line@) matches Some(
                FrameV::AuthChallenge { nonce: _, timestamp: _ },
            ) || sp_frame(line@) matches Some(FrameV::AuthResult { success: _, message: _ }))) ==> {
                &&& registry_same(*old(shared), *final(shared))
                &&& *final(self) == *old(self)
                &&& r.reply is None
                &&& !r.close
            },
    {
        if crate::codec::is_cmd_echo(line) {
            return StepOutcome { reply: None, close: false };
        }
        let frame = match parse_frame(line) {
            Some(f) => f,
            None => {
                return StepOutcome { reply: None, close: false };
            },
        };
        match frame {
            Frame::AuthResponse { client_id, nonce, response_hash, timestamp } => {
                if !self.auth_enabled {
                    return StepOutcome { reply: None, close: false };
                }
                let response = TcpAuthMessage::Response {
                    client_id: client_id.clone(),
                    nonce,
                    response_hash,
                    timestamp,
                };
                let is_valid = match (&self.challenge_nonce, &self.challenge_timestamp) {
                    (Some(orig_nonce), Some(orig_timestamp)) => {
                        match self.authenticator.verify_response(
                            &response,
                            orig_nonce.as_str(),
                            *orig_timestamp,
                            now.secs,
                        ) {
                            Ok(valid) => valid,
                            Err(_) => false,
                        }
                    },
                    _ => false,
                };
                if is_valid {
                    let attach_key = client_id.clone();
                    match shared.add_client_connection(attach_key, handle) {
                        Ok(()) => {
                            self.state = ConnectionState::Authenticated;
                            self.client_id = client_id;
                            let mut reply = encode_frame(
                                &Frame::AuthResult {
                                    success: true,
                                    message: String::from_str("Authentication successful"),
                                },
                            );
                            reply.append("\n");
                            StepOutcome { reply: Some(reply), close: false }
                        },
                        Err(_) => StepOutcome { reply: Some(rejected_line()), close: true },
                    }
                } else {
                    self.state = ConnectionState::AuthFailed;
                    let mut reply = encode_frame(
                        &Frame::AuthResult {
                            success: false,
                            message: String::from_str("Authentication failed"),
                        },
                    );
                    reply.append("\n");
                    StepOutcome { reply: Some(reply), close: true }
                }
            },
            Frame::ClientInfo { client_id, system_info, version_info, app_info, last_seen } => {
                let authenticated = match self.state {
                    ConnectionState::Authenticated => true,
                    _ => false,
                };
                if self.auth_enabled && !authenticated {
                    return StepOutcome { reply: None, close: false };
                }
                let attach_key = client_id.clone();
                match shared.add_client_connection(attach_key, handle) {
                    Ok(()) => {},
                    Err(_) => {
                        return StepOutcome { reply: Some(rejected_line()), close: true };
                    },
                }
                self.client_id = client_id.clone();
                let info = crate::model::ClientInfo {
                    client_id,
                    system_info,
                    version_info,
                    app_info,
                    last_seen,
                };
                shared.upsert_state(info, now);
                StepOutcome { reply: Some(ack_line()), close: false }
            },
            Frame::CommandResponse {
                command_id,
                client_id,
                command,
                output,
                error_output,
                exit_code,
                executed_at,
            } => {
                let authenticated = match self.state {
                    ConnectionState::Authenticated => true,
                    _ => false,
                };
                if self.auth_enabled && !authenticated {
                    return StepOutcome { reply: None, close: false };
                }
                let result = CommandResult {
                    command_id,
                    client_id,
                    command,
                    output,
                    error_output,
                    exit_code,
                    executed_at,
                    received_at: now,
                };
                shared.store_command_result(result);
                StepOutcome { reply: None, close: false }
            },
            Frame::AuthChallenge { .. } => StepOutcome { reply: None, close: false },
            Frame::AuthResult { .. } => StepOutcome { reply: None, close: false },
        }
    }

    /// Read error or end of stream: the connection leaves the registry; the
    /// state entry stays until the expiry sweep takes it.
    pub fn on_disconnect<H>(&self, shared: &mut SharedData<H>)
        requires
            old(shared).wf(),
        ensures
            final(shared).wf(),
            final(shared).client_connections@ == old(shared).client_connections@.remove(
                self.client_id@,
            ),
            final(shared).client_data == old(shared).client_data,
            final(shared).command_results == old(shared).command_results,
            final(shared).max_connections == old(shared).max_connections,
            old(shared).client_connections@.contains_key(self.client_id@) ==> final(shared).connection_count == old(shared).connection_count - 1,
            !old(shared).client_connections@.contains_key(self.client_id@) ==> final(shared).connection_count == old(shared).connection_count,
    {
        shared.remove_client_connection(self.client_id.as_str());
    }
}

/// Decodes one line's bytes as UTF-8 characters; a line that is not valid
/// UTF-8 is dropped by the caller.
pub fn decode_line(bytes: &Vec<u8>) -> (r: Option<Vec<char>>)
    ensures
        match r {
            Some(cs) => vstd::utf8::encode_utf8(cs@) == bytes@,
            None => !vstd::utf8::valid_utf8(bytes@),
        },
{
    match crate::ext::bytes_to_string(bytes) {
        Some(s) => Some(crate::strutil::str_to_chars(s.as_str())),
        None => None,
    }
}

} // verus!
