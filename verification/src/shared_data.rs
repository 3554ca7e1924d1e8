//! The fleet registry: last-known state per agent, the open connection
//! handle per agent, a connection-count cap, and the expiry sweep. The
//! handle type is a parameter; the registry only stores and hands back
//! handles, it never writes to them.
use vstd::prelude::*;

verus! {

use crate::command_results::CommandResultsManager;
use crate::model::ClientInfo;
use crate::model::ClientInfoV;
use crate::model::Timestamp;
use crate::model::elapsed_gt;
use crate::smap::SMap;
use crate::strutil::dec_u64;
use crate::strutil::u64_to_string;

/// The process-wide aggregate: agent state, live connections, the cap, and
/// the command tracker.
pub struct SharedData<H> {
    pub client_data: SMap<ClientInfo>,
    pub client_connections: SMap<H>,
    pub max_connections: usize,
    pub connection_count: usize,
    pub command_results: CommandResultsManager,
}

impl<H> SharedData<H> {
    /// Maps well formed, the count equal to the number of live connections,
    /// every state entry keyed by its own client id, stamps well formed.
    pub open spec fn wf(self) -> bool {
        &&& self.client_data.wf()
        &&& self.client_connections.wf()
        &&& self.command_results.wf()
        &&& self.connection_count == self.client_connections.kseq().len()
        &&& forall|i: int|
            0 <= i < self.client_data.kseq().len() ==> self.client_data.kseq()[i] == (
            #[trigger] self.client_data.vseq()[i])@.client_id
        &&& forall|i: int|
            0 <= i < self.client_data.vseq().len() ==> (
            #[trigger] self.client_data.vseq()[i]).last_seen.wf()
    }

    /// Each client id owns at most one connection handle: the stored keys
    /// are pairwise distinct, and the handle map has exactly one entry per
    /// live id.
    pub proof fn lemma_one_handle_per_client(self)
        requires
            self.wf(),
        ensures
            forall|p: int, q: int|
                0 <= p < q < self.client_connections.kseq().len()
                    ==> self.client_connections.kseq()[p] != self.client_connections.kseq()[q],
            self.client_connections@.dom().finite(),
            self.client_connections@.dom().len() == self.connection_count,
    {
        self.client_connections.lemma_len();
    }

    pub fn new(max_connections: usize) -> (r: SharedData<H>)
        ensures
            r.wf(),
            r.max_connections == max_connections,
            r.connection_count == 0,
            r.client_data@ == Map::<Seq<char>, ClientInfo>::empty(),
            r.client_connections@ == Map::<Seq<char>, H>::empty(),
            r.command_results.max_results == 1000,
            r.command_results.pending_commands@ == Map::<Seq<char>, crate::command_results::PendingCommand>::empty(),
            r.command_results.completed_results@ == Map::<Seq<char>, crate::command_results::CommandResult>::empty(),
    {
        SharedData {
            client_data: SMap::new(),
            client_connections: SMap::new(),
            max_connections,
            connection_count: 0,
            command_results: CommandResultsManager::new(1000),
        }
    }

    /// Attaches a connection handle. A fresh id beyond the cap is refused;
    /// a known id always replaces its old handle and leaves the count as it
    /// was, so a reconnecting agent never trips the cap.
    pub fn add_client_connection(&mut self, client_id: String, stream: H) -> (r: Result<
        (),
        String,
    >)
        requires
            old(self).wf(),
        ensures
            final(self).wf(),
            final(self).max_connections == old(self).max_connections,
            final(self).client_data == old(self).client_data,
            final(self).command_results == old(self).command_results,
            match r {
                Ok(()) => {
                    &&& final(self).client_connections@ == old(self).client_connections@.insert(
                        client_id@,
                        stream,
                    )
                    &&& (old(self).client_connections@.contains_key(client_id@) ==> final(self).connection_count == old(self).connection_count)
                    &&& (!old(self).client_connections@.contains_key(client_id@) ==> final(self).connection_count == old(self).connection_count + 1)
                },
                Err(e) => {
                    &&& old(self).connection_count >= old(self).max_connections
                    &&& !old(self).client_connections@.contains_key(client_id@)
                    &&& *final(self) == *old(self)
                    &&& e@ == "Maximum connections reached: "@ + dec_u64(
                        old(self).max_connections as int,
                    )
                },
            },
            r is Err <==> (old(self).connection_count >= old(self).max_connections && !old(self).client_connections@.contains_key(client_id@)),
    {
        let known = self.client_connections.contains(client_id.as_str());
        if self.connection_count >= self.max_connections && !known {
            let mut e = String::from_str("Maximum connections reached: ");
            let m = u64_to_string(self.max_connections as u64);
            e.append(m.as_str());
            return Err(e);
        }
        if !known {
            self.connection_count = self.connection_count + 1;
        }
        self.client_connections.insert(client_id, stream);
        Ok(())
    }

    /// Detaches a connection handle; the count follows, floored at zero.
    pub fn remove_client_connection(&mut self, client_id: &str)
        requires
            old(self).wf(),
        ensures
            final(self).wf(),
            final(self).max_connections == old(self).max_connections,
            final(self).client_data == old(self).client_data,
            final(self).command_results == old(self).command_results,
            final(self).client_connections@ == old(self).client_connections@.remove(client_id@),
            old(self).client_connections@.contains_key(client_id@) ==> final(self).connection_count == old(self).connection_count - 1,
            !old(self).client_connections@.contains_key(client_id@) ==> final(self).connection_count == old(self).connection_count,
    {
        let known = self.client_connections.contains(client_id);
        self.client_connections.remove(client_id);
        if known {
            self.connection_count = self.connection_count - 1;
        }
    }

    /// The write side of one agent's connection, when attached.
    pub fn get_connection<'a>(&'a self, client_id: &str) -> (r: Option<&'a H>)
        requires
            self.wf(),
        ensures
            match r {
                Some(h) => self.client_connections@.contains_key(client_id@) && *h
                    == self.client_connections@[client_id@],
                None => !self.client_connections@.contains_key(client_id@),
            },
    {
        self.client_connections.get(client_id)
    }

    /// How many connections are attached.
    pub fn connections_len(&self) -> (r: usize)
        requires
            self.wf(),
        ensures
            r == self.connection_count,
    {
        self.client_connections.len()
    }

    /// The id and handle of the connection stored at position `i`; the
    /// positions enumerate every live connection once.
    pub fn connection_at<'a>(&'a self, i: usize) -> (r: (&'a String, &'a H))
        requires
            self.wf(),
            i < self.connection_count,
        ensures
            r.0@ == self.client_connections.kseq()[i as int],
            *r.1 == self.client_connections.vseq()[i as int],
            self.client_connections@.contains_key(r.0@),
            *r.1 == self.client_connections@[r.0@],
    {
        proof {
            self.client_connections.lemma_view_at(i as int);
        }
        (self.client_connections.key_at(i), self.client_connections.val_at(i))
    }

    /// Records an agent's report, stamping `last_seen` with the server's own
    /// clock; the agent's stamp is discarded.
    pub fn upsert_state(&mut self, info: ClientInfo, now: Timestamp)
        requires
            old(self).wf(),
            now.wf(),
        ensures
            final(self).wf(),
            final(self).max_connections == old(self).max_connections,
            final(self).connection_count == old(self).connection_count,
            final(self).client_connections == old(self).client_connections,
            final(self).command_results == old(self).command_results,
            final(self).client_data@.contains_key(info.client_id@),
            final(self).client_data@[info.client_id@]@ == (ClientInfoV {
                last_seen: now,
                ..info@
            }),
            forall|k: Seq<char>|
                k != info.client_id@ ==> (final(self).client_data@.contains_key(k) <==> old(self).client_data@.contains_key(k)),
            forall|k: Seq<char>|
                k != info.client_id@ && old(self).client_data@.contains_key(k) ==> final(self).client_data@[k] == old(self).client_data@[k],
    {
        let key = info.client_id.clone();
        let stamped = ClientInfo { last_seen: now, ..info };
        let ghost pre = *self;
        self.client_data.insert(key, stamped);
        proof {
            let post = *self;
            post.client_data.lemma_contains(info.client_id@);
            assert forall|k: Seq<char>| k != info.client_id@ implies (
            post.client_data@.contains_key(k) <==> pre.client_data@.contains_key(k)) by {
                pre.client_data.lemma_contains(k);
                post.client_data.lemma_contains(k);
            }
        }
    }

    /// The state entry for one agent, when known.
    pub fn get_state<'a>(&'a self, client_id: &str) -> (r: Option<&'a ClientInfo>)
        requires
            self.wf(),
        ensures
            match r {
                Some(ci) => self.client_data@.contains_key(client_id@) && *ci
                    == self.client_data@[client_id@],
                None => !self.client_data@.contains_key(client_id@),
            },
    {
        self.client_data.get(client_id)
    }

    /// How many agents have state recorded.
    pub fn states_len(&self) -> (r: usize)
        requires
            self.wf(),
        ensures
            r == self.client_data.kseq().len(),
    {
        self.client_data.len()
    }

    /// The state entry stored at position `i`.
    pub fn state_at<'a>(&'a self, i: usize) -> (r: &'a ClientInfo)
        requires
            self.wf(),
            i < self.client_data.kseq().len(),
        ensures
            *r == self.client_data.vseq()[i as int],
            self.client_data@.contains_key(r.client_id@),
            *r == self.client_data@[r.client_id@],
    {
        proof {
            self.client_data.lemma_view_at(i as int);
        }
        self.client_data.val_at(i)
    }

    /// The position of some expired state entry.
    fn find_expired_state(&self, client_timeout_secs: u64, now: Timestamp) -> (r: Option<usize>)
        requires
            self.wf(),
            now.wf(),
        ensures
            match r {
                Some(i) => i < self.client_data.kseq().len() && elapsed_gt(
                    self.client_data.vseq()[i as int].last_seen,
                    now,
                    client_timeout_secs,
                ),
                None => forall|i: int|
                    0 <= i < self.client_data.kseq().len() ==> !elapsed_gt(
                        (#[trigger] self.client_data.vseq()[i]).last_seen,
                        now,
                        client_timeout_secs,
                    ),
            },
    {
        let n = self.client_data.len();
        let mut i: usize = 0;
        while i < n
            invariant
                self.wf(),
                now.wf(),
                i <= n,
                n == self.client_data.kseq().len(),
                forall|j: int|
                    0 <= j < i ==> !elapsed_gt(
                        (#[trigger] self.client_data.vseq()[j]).last_seen,
                        now,
                        client_timeout_secs,
                    ),
            decreases n - i,
        {
            if self.client_data.val_at(i).last_seen.elapsed_more_than(&now, client_timeout_secs) {
                return Some(i);
            }
            i = i + 1;
        }
        None
    }

    /// The expiry sweep: every state entry whose `last_seen` lies more than
    /// `client_timeout_secs` before `now` is removed, and its connection, if
    /// any, is detached. Everything that remains was seen recently enough.
    pub fn cleanup_expired_clients(&mut self, client_timeout_secs: u64, now: Timestamp)
        requires
            old(self).wf(),
            now.wf(),
        ensures
            final(self).wf(),
            final(self).max_connections == old(self).max_connections,
            final(self).command_results == old(self).command_results,
            forall|k: Seq<char>|
                #[trigger] final(self).client_data@.contains_key(k) <==> (old(self).client_data@.contains_key(k) && !elapsed_gt(
                    old(self).client_data@[k].last_seen,
                    now,
                    client_timeout_secs,
                )),
            forall|k: Seq<char>|
                #[trigger] final(self).client_data@.contains_key(k) ==> final(self).client_data@[k] == old(self).client_data@[k],
            forall|k: Seq<char>|
                #[trigger] final(self).client_data@.contains_key(k) ==> !elapsed_gt(
                    final(self).client_data@[k].last_seen,
                    now,
                    client_timeout_secs,
                ),
            forall|k: Seq<char>|
                #[trigger] final(self).client_connections@.contains_key(k) <==> (old(self).client_connections@.contains_key(k) && !(old(self).client_data@.contains_key(k)
                    && elapsed_gt(old(self).client_data@[k].last_seen, now, client_timeout_secs))),
            forall|k: Seq<char>|
                #[trigger] final(self).client_connections@.contains_key(k) ==> final(self).client_connections@[k] == old(self).client_connections@[k],
    {
        loop
            invariant
                self.wf(),
                now.wf(),
                self.max_connections == old(self).max_connections,
                self.command_results == old(self).command_results,
                forall|k: Seq<char>|
                    #[trigger] self.client_data@.contains_key(k) ==> old(self).client_data@.contains_key(k) && self.client_data@[k] == old(self).client_data@[k],
                forall|k: Seq<char>|
                    old(self).client_data@.contains_key(k) && !elapsed_gt(
                        old(self).client_data@[k].last_seen,
                        now,
                        client_timeout_secs,
                    ) ==> #[trigger] self.client_data@.contains_key(k),
                forall|k: Seq<char>|
                    #[trigger] self.client_connections@.contains_key(k) ==> old(self).client_connections@.contains_key(k) && self.client_connections@[k] == old(self).client_connections@[k],
                forall|k: Seq<char>|
                    old(self).client_connections@.contains_key(k) && !(old(self).client_data@.contains_key(k) && elapsed_gt(
                        old(self).client_data@[k].last_seen,
                        now,
                        client_timeout_secs,
                    )) ==> #[trigger] self.client_connections@.contains_key(k),
                forall|k: Seq<char>|
                    old(self).client_data@.contains_key(k) && !(
                    #[trigger] self.client_data@.contains_key(k)) ==> !(
                    #[trigger] self.client_connections@.contains_key(k)) || !old(self).client_connections@.contains_key(k),
            decreases self.client_data.kseq().len(),
        {
            match self.find_expired_state(client_timeout_secs, now) {
                Some(i) => {
                    let ghost mid = *self;
                    let key = self.client_data.key_at(i).clone();
                    proof {
                        mid.client_data.lemma_view_at(i as int);
                    }
                    self.client_data.remove(key.as_str());
                    self.remove_client_connection(key.as_str());
                    proof {
                        assert(self.client_data.kseq().len() < mid.client_data.kseq().len());
                        assert(elapsed_gt(
                            old(self).client_data@[key@].last_seen,
                            now,
                            client_timeout_secs,
                        ));
                    }
                },
                None => {
                    proof {
                        assert forall|k: Seq<char>|
                            #[trigger] self.client_data@.contains_key(k) implies !elapsed_gt(
                            self.client_data@[k].last_seen,
                            now,
                            client_timeout_secs,
                        ) by {
                            self.client_data.lemma_contains(k);
                            let i = self.client_data.key_index(k);
                            assert(self.client_data@[k] == self.client_data.vseq()[i]);
                        }
                        assert forall|k: Seq<char>|
                            #[trigger] self.client_connections@.contains_key(k) implies (old(
                            self,
                        ).client_connections@.contains_key(k) && !(old(
                            self,
                        ).client_data@.contains_key(k) && elapsed_gt(
                            old(self).client_data@[k].last_seen,
                            now,
                            client_timeout_secs,
                        ))) by {
                            if old(self).client_data@.contains_key(k) && elapsed_gt(
                                old(self).client_data@[k].last_seen,
                                now,
                                client_timeout_secs,
                            ) {
                                if self.client_data@.contains_key(k) {
                                    assert(self.client_data@[k] == old(self).client_data@[k]);
                                    assert(!elapsed_gt(
                                        self.client_data@[k].last_seen,
                                        now,
                                        client_timeout_secs,
                                    ));
                                    assert(false);
                                }
                                assert(false);
                            }
                        }
                    }
                    return ;
                },
            }
        }
    }
}


/// Why a dispatch was refused: the policy said no, or the agent has no live
/// connection. No wire traffic results in either case.
#[derive(Debug)]
pub enum DispatchError {
    Blocked { reason: String },
    NotConnected,
}

impl<H> SharedData<H> {
    /// Gates a command through the policy, mints a command id, records it as
    /// pending and hands back the exact frame to write on the agent's
    /// connection. Succeeds exactly when the policy allows the command and
    /// the agent is connected.
    pub fn prepare_dispatch(
        &mut self,
        validator: &crate::security::CommandValidator,
        client_id: &str,
        command: &str,
        now: Timestamp,
    ) -> (r: Result<(String, String), DispatchError>)
        requires
            old(self).wf(),
            now.wf(),
        ensures
            final(self).wf(),
            final(self).max_connections == old(self).max_connections,
            final(self).connection_count == old(self).connection_count,
            final(self).client_data == old(self).client_data,
            final(self).client_connections == old(self).client_connections,
            match r {
                Ok((command_id, line)) => {
                    &&& validator.spec_validate(command@) is None
                    &&& old(self).client_connections@.contains_key(client_id@)
                    &&& command_id@.len() == 36
                    &&& line@ == crate::codec::spec_cmd_line(command_id@, command@)
                    &&& final(self).command_results.pending_commands@.contains_key(command_id@)
                    &&& final(self).command_results.pending_commands@[command_id@]@ == (
                    crate::command_results::PendingCommandV {
                        command_id: command_id@,
                        client_id: client_id@,
                        command: command@,
                        created_at: now,
                        status: crate::command_results::CommandStatusV::Pending,
                    })
                    &&& (forall|k: Seq<char>|
                        k != command_id@ ==> (
                        final(self).command_results.pending_commands@.contains_key(k) <==> old(
                            self,
                        ).command_results.pending_commands@.contains_key(k)))
                    &&& final(self).command_results.completed_results@ == old(
                        self,
                    ).command_results.completed_results@.remove(command_id@)
                },
                Err(DispatchError::Blocked { reason }) => {
                    &&& validator.spec_validate(command@) == Some(reason@)
                    &&& final(self).command_results == old(self).command_results
                },
                Err(DispatchError::NotConnected) => {
                    &&& validator.spec_validate(command@) is None
                    &&& !old(self).client_connections@.contains_key(client_id@)
                    &&& final(self).command_results == old(self).command_results
                },
            },
            r is Ok <==> (validator.spec_validate(command@) is None && old(
                self,
            ).client_connections@.contains_key(client_id@)),
    {
        match validator.validate(command) {
            crate::security::ValidationResult::Blocked { reason } => {
                return Err(DispatchError::Blocked { reason });
            },
            crate::security::ValidationResult::Allowed => {},
        }
        if !self.client_connections.contains(client_id) {
            return Err(DispatchError::NotConnected);
        }
        let command_id = self.command_results.create_command(
            String::from_str(client_id),
            String::from_str(command),
            now,
        );
        let line = crate::codec::cmd_line(command_id.as_str(), command);
        Ok((command_id, line))
    }

    /// Records that the frame for `command_id` reached the socket: the
    /// pending entry moves to `Executing`. Reports whether the id was still
    /// pending.
    pub fn finish_dispatch(&mut self, command_id: &str) -> (r: bool)
        requires
            old(self).wf(),
        ensures
            final(self).wf(),
            final(self).max_connections == old(self).max_connections,
            final(self).connection_count == old(self).connection_count,
            final(self).client_data == old(self).client_data,
            final(self).client_connections == old(self).client_connections,
            r == old(self).command_results.pending_commands@.contains_key(command_id@),
            final(self).command_results.completed_results == old(
                self,
            ).command_results.completed_results,
            final(self).command_results.pending_commands@.map_values(
                |pc: crate::command_results::PendingCommand| pc@,
            ) == crate::command_results::spec_mark_executing(
                old(self).command_results.pending_commands@.map_values(
                    |pc: crate::command_results::PendingCommand| pc@,
                ),
                command_id@,
            ),
    {
        self.command_results.mark_executing(command_id)
    }

    /// Files an agent's command response under the server's clock.
    pub fn store_command_result(&mut self, result: crate::command_results::CommandResult)
        requires
            old(self).wf(),
            result.received_at.wf(),
        ensures
            final(self).wf(),
            final(self).max_connections == old(self).max_connections,
            final(self).connection_count == old(self).connection_count,
            final(self).client_data == old(self).client_data,
            final(self).client_connections == old(self).client_connections,
            final(self).command_results.pending_commands@ == old(
                self,
            ).command_results.pending_commands@.remove(result.command_id@),
            final(self).command_results.completed_results@.contains_key(result.command_id@),
            final(self).command_results.completed_results@[result.command_id@] == result,
    {
        self.command_results.store_result(result);
    }
}

} // verus!
