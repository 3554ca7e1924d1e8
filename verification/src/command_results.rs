//! The command lifecycle tracker: pending commands move to a bounded
//! completed store when their result arrives; every command id lives in at
//! most one of the two at any time.
use vstd::prelude::*;

verus! {

use crate::ext::new_uuid_string;
use crate::model::Timestamp;
use crate::model::elapsed_gt;
use crate::model::ts_lt;
use crate::smap::SMap;
use crate::strutil::lex_lt;
use crate::strutil::lemma_lex_lt_total;
use crate::strutil::lemma_lex_lt_trans;

/// The outcome one agent reported for one dispatched command.
#[derive(Debug)]
pub struct CommandResult {
    pub command_id: String,
    pub client_id: String,
    pub command: String,
    pub output: String,
    pub error_output: String,
    pub exit_code: i32,
    pub executed_at: Timestamp,
    pub received_at: Timestamp,
}

pub ghost struct CommandResultV {
    pub command_id: Seq<char>,
    pub client_id: Seq<char>,
    pub command: Seq<char>,
    pub output: Seq<char>,
    pub error_output: Seq<char>,
    pub exit_code: i32,
    pub executed_at: Timestamp,
    pub received_at: Timestamp,
}

impl View for CommandResult {
    type V = CommandResultV;

    open spec fn view(&self) -> CommandResultV {
        CommandResultV {
            command_id: self.command_id@,
            client_id: self.client_id@,
            command: self.command@,
            output: self.output@,
            error_output: self.error_output@,
            exit_code: self.exit_code,
            executed_at: self.executed_at,
            received_at: self.received_at,
        }
    }
}

impl Clone for CommandResult {
    fn clone(&self) -> (r: Self)
        ensures
            r@ == self@,
    {
        CommandResult {
            command_id: self.command_id.clone(),
            client_id: self.client_id.clone(),
            command: self.command.clone(),
            output: self.output.clone(),
            error_output: self.error_output.clone(),
            exit_code: self.exit_code,
            executed_at: self.executed_at,
            received_at: self.received_at,
        }
    }
}

/// Where a command stands in its lifecycle.
#[derive(Debug)]
pub enum CommandStatus {
    Pending,
    Executing,
    Completed(CommandResult),
    Failed(String),
    Timeout,
}

pub ghost enum CommandStatusV {
    Pending,
    Executing,
    Completed(CommandResultV),
    Failed(Seq<char>),
    Timeout,
}

impl View for CommandStatus {
    type V = CommandStatusV;

    open spec fn view(&self) -> CommandStatusV {
        match self {
            CommandStatus::Pending => CommandStatusV::Pending,
            CommandStatus::Executing => CommandStatusV::Executing,
            CommandStatus::Completed(r) => CommandStatusV::Completed(r@),
            CommandStatus::Failed(m) => CommandStatusV::Failed(m@),
            CommandStatus::Timeout => CommandStatusV::Timeout,
        }
    }
}

impl Clone for CommandStatus {
    fn clone(&self) -> (r: Self)
        ensures
            r@ == self@,
    {
        match self {
            CommandStatus::Pending => CommandStatus::Pending,
            CommandStatus::Executing => CommandStatus::Executing,
            CommandStatus::Completed(res) => CommandStatus::Completed(res.clone()),
            CommandStatus::Failed(m) => CommandStatus::Failed(m.clone()),
            CommandStatus::Timeout => CommandStatus::Timeout,
        }
    }
}

/// One issued command that has not completed yet.
#[derive(Debug)]
pub struct PendingCommand {
    pub command_id: String,
    pub client_id: String,
    pub command: String,
    pub created_at: Timestamp,
    pub status: CommandStatus,
}

pub ghost struct PendingCommandV {
    pub command_id: Seq<char>,
    pub client_id: Seq<char>,
    pub command: Seq<char>,
    pub created_at: Timestamp,
    pub status: CommandStatusV,
}

impl View for PendingCommand {
    type V = PendingCommandV;

    open spec fn view(&self) -> PendingCommandV {
        PendingCommandV {
            command_id: self.command_id@,
            client_id: self.client_id@,
            command: self.command@,
            created_at: self.created_at,
            status: self.status@,
        }
    }
}

impl Clone for PendingCommand {
    fn clone(&self) -> (r: Self)
        ensures
            r@ == self@,
    {
        PendingCommand {
            command_id: self.command_id.clone(),
            client_id: self.client_id.clone(),
            command: self.command.clone(),
            created_at: self.created_at,
            status: self.status.clone(),
        }
    }
}

/// Eviction order on completed results: strictly older `received_at` first,
/// command id as the lexicographic tie-break.
pub open spec fn evict_before(a: CommandResultV, b: CommandResultV) -> bool {
    ts_lt(a.received_at, b.received_at) || (a.received_at == b.received_at && lex_lt(
        a.command_id,
        b.command_id,
    ))
}

/// Two results with distinct ids and well-formed stamps are strictly ordered.
pub proof fn lemma_evict_total(a: CommandResultV, b: CommandResultV)
    requires
        a.command_id != b.command_id,
        a.received_at.wf(),
        b.received_at.wf(),
    ensures
        evict_before(a, b) || evict_before(b, a),
{
    if !ts_lt(a.received_at, b.received_at) && !ts_lt(b.received_at, a.received_at) {
        let x = a.received_at;
        let y = b.received_at;
        assert(x.secs * 1_000_000_000 + x.nanos == y.secs * 1_000_000_000 + y.nanos);
        assert(x.secs == y.secs && x.nanos == y.nanos) by {
            if x.secs < y.secs {
                assert(x.secs * 1_000_000_000 + 1_000_000_000 <= y.secs * 1_000_000_000)
                    by (nonlinear_arith)
                    requires
                        x.secs < y.secs,
                ;
            }
            if y.secs < x.secs {
                assert(y.secs * 1_000_000_000 + 1_000_000_000 <= x.secs * 1_000_000_000)
                    by (nonlinear_arith)
                    requires
                        y.secs < x.secs,
                ;
            }
        }
        assert(x == y);
        lemma_lex_lt_total(a.command_id, b.command_id);
    }
}

pub proof fn lemma_evict_trans(a: CommandResultV, b: CommandResultV, c: CommandResultV)
    requires
        evict_before(a, b),
        evict_before(b, c),
    ensures
        evict_before(a, c),
{
    if a.received_at == b.received_at && b.received_at == c.received_at {
        lemma_lex_lt_trans(a.command_id, b.command_id, c.command_id);
    }
}

/// The completed results of one client, in store order.
pub open spec fn filter_client(s: Seq<CommandResultV>, cid: Seq<char>) -> Seq<CommandResultV>
    decreases s.len(),
{
    if s.len() == 0 {
        Seq::empty()
    } else {
        let rest = filter_client(s.drop_last(), cid);
        if s.last().client_id == cid {
            rest.push(s.last())
        } else {
            rest
        }
    }
}

/// Insertion into a descending run: the new element goes in front of the
/// first strictly older one, so equal stamps keep their earlier order.
pub open spec fn insert_desc(s: Seq<CommandResultV>, x: CommandResultV) -> Seq<CommandResultV>
    decreases s.len(),
{
    if s.len() == 0 {
        seq![x]
    } else if ts_lt(s[0].received_at, x.received_at) {
        seq![x] + s
    } else {
        seq![s[0]] + insert_desc(s.drop_first(), x)
    }
}

/// Stable insertion sort by `received_at`, newest first.
pub open spec fn sort_desc(s: Seq<CommandResultV>) -> Seq<CommandResultV>
    decreases s.len(),
{
    if s.len() == 0 {
        Seq::empty()
    } else {
        insert_desc(sort_desc(s.drop_last()), s.last())
    }
}

/// Marking a command as executing: the entry keeps everything but its
/// status; a missing id changes nothing.
pub open spec fn spec_mark_executing(m: Map<Seq<char>, PendingCommandV>, id: Seq<char>) -> Map<
    Seq<char>,
    PendingCommandV,
> {
    if m.contains_key(id) {
        m.insert(id, PendingCommandV { status: CommandStatusV::Executing, ..m[id] })
    } else {
        m
    }
}

/// Marking a command as executing twice is the same as marking it once.
pub proof fn lemma_mark_executing_idempotent(m: Map<Seq<char>, PendingCommandV>, id: Seq<char>)
    ensures
        spec_mark_executing(spec_mark_executing(m, id), id) == spec_mark_executing(m, id),
{
    if m.contains_key(id) {
        assert(spec_mark_executing(spec_mark_executing(m, id), id) =~= spec_mark_executing(m, id));
    }
}

/// Storing a result twice under one command id leaves a single completed
/// entry holding the last value: the second insert overwrites the first and
/// adds no key. `store_result` ends in exactly such an insert.
pub proof fn lemma_store_twice_last_wins(
    m: Map<Seq<char>, CommandResult>,
    k: Seq<char>,
    v1: CommandResult,
    v2: CommandResult,
)
    ensures
        m.insert(k, v1).insert(k, v2) == m.insert(k, v2),
        m.insert(k, v1).insert(k, v2).dom() == m.insert(k, v2).dom(),
{
    assert(m.insert(k, v1).insert(k, v2) =~= m.insert(k, v2));
}

/// Lifecycle store for issued commands: `pending` holds what was issued and
/// not yet answered, `completed` the most recent `max_results` answers.
pub struct CommandResultsManager {
    pub pending_commands: SMap<PendingCommand>,
    pub completed_results: SMap<CommandResult>,
    pub max_results: usize,
}

impl CommandResultsManager {
    /// Every id keyed correctly, kept in at most one store, the completed
    /// store bounded, and every stamp well formed.
    pub open spec fn wf(self) -> bool {
        &&& self.pending_commands.wf()
        &&& self.completed_results.wf()
        &&& self.max_results >= 1
        &&& self.completed_results.kseq().len() <= self.max_results
        &&& forall|id: Seq<char>|
            !(self.pending_commands.spec_contains(id)
                && self.completed_results.spec_contains(id))
        &&& forall|i: int|
            0 <= i < self.pending_commands.kseq().len() ==> self.pending_commands.kseq()[i] == (
            #[trigger] self.pending_commands.vseq()[i])@.command_id
        &&& forall|i: int|
            0 <= i < self.completed_results.kseq().len() ==> self.completed_results.kseq()[i] == (
            #[trigger] self.completed_results.vseq()[i])@.command_id
        &&& forall|i: int|
            0 <= i < self.pending_commands.vseq().len() ==> (
            #[trigger] self.pending_commands.vseq()[i]).created_at.wf()
        &&& forall|i: int|
            0 <= i < self.completed_results.vseq().len() ==> (
            #[trigger] self.completed_results.vseq()[i]).received_at.wf()
    }

    /// Every command id appears in at most one of pending and completed.
    pub proof fn lemma_in_at_most_one_store(self, id: Seq<char>)
        requires
            self.wf(),
        ensures
            !(self.pending_commands@.contains_key(id) && self.completed_results@.contains_key(id)),
    {
        self.pending_commands.lemma_contains(id);
        self.completed_results.lemma_contains(id);
    }

    /// The completed store never outgrows `max_results`.
    pub proof fn lemma_completed_bounded(self)
        requires
            self.wf(),
        ensures
            self.completed_results@.dom().finite(),
            self.completed_results@.dom().len() <= self.max_results,
    {
        self.completed_results.lemma_len();
    }

    pub fn new(max_results: usize) -> (r: CommandResultsManager)
        requires
            max_results >= 1,
        ensures
            r.wf(),
            r.max_results == max_results,
            r.pending_commands@ == Map::<Seq<char>, PendingCommand>::empty(),
            r.completed_results@ == Map::<Seq<char>, CommandResult>::empty(),
    {
        CommandResultsManager {
            pending_commands: SMap::new(),
            completed_results: SMap::new(),
            max_results,
        }
    }

    /// Mints a fresh command id and records the request as pending.
    pub fn create_command(&mut self, client_id: String, command: String, now: Timestamp) -> (r:
        String)
        requires
            old(self).wf(),
            now.wf(),
        ensures
            final(self).wf(),
            r@.len() == 36,
            final(self).max_results == old(self).max_results,
            final(self).completed_results@ == old(self).completed_results@.remove(r@),
            final(self).pending_commands@.contains_key(r@),
            final(self).pending_commands@[r@]@ == (PendingCommandV {
                command_id: r@,
                client_id: client_id@,
                command: command@,
                created_at: now,
                status: CommandStatusV::Pending,
            }),
            forall|k: Seq<char>|
                k != r@ ==> (final(self).pending_commands@.contains_key(k) <==> old(self).pending_commands@.contains_key(k)),
            forall|k: Seq<char>|
                k != r@ && old(self).pending_commands@.contains_key(k) ==> final(self).pending_commands@[k] == old(self).pending_commands@[k],
    {
        let command_id = new_uuid_string();
        let key = command_id.clone();
        let ret = command_id.clone();
        let pending_command = PendingCommand {
            command_id,
            client_id,
            command,
            created_at: now,
            status: CommandStatus::Pending,
        };
        self.completed_results.remove(key.as_str());
        let ghost mid = *self;
        self.pending_commands.insert(key, pending_command);
        proof {
            let ghost post = *self;
            assert(post.wf()) by {
                assert forall|id: Seq<char>|
                    post.pending_commands.spec_contains(id) implies !post
                    .completed_results.spec_contains(id) by {
                    mid.pending_commands.lemma_contains(id);
                    mid.completed_results.lemma_contains(id);
                    post.completed_results.lemma_contains(id);
                    post.pending_commands.lemma_contains(id);
                    if id != key@ {
                        assert(old(self).pending_commands.spec_contains(id) ==> !old(self).completed_results.spec_contains(id));
                    }
                }
                post.completed_results.lemma_len();
                mid.completed_results.lemma_len();
            }
            post.pending_commands.lemma_contains(key@);
        }
        ret
    }

    /// Moves a pending command to `Executing`; reports whether it was there.
    pub fn mark_executing(&mut self, command_id: &str) -> (r: bool)
        requires
            old(self).wf(),
        ensures
            final(self).wf(),
            final(self).max_results == old(self).max_results,
            r == old(self).pending_commands@.contains_key(command_id@),
            final(self).completed_results == old(self).completed_results,
            final(self).pending_commands@.map_values(|pc: PendingCommand| pc@)
                == spec_mark_executing(
                old(self).pending_commands@.map_values(|pc: PendingCommand| pc@),
                command_id@,
            ),
    {
        let ghost pre = *self;
        match self.pending_commands.find(command_id) {
            Some(i) => {
                proof {
                    pre.pending_commands.lemma_contains(command_id@);
                }
                let updated = PendingCommand {
                    command_id: self.pending_commands.val_at(i).command_id.clone(),
                    client_id: self.pending_commands.val_at(i).client_id.clone(),
                    command: self.pending_commands.val_at(i).command.clone(),
                    created_at: self.pending_commands.val_at(i).created_at,
                    status: CommandStatus::Executing,
                };
                self.pending_commands.insert(String::from_str(command_id), updated);
                proof {
                    let ghost post = *self;
                    assert(post.wf()) by {
                        assert forall|id: Seq<char>|
                            post.pending_commands.spec_contains(id) implies !post
                            .completed_results.spec_contains(id) by {
                            pre.pending_commands.lemma_contains(id);
                        }
                    }
                    assert(post.pending_commands@.map_values(|pc: PendingCommand| pc@)
                        =~= spec_mark_executing(
                        pre.pending_commands@.map_values(|pc: PendingCommand| pc@),
                        command_id@,
                    ));
                }
                true
            },
            None => {
                proof {
                    pre.pending_commands.lemma_contains(command_id@);
                    assert(self.pending_commands@.map_values(|pc: PendingCommand| pc@)
                        =~= spec_mark_executing(
                        pre.pending_commands@.map_values(|pc: PendingCommand| pc@),
                        command_id@,
                    ));
                }
                false
            },
        }
    }

    /// The position of the completed entry that eviction would take: the
    /// oldest `received_at`, ties broken by the smaller command id.
    fn oldest_completed_index(&self) -> (r: usize)
        requires
            self.wf(),
            self.completed_results.kseq().len() > 0,
        ensures
            r < self.completed_results.kseq().len(),
            forall|j: int|
                0 <= j < self.completed_results.kseq().len() && j != r ==> evict_before(
                    (#[trigger] self.completed_results.vseq()[j])@,
                    self.completed_results.vseq()[r as int]@,
                ) == false,
            forall|j: int|
                0 <= j < self.completed_results.kseq().len() && j != r ==> evict_before(
                    self.completed_results.vseq()[r as int]@,
                    (#[trigger] self.completed_results.vseq()[j])@,
                ),
    {
        let n = self.completed_results.len();
        let mut best: usize = 0;
        let mut i: usize = 1;
        while i < n
            invariant
                self.wf(),
                n == self.completed_results.kseq().len(),
                best < i,
                1 <= i <= n,
                forall|j: int|
                    0 <= j < i && j != best ==> evict_before(
                        self.completed_results.vseq()[best as int]@,
                        (#[trigger] self.completed_results.vseq()[j])@,
                    ),
            decreases n - i,
        {
            let vi = self.completed_results.val_at(i);
            let vb = self.completed_results.val_at(best);
            let takes = if vi.received_at.before(&vb.received_at) {
                true
            } else if vb.received_at.before(&vi.received_at) {
                false
            } else {
                crate::strutil::str_lex_lt(vi.command_id.as_str(), vb.command_id.as_str())
            };
            proof {
                let a = self.completed_results.vseq()[i as int]@;
                let b = self.completed_results.vseq()[best as int]@;
                assert(a.command_id != b.command_id) by {
                    assert(self.completed_results.kseq()[i as int]
                        != self.completed_results.kseq()[best as int]);
                }
                lemma_evict_total(a, b);
                if takes {
                    assert(evict_before(a, b));
                    assert forall|j: int| 0 <= j < i + 1 && j != i implies evict_before(
                        a,
                        (#[trigger] self.completed_results.vseq()[j])@,
                    ) by {
                        if j != best as int {
                            lemma_evict_trans(
                                a,
                                b,
                                self.completed_results.vseq()[j]@,
                            );
                        }
                    }
                } else {
                    assert(evict_before(b, a));
                }
            }
            if takes {
                best = i;
            }
            i = i + 1;
        }
        proof {
            assert forall|j: int|
                0 <= j < self.completed_results.kseq().len() && j != best implies evict_before(
                (#[trigger] self.completed_results.vseq()[j])@,
                self.completed_results.vseq()[best as int]@,
            ) == false by {
                let a = self.completed_results.vseq()[best as int]@;
                let b = self.completed_results.vseq()[j]@;
                assert(evict_before(a, b));
                if evict_before(b, a) {
                    lemma_evict_trans(a, b, a);
                    crate::strutil::lemma_lex_lt_irrefl(a.command_id);
                    assert(false);
                }
            }
        }
        best
    }

    /// Files an agent's answer: the id leaves pending; when the completed
    /// store is full its oldest entry is evicted; the answer is stored.
    pub fn store_result(&mut self, result: CommandResult)
        requires
            old(self).wf(),
            result.received_at.wf(),
        ensures
            final(self).wf(),
            final(self).max_results == old(self).max_results,
            final(self).pending_commands@ == old(self).pending_commands@.remove(
                result.command_id@,
            ),
            final(self).completed_results@.contains_key(result.command_id@),
            final(self).completed_results@[result.command_id@] == result,
            old(self).completed_results.kseq().len() < old(self).max_results ==> final(self).completed_results@ == old(self).completed_results@.insert(result.command_id@, result),
            old(self).completed_results.kseq().len() >= old(self).max_results ==> exists|i: int|
                {
                    &&& 0 <= i < old(self).completed_results.kseq().len()
                    &&& (forall|j: int|
                        0 <= j < old(self).completed_results.kseq().len() && j != i
                            ==> evict_before(
                            (#[trigger] old(self).completed_results.vseq()[i])@,
                            old(self).completed_results.vseq()[j]@,
                        ))
                    &&& final(self).completed_results@ == old(self).completed_results@.remove(
                        old(self).completed_results.kseq()[i],
                    ).insert(result.command_id@, result)
                },
    {
        let ghost pre = *self;
        self.pending_commands.remove(result.command_id.as_str());
        let ghost mid1 = *self;
        let evicted = self.completed_results.len() >= self.max_results;
        let ghost oldn = self.completed_results.kseq().len();
        if evicted {
            let i = self.oldest_completed_index();
            let key = self.completed_results.key_at(i).clone();
            self.completed_results.remove(key.as_str());
            proof {
                let ghost mid2 = *self;
                mid1.completed_results.lemma_contains(key@);
                assert(mid1.completed_results.key_index(key@) == i as int) by {
                    let ii = mid1.completed_results.key_index(key@);
                    assert(mid1.completed_results.kseq()[ii] == key@);
                    if ii != i as int {
                        assert(mid1.completed_results.kseq()[ii]
                            != mid1.completed_results.kseq()[i as int]);
                    }
                }
                assert(mid2.completed_results.kseq().len() == oldn - 1);
            }
        }
        let ghost mid3 = *self;
        let key2 = result.command_id.clone();
        self.completed_results.insert(key2, result);
        proof {
            let ghost post = *self;
            mid3.completed_results.lemma_contains(result.command_id@);
            assert(post.completed_results.kseq().len() <= post.max_results);
            assert(post.wf()) by {
                assert forall|id: Seq<char>|
                    post.pending_commands.spec_contains(id) implies !post
                    .completed_results.spec_contains(id) by {
                    pre.pending_commands.lemma_contains(id);
                    mid1.pending_commands.lemma_contains(id);
                    pre.completed_results.lemma_contains(id);
                }
            }
            post.completed_results.lemma_contains(result.command_id@);
            if evicted {
                let i = choose|i: int|
                    0 <= i < pre.completed_results.kseq().len()
                        && mid3.completed_results.kseq() == pre.completed_results.kseq().remove(i)
                        && mid3.completed_results.vseq() == pre.completed_results.vseq().remove(i)
                        && (forall|j: int|
                        0 <= j < pre.completed_results.kseq().len() && j != i ==> evict_before(
                            (#[trigger] pre.completed_results.vseq()[i])@,
                            pre.completed_results.vseq()[j]@,
                        ));
                assert(final(self).completed_results@ == pre.completed_results@.remove(
                    pre.completed_results.kseq()[i],
                ).insert(result.command_id@, result));
            }
        }
    }

    /// The completed result for a command id, when one is stored.
    pub fn get_result(&self, command_id: &str) -> (r: Option<CommandResult>)
        requires
            self.wf(),
        ensures
            match r {
                Some(res) => self.completed_results@.contains_key(command_id@) && res@
                    == self.completed_results@[command_id@]@,
                None => !self.completed_results@.contains_key(command_id@),
            },
    {
        match self.completed_results.get(command_id) {
            Some(res) => Some(res.clone()),
            None => None,
        }
    }

    /// Where a command stands: its pending status first, else its completed
    /// result, else nothing is known of the id.
    pub fn get_command_status(&self, command_id: &str) -> (r: Option<CommandStatus>)
        requires
            self.wf(),
        ensures
            match r {
                Some(st) => if self.pending_commands@.contains_key(command_id@) {
                    st@ == self.pending_commands@[command_id@]@.status
                } else {
                    self.completed_results@.contains_key(command_id@) && st@
                        == CommandStatusV::Completed(self.completed_results@[command_id@]@)
                },
                None => !self.pending_commands@.contains_key(command_id@)
                    && !self.completed_results@.contains_key(command_id@),
            },
    {
        match self.pending_commands.get(command_id) {
            Some(cmd) => Some(cmd.status.clone()),
            None => match self.completed_results.get(command_id) {
                Some(res) => Some(CommandStatus::Completed(res.clone())),
                None => None,
            },
        }
    }

    /// How many commands are pending and how many results are stored.
    pub fn get_stats(&self) -> (r: (usize, usize))
        requires
            self.wf(),
        ensures
            r.0 == self.pending_commands.kseq().len(),
            r.1 == self.completed_results.kseq().len(),
    {
        (self.pending_commands.len(), self.completed_results.len())
    }

    /// The views of the stored completed results, in store order.
    pub open spec fn completed_views(self) -> Seq<CommandResultV> {
        self.completed_results.vseq().map_values(|c: CommandResult| c@)
    }

    /// A client's completed results, newest `received_at` first (ties keep
    /// store order), truncated to `limit`.
    pub fn get_client_results(&self, client_id: &str, limit: usize) -> (r: Vec<CommandResult>)
        requires
            self.wf(),
        ensures
            ({
                let sorted = sort_desc(filter_client(self.completed_views(), client_id@));
                r@.map_values(|c: CommandResult| c@) == sorted.take(
                    if limit <= sorted.len() {
                        limit as int
                    } else {
                        sorted.len() as int
                    },
                )
            }),
    {
        let ghost fseq = self.completed_views();
        let n = self.completed_results.len();
        let mut found: Vec<CommandResult> = Vec::new();
        let mut i: usize = 0;
        proof {
            assert(fseq.take(0) =~= Seq::<CommandResultV>::empty());
        }
        while i < n
            invariant
                self.wf(),
                i <= n,
                n == self.completed_results.kseq().len(),
                fseq == self.completed_views(),
                found@.map_values(|c: CommandResult| c@) == filter_client(
                    fseq.take(i as int),
                    client_id@,
                ),
                forall|j: int|
                    0 <= j < found@.len() ==> (#[trigger] found@[j]).received_at.wf(),
            decreases n - i,
        {
            let v = self.completed_results.val_at(i);
            let ghost prevf = found@.map_values(|c: CommandResult| c@);
            proof {
                assert(fseq.take(i as int + 1).drop_last() =~= fseq.take(i as int));
                assert(fseq.take(i as int + 1).last() == fseq[i as int]);
            }
            if crate::strutil::str_eq(v.client_id.as_str(), client_id) {
                found.push(v.clone());
                proof {
                    assert(found@.map_values(|c: CommandResult| c@) =~= prevf.push(
                        fseq[i as int],
                    ));
                }
            }
            i = i + 1;
        }
        proof {
            assert(fseq.take(n as int) =~= fseq);
        }
        let ghost mseq = found@.map_values(|c: CommandResult| c@);
        let m = found.len();
        let mut sorted: Vec<CommandResult> = Vec::new();
        let mut k: usize = 0;
        proof {
            assert(mseq.take(0) =~= Seq::<CommandResultV>::empty());
        }
        while k < m
            invariant
                k <= m,
                m == found@.len(),
                mseq == found@.map_values(|c: CommandResult| c@),
                sorted@.map_values(|c: CommandResult| c@) == sort_desc(mseq.take(k as int)),
                forall|j: int|
                    0 <= j < found@.len() ==> (#[trigger] found@[j]).received_at.wf(),
                forall|j: int|
                    0 <= j < sorted@.len() ==> (#[trigger] sorted@[j]).received_at.wf(),
            decreases m - k,
        {
            proof {
                assert(mseq.take(k as int + 1).drop_last() =~= mseq.take(k as int));
                assert(mseq.take(k as int + 1).last() == mseq[k as int]);
            }
            insert_sorted(&mut sorted, found[k].clone());
            k = k + 1;
        }
        proof {
            assert(mseq.take(m as int) =~= mseq);
        }
        let ghost ssorted = sort_desc(filter_client(fseq, client_id@));
        sorted.truncate(limit);
        proof {
            let lim: int = if limit <= ssorted.len() {
                limit as int
            } else {
                ssorted.len() as int
            };
            assert(sorted@.map_values(|c: CommandResult| c@) =~= ssorted.take(lim));
        }
        sorted
    }

    /// The position of some pending command older than `timeout_secs`.
    fn find_expired(&self, timeout_secs: u64, now: Timestamp) -> (r: Option<usize>)
        requires
            self.wf(),
            now.wf(),
        ensures
            match r {
                Some(i) => i < self.pending_commands.kseq().len() && elapsed_gt(
                    self.pending_commands.vseq()[i as int].created_at,
                    now,
                    timeout_secs,
                ),
                None => forall|i: int|
                    0 <= i < self.pending_commands.kseq().len() ==> !elapsed_gt(
                        (#[trigger] self.pending_commands.vseq()[i]).created_at,
                        now,
                        timeout_secs,
                    ),
            },
    {
        let n = self.pending_commands.len();
        let mut i: usize = 0;
        while i < n
            invariant
                self.wf(),
                now.wf(),
                i <= n,
                n == self.pending_commands.kseq().len(),
                forall|j: int|
                    0 <= j < i ==> !elapsed_gt(
                        (#[trigger] self.pending_commands.vseq()[j]).created_at,
                        now,
                        timeout_secs,
                    ),
            decreases n - i,
        {
            if self.pending_commands.val_at(i).created_at.elapsed_more_than(&now, timeout_secs) {
                return Some(i);
            }
            i = i + 1;
        }
        None
    }

    /// Removes every pending command issued more than `timeout_secs` before
    /// `now`; everything younger stays untouched, and the completed store is
    /// not read.
    pub fn cleanup_expired_commands(&mut self, timeout_secs: u64, now: Timestamp)
        requires
            old(self).wf(),
            now.wf(),
        ensures
            final(self).wf(),
            final(self).max_results == old(self).max_results,
            final(self).completed_results == old(self).completed_results,
            forall|k: Seq<char>|
                #[trigger] final(self).pending_commands@.contains_key(k) <==> (old(self).pending_commands@.contains_key(k) && !elapsed_gt(
                    old(self).pending_commands@[k].created_at,
                    now,
                    timeout_secs,
                )),
            forall|k: Seq<char>|
                #[trigger] final(self).pending_commands@.contains_key(k) ==> final(self).pending_commands@[k] == old(self).pending_commands@[k],
    {
        loop
            invariant
                self.wf(),
                now.wf(),
                self.max_results == old(self).max_results,
                self.completed_results == old(self).completed_results,
                forall|k: Seq<char>|
                    #[trigger] self.pending_commands@.contains_key(k)
                        ==> old(self).pending_commands@.contains_key(k)
                        && self.pending_commands@[k] == old(self).pending_commands@[k],
                forall|k: Seq<char>|
                    old(self).pending_commands@.contains_key(k) && !elapsed_gt(
                        old(self).pending_commands@[k].created_at,
                        now,
                        timeout_secs,
                    ) ==> #[trigger] self.pending_commands@.contains_key(k),
            decreases self.pending_commands.kseq().len(),
        {
            match self.find_expired(timeout_secs, now) {
                Some(i) => {
                    let ghost mid = *self;
                    let key = self.pending_commands.key_at(i).clone();
                    proof {
                        mid.pending_commands.lemma_view_at(i as int);
                    }
                    self.pending_commands.remove(key.as_str());
                    proof {
                        assert(self.pending_commands.kseq().len()
                            < mid.pending_commands.kseq().len());
                        assert forall|k: Seq<char>|
                            old(self).pending_commands@.contains_key(k) && !elapsed_gt(
                                old(self).pending_commands@[k].created_at,
                                now,
                                timeout_secs,
                            ) implies #[trigger] self.pending_commands@.contains_key(k) by {
                            if k == key@ {
                                assert(mid.pending_commands@[key@]
                                    == mid.pending_commands.vseq()[i as int]);
                                assert(elapsed_gt(
                                    old(self).pending_commands@[k].created_at,
                                    now,
                                    timeout_secs,
                                ));
                            }
                        }
                    }
                },
                None => {
                    proof {
                        assert forall|k: Seq<char>|
                            #[trigger] self.pending_commands@.contains_key(k) implies !elapsed_gt(
                            self.pending_commands@[k].created_at,
                            now,
                            timeout_secs,
                        ) by {
                            self.pending_commands.lemma_contains(k);
                            let i = self.pending_commands.key_index(k);
                            assert(self.pending_commands@[k]
                                == self.pending_commands.vseq()[i]);
                        }
                    }
                    return ;
                },
            }
        }
    }
}


/// The position of the first entry strictly older than `x`, or the length.
fn find_insert_pos(v: &Vec<CommandResult>, x: &CommandResult) -> (r: usize)
    requires
        x.received_at.wf(),
        forall|j: int| 0 <= j < v@.len() ==> (#[trigger] v@[j]).received_at.wf(),
    ensures
        r <= v@.len(),
        forall|k: int|
            0 <= k < r ==> !ts_lt((#[trigger] v@[k])@.received_at, x@.received_at),
        r < v@.len() ==> ts_lt(v@[r as int]@.received_at, x@.received_at),
{
    let n = v.len();
    let mut j: usize = 0;
    while j < n
        invariant
            j <= n,
            n == v@.len(),
            x.received_at.wf(),
            forall|k: int| 0 <= k < v@.len() ==> (#[trigger] v@[k]).received_at.wf(),
            forall|k: int| 0 <= k < j ==> !ts_lt((#[trigger] v@[k])@.received_at, x@.received_at),
        decreases n - j,
    {
        if v[j].received_at.before(&x.received_at) {
            return j;
        }
        j = j + 1;
    }
    n
}

/// Inserts `x` into a descending run just before the first strictly older
/// entry, matching `insert_desc`.
fn insert_sorted(v: &mut Vec<CommandResult>, x: CommandResult)
    requires
        x.received_at.wf(),
        forall|j: int| 0 <= j < old(v)@.len() ==> (#[trigger] old(v)@[j]).received_at.wf(),
    ensures
        final(v)@.map_values(|c: CommandResult| c@) == insert_desc(
            old(v)@.map_values(|c: CommandResult| c@),
            x@,
        ),
        forall|j: int| 0 <= j < final(v)@.len() ==> (#[trigger] final(v)@[j]).received_at.wf(),
{
    let ghost s = v@.map_values(|c: CommandResult| c@);
    let j = find_insert_pos(v, &x);
    proof {
        lemma_insert_desc_at(s, x@, j as int);
    }
    let ghost pre = v@;
    v.insert(j, x);
    proof {
        assert(final(v)@.map_values(|c: CommandResult| c@) =~= s.take(j as int) + seq![x@]
            + s.skip(j as int)) by {
            assert(final(v)@ == pre.insert(j as int, x));
            assert forall|k: int|
                0 <= k < final(v)@.len() implies final(v)@.map_values(|c: CommandResult| c@)[k]
                == (s.take(j as int) + seq![x@] + s.skip(j as int))[k] by {
                if k < j as int {
                    assert(final(v)@[k] == pre[k]);
                } else if k == j as int {
                    assert(final(v)@[k] == x);
                } else {
                    assert(final(v)@[k] == pre[k - 1]);
                }
            }
        }
        assert forall|k: int|
            0 <= k < final(v)@.len() implies (#[trigger] final(v)@[k]).received_at.wf() by {
            if k < j as int {
                assert(final(v)@[k] == pre[k]);
            } else if k == j as int {
                assert(final(v)@[k] == x);
            } else {
                assert(final(v)@[k] == pre[k - 1]);
            }
        }
    }
}

/// Where the first strictly older entry sits is where `insert_desc` puts
/// the new element.
proof fn lemma_insert_desc_at(s: Seq<CommandResultV>, x: CommandResultV, j: int)
    requires
        0 <= j <= s.len(),
        forall|k: int| 0 <= k < j ==> !ts_lt((#[trigger] s[k]).received_at, x.received_at),
        j < s.len() ==> ts_lt(s[j].received_at, x.received_at),
    ensures
        insert_desc(s, x) == s.take(j) + seq![x] + s.skip(j),
    decreases j,
{
    if s.len() == 0 {
        assert(insert_desc(s, x) =~= s.take(0) + seq![x] + s.skip(0));
    } else if ts_lt(s[0].received_at, x.received_at) {
        assert(j == 0);
        assert(insert_desc(s, x) =~= s.take(0) + seq![x] + s.skip(0));
    } else {
        assert(j >= 1);
        let d = s.drop_first();
        assert forall|k: int| 0 <= k < j - 1 implies !ts_lt(
            (#[trigger] d[k]).received_at,
            x.received_at,
        ) by {
            assert(d[k] == s[k + 1]);
        }
        if j - 1 < d.len() {
            assert(d[j - 1] == s[j]);
        }
        lemma_insert_desc_at(d, x, j - 1);
        assert(insert_desc(s, x) == seq![s[0]] + (d.take(j - 1) + seq![x] + d.skip(j - 1)));
        assert(insert_desc(s, x) =~= s.take(j) + seq![x] + s.skip(j)) by {
            assert forall|k: int|
                0 <= k < insert_desc(s, x).len() implies insert_desc(s, x)[k] == (s.take(j)
                + seq![x] + s.skip(j))[k] by {
                if k >= 1 {
                    assert(insert_desc(s, x)[k] == (d.take(j - 1) + seq![x] + d.skip(j - 1))[k
                        - 1]);
                    if k < j {
                        assert(d.take(j - 1)[k - 1] == s[k]);
                    } else if k > j {
                        assert(d.skip(j - 1)[k - 1 - j] == s[k - 1]);
                    }
                }
            }
        }
    }
}

} // verus!
