//! The process controller's own logic: how a template becomes a command to
//! launch, how the output of a finished process is gathered, and the store
//! of execution records, each kept until its retention deadline and handed
//! out at most once.

use crate::procenv::{env_entry_filled, render_tokens, string_views, ProcEnv, DEFAULT_TIMEOUT_MS};
use crate::table::KeyedTable;
use std::collections::HashMap;
use vstd::prelude::*;

verus! {

/// The environment variable that carries the request identifier into every
/// spawned process.
pub const REQUEST_ID_VAR: &'static str = "REQUEST_ID";

/// The placeholder that the request body fills in a template.
pub const PAYLOAD_PLACEHOLDER: &'static str = "jsonpayload";

/// How long a record is kept past the process timeout, in milliseconds.
pub const GRACE_PERIOD_MS: u128 = 4000;

/// The timeout of a template, in milliseconds: its own, or the default.
pub open spec fn timeout_of(timeout: Option<u32>) -> u32 {
    match timeout {
        Some(t) => t,
        None => DEFAULT_TIMEOUT_MS,
    }
}

/// The timeout of a template, in milliseconds: its own, or the default.
pub fn effective_timeout(proce: &ProcEnv) -> (r: u32)
    ensures
        r == timeout_of(proce.timeout),
{
    match proce.timeout {
        Some(t) => t,
        None => DEFAULT_TIMEOUT_MS,
    }
}

/// When a record of a process started at `start_ms` stops being handed
/// out: its timeout and the grace period later, or the largest time there
/// is.
pub open spec fn deadline_of(start_ms: u128, timeout_ms: u32) -> u128 {
    let d = start_ms + timeout_ms + GRACE_PERIOD_MS;
    if d <= u128::MAX {
        d as u128
    } else {
        u128::MAX
    }
}

/// When a record of a process started at `start_ms` stops being handed
/// out.
pub fn retention_deadline(start_ms: u128, timeout_ms: u32) -> (r: u128)
    ensures
        r == deadline_of(start_ms, timeout_ms),
{
    start_ms.saturating_add(timeout_ms as u128).saturating_add(GRACE_PERIOD_MS)
}

/// Whether the watchdog killed the process: it fired before the process
/// was reaped, and its signal was delivered (the call did not answer -1).
pub fn kill_flag(watchdog_fired: bool, kill_result: i32) -> (r: bool)
    ensures
        r == (watchdog_fired && kill_result != -1),
{
    watchdog_fired && kill_result != -1
}

/// The lines joined with a line feed between each two.
pub open spec fn joined_lines(lines: Seq<Seq<char>>) -> Seq<char>
    decreases lines.len(),
{
    if lines.len() == 0 {
        Seq::<char>::empty()
    } else if lines.len() == 1 {
        lines[0]
    } else {
        joined_lines(lines.drop_last()) + "\n"@ + lines.last()
    }
}

/// The lines of an output, joined with a line feed between each two.
pub fn join_lines(lines: &Vec<String>) -> (r: String)
    ensures
        r@ == joined_lines(string_views(lines@)),
{
    let mut out = String::new();
    let ghost views = string_views(lines@);
    for i in 0..lines.len()
        invariant
            views == string_views(lines@),
            out@ == joined_lines(views.take(i as int)),
    {
        assert(views.take(i + 1).drop_last() =~= views.take(i as int));
        if i != 0 {
            out.append("\n");
        }
        out.append(lines[i].as_str());
        assert(views.take(i + 1).last() == lines@[i as int]@);
        if i == 0 {
            assert(views.take(0) =~= Seq::<Seq<char>>::empty());
            assert(out@ =~= joined_lines(views.take(1)));
        }
    }
    assert(views.take(lines@.len() as int) =~= views);
    out
}

/// A command ready to launch: the program, its arguments, and the
/// variables to set in its environment, in the order they are set.
#[derive(Debug)]
pub struct LaunchPlan {
    pub program: String,
    pub args: Vec<String>,
    pub env: Vec<(String, String)>,
    pub timeout_ms: u32,
}

/// The views of a list of environment variables.
pub open spec fn env_views(env: Seq<(String, String)>) -> Seq<(Seq<char>, Seq<char>)> {
    env.map_values(|p: (String, String)| (p.0@, p.1@))
}

/// The environment of a launch: the request identifier first, then each
/// entry of the template with its placeholders filled.
pub open spec fn launch_env(entries: Seq<Seq<char>>, values: Map<&str, &str>, request_id: Seq<char>) -> Seq<
    (Seq<char>, Seq<char>),
> {
    seq![(REQUEST_ID_VAR@, request_id)] + entries.map_values(
        |e: Seq<char>| env_entry_filled(e, values),
    )
}

impl LaunchPlan {
    /// Whether this plan is the one that `proce` gives for these
    /// placeholder values and this request: the first filled token is the
    /// program and the others its arguments.
    pub open spec fn launches(
        &self,
        proce: &ProcEnv,
        values: Map<&str, &str>,
        request_id: Seq<char>,
    ) -> bool {
        let tokens = render_tokens(proce.cmd.tokens(), values);
        &&& tokens.len() > 0
        &&& self.program@ == tokens[0]
        &&& string_views(self.args@) == tokens.drop_first()
        &&& env_views(self.env@) == launch_env(string_views(proce.env@), values, request_id)
        &&& self.timeout_ms == timeout_of(proce.timeout)
    }
}

/// The command to launch for request `request_id` with template `proce`;
/// `None` where the template has no token to run.
pub fn launch_plan(proce: &ProcEnv, placeholders: &HashMap<&str, &str>, request_id: &str) -> (r:
    Option<LaunchPlan>)
    ensures
        r is None <==> render_tokens(proce.cmd.tokens(), placeholders@).len() == 0,
        r matches Some(p) ==> p.launches(proce, placeholders@, request_id@),
{
    let mut tokens = proce.cmd_to_arr_replacements(placeholders);
    let ghost all = string_views(tokens@);
    if tokens.len() == 0 {
        return None;
    }
    let program = tokens.remove(0);
    assert(string_views(tokens@) =~= all.drop_first());
    let filled = proce.get_env_replacements(placeholders);
    let mut env: Vec<(String, String)> = Vec::new();
    env.push((REQUEST_ID_VAR.to_string(), request_id.to_string()));
    let ghost entries = string_views(proce.env@);
    for i in 0..filled.len()
        invariant
            filled@.len() == proce.env@.len(),
            entries == string_views(proce.env@),
            forall|k: int|
                0 <= k < filled@.len() ==> (filled@[k].0@, filled@[k].1@) == env_entry_filled(
                    proce.env@[k]@,
                    placeholders@,
                ),
            env_views(env@) == launch_env(entries.take(i as int), placeholders@, request_id@),
    {
        let entry = (filled[i].0.to_string(), filled[i].1.clone());
        proof {
            assert(entries.take(i + 1) =~= entries.take(i as int).push(entries[i as int]));
            assert(env_views(env@.push(entry)) =~= env_views(env@).push((entry.0@, entry.1@)));
            assert(launch_env(entries.take(i + 1), placeholders@, request_id@) =~= launch_env(
                entries.take(i as int),
                placeholders@,
                request_id@,
            ).push(env_entry_filled(entries[i as int], placeholders@)));
        }
        env.push(entry);
    }
    assert(entries.take(filled@.len() as int) =~= entries);
    Some(LaunchPlan { program, args: tokens, env, timeout_ms: effective_timeout(proce) })
}

/// What the resource usage of a finished process reports.
#[derive(Debug, Clone, Copy, PartialEq, Eq, Default)]
pub struct ResourceUsage {
    pub exit_code: Option<i32>,
    pub user_time_us: u128,
    pub system_time_us: u128,
    pub max_rss: u64,
}

/// The record of one finished process.
#[derive(Debug, Default)]
pub struct ProcessInfos {
    pub uuid: String,
    pub pid: u32,
    pub start_ms: u128,
    pub stop_ms: u128,
    pub resources: Option<ResourceUsage>,
    pub was_killed: bool,
    pub stdout: String,
    pub stderr: String,
}

/// A record with the time from which it is no longer handed out.
pub struct StoredRecord {
    pub infos: ProcessInfos,
    pub expires_ms: u128,
}

/// The records of finished processes, by request identifier.
pub struct ProcessRecordStore {
    records: KeyedTable<StoredRecord>,
}

impl View for ProcessRecordStore {
    type V = Map<Seq<char>, StoredRecord>;

    closed spec fn view(&self) -> Map<Seq<char>, StoredRecord> {
        self.records@
    }
}

/// The record that a read of `uuid` at time `now_ms` hands out: the one
/// kept for it, unless its deadline has come.
pub open spec fn readable(store: Map<Seq<char>, StoredRecord>, uuid: Seq<char>, now_ms: u128) -> bool {
    store.contains_key(uuid) && now_ms < store[uuid].expires_ms
}

impl ProcessRecordStore {
    /// The table is well formed, and each record is kept under its own
    /// identifier.
    pub closed spec fn wf(&self) -> bool {
        &&& self.records.wf()
        &&& forall|k: Seq<char>| #[trigger]
            self.records@.contains_key(k) ==> self.records@[k].infos.uuid@ == k
    }

    /// A store with no record.
    pub fn new() -> (r: Self)
        ensures
            r.wf(),
            r@ == Map::<Seq<char>, StoredRecord>::empty(),
    {
        let r = ProcessRecordStore { records: KeyedTable::new() };
        assert(forall|k: Seq<char>| !#[trigger] r.records@.contains_key(k));
        r
    }

    /// The number of records kept.
    pub fn len(&self) -> (r: usize)
        requires
            self.wf(),
        ensures
            r == self@.dom().len(),
    {
        self.records.len()
    }

    /// Keeps `infos` under its identifier until `expires_ms`, in place of
    /// any record that the identifier had.
    pub fn add_proc_infos(&mut self, infos: ProcessInfos, expires_ms: u128)
        requires
            old(self).wf(),
        ensures
            final(self).wf(),
            final(self)@ == old(self)@.insert(infos.uuid@, StoredRecord { infos, expires_ms }),
    {
        let key = infos.uuid.clone();
        self.records.insert(key, StoredRecord { infos, expires_ms });
    }

    /// Removes the record of `uuid` and hands it out, unless its deadline
    /// has come by `now_ms`; a record is handed out at most once.
    pub fn get_infos(&mut self, uuid: &str, now_ms: u128) -> (r: Option<ProcessInfos>)
        requires
            old(self).wf(),
        ensures
            final(self).wf(),
            final(self)@ == old(self)@.remove(uuid@),
            r is Some <==> readable(old(self)@, uuid@, now_ms),
            r matches Some(p) ==> p == old(self)@[uuid@].infos && p.uuid@ == uuid@,
    {
        match self.records.take(uuid) {
            Some(rec) => {
                if now_ms < rec.expires_ms {
                    Some(rec.infos)
                } else {
                    None
                }
            },
            None => None,
        }
    }

    /// Drops the record of `uuid` where its deadline has come by `now_ms`.
    pub fn purge_expired(&mut self, uuid: &str, now_ms: u128)
        requires
            old(self).wf(),
        ensures
            final(self).wf(),
            final(self)@ == (if old(self)@.contains_key(uuid@) && old(self)@[uuid@].expires_ms
                <= now_ms {
                old(self)@.remove(uuid@)
            } else {
                old(self)@
            }),
    {
        let expired = match self.records.get(uuid) {
            Some(rec) => rec.expires_ms <= now_ms,
            None => false,
        };
        if expired {
            let _ = self.records.take(uuid);
        }
    }
}

/// A record, once handed out, is not handed out again: after a read of
/// `uuid`, every later read of it finds nothing.
pub proof fn lemma_single_consumption(store: Map<Seq<char>, StoredRecord>, uuid: Seq<char>, later: u128)
    ensures
        !readable(store.remove(uuid), uuid, later),
{
}

/// A record is no longer handed out once its deadline has come, whether
/// or not it was read before.
pub proof fn lemma_retention_expiry(store: Map<Seq<char>, StoredRecord>, uuid: Seq<char>, now_ms: u128)
    requires
        store.contains_key(uuid),
        store[uuid].expires_ms <= now_ms,
    ensures
        !readable(store, uuid, now_ms),
{
}

} // verus!
