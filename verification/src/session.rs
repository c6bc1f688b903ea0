//! The messaging-session side of the bridge: the persisted session
//! record, the resynchronization state machine whose cursor handling
//! keeps restarts exact, the chat-command trigger, the watched-room
//! list, and the weekly schedule arithmetic.
//!
//! All I/O — logging in, syncing, reading and writing the record —
//! happens outside the library; the functions here decide, from plain
//! values, what that outer loop must do next.

use crate::time::{date_day_number, ts_seconds, ts_valid, weekday_from_monday, Timestamp};
use crate::util::{chars_eq_str, push_char, str_eq, to_chars};
use rand::Rng;
use vstd::prelude::*;
use vstd::string::StringExecFns;

verus! {

/// Login data for the messaging homeserver.
pub struct MatrixCredentials {
    pub username: String,
    pub password: String,
    pub homeserver: String,
}

/// What it takes to rebuild the client: endpoint, store path, store
/// passphrase.
pub struct ClientSession {
    pub homeserver: String,
    pub db_path: String,
    pub passphrase: String,
}

/// The whole persisted record: connection data, the authenticated user
/// session (kept as the serialized text the transport hands back), and
/// the latest resynchronization cursor, if one was ever obtained.
pub struct FullSession {
    pub client_session: ClientSession,
    pub user_session: String,
    pub sync_token: Option<String>,
}

pub open spec fn is_alnum(c: char) -> bool {
    (97 <= c as u32 <= 122) || (65 <= c as u32 <= 90) || (48 <= c as u32 <= 57)
}

/// Relies on rand's `Alphanumeric` distribution with `thread_rng`:
/// the sample is exactly `n` characters long, each an ASCII letter or
/// digit. Nothing is assumed about which characters come out.
#[verifier::external_body]
fn random_alphanumeric(n: usize) -> (r: String)
    ensures
        r@.len() == n,
        forall|i: int| 0 <= i < r@.len() ==> is_alnum(#[trigger] r@[i]),
{
    rand::thread_rng().sample_iter(rand::distributions::Alphanumeric).take(n).map(
        char::from,
    ).collect()
}

/// A fresh client session: the store goes in a random subfolder of
/// `data_dir`, locked with a fresh random passphrase.
pub fn new_client_session(homeserver: String, data_dir: &str) -> (r: ClientSession)
    ensures
        r.homeserver@ == homeserver@,
        r.db_path@.len() == data_dir@.len() + 8,
        r.db_path@.subrange(0, data_dir@.len() as int) == data_dir@,
        r.db_path@[data_dir@.len() as int] == '/',
        forall|i: int| data_dir@.len() + 1 <= i < r.db_path@.len() ==> is_alnum(#[trigger] r.db_path@[i]),
        r.passphrase@.len() == 32,
        forall|i: int| 0 <= i < r.passphrase@.len() ==> is_alnum(#[trigger] r.passphrase@[i]),
{
    let mut db_path = data_dir.to_owned();
    push_char(&mut db_path, '/');
    let sub = random_alphanumeric(7);
    db_path.append(sub.as_str());
    let passphrase = random_alphanumeric(32);
    proof {
        assert(db_path@.subrange(0, data_dir@.len() as int) =~= data_dir@);
    }
    ClientSession { homeserver, db_path, passphrase }
}

// ---------------------------------------------------------------------
// The resynchronization state machine.
// ---------------------------------------------------------------------
/// Where the session stands.
#[derive(Clone, Copy, Debug, PartialEq, Eq, Structural)]
pub enum SyncPhase {
    /// Still trying to complete the first sync.
    InitialSync,
    /// Listening for batches.
    Listening,
    /// The listening transport failed; the process must stop.
    Failed,
}

/// What the transport reported for one wait.
pub enum SyncInput {
    /// A batch arrived; the token is the cursor to resume after it.
    Batch(String),
    /// The wait failed.
    SyncFailed,
}

/// What the outer loop must do before the next wait.
#[derive(Clone, Copy, Debug, PartialEq, Eq, Structural)]
pub enum SyncAction {
    /// Run the initial sync again.
    Retry,
    /// Write `stored` to disk, then wait for the next batch.
    Persist,
    /// Propagate the error; the process ends.
    Stop,
}

/// The machine: the phase, and the record as it must exist on disk
/// before the next wait is issued.
pub struct SyncMachine {
    pub phase: SyncPhase,
    pub stored: FullSession,
}

/// One step of the machine. A failed initial sync is retried; a batch
/// puts its cursor into the record, which the caller persists before
/// waiting again; a failure while listening stops the process.
pub open spec fn sync_step(m: SyncMachine, input: SyncInput) -> (SyncMachine, SyncAction) {
    match input {
        SyncInput::Batch(c) => {
            if m.phase == SyncPhase::Failed {
                (m, SyncAction::Stop)
            } else {
                (
                    SyncMachine {
                        phase: SyncPhase::Listening,
                        stored: FullSession { sync_token: Some(c), ..m.stored },
                    },
                    SyncAction::Persist,
                )
            }
        },
        SyncInput::SyncFailed => {
            if m.phase == SyncPhase::InitialSync {
                (m, SyncAction::Retry)
            } else {
                (SyncMachine { phase: SyncPhase::Failed, ..m }, SyncAction::Stop)
            }
        },
    }
}

impl SyncMachine {
    /// A machine for a session just restored or logged in.
    pub fn start(stored: FullSession) -> (m: SyncMachine)
        ensures
            m.phase == SyncPhase::InitialSync,
            m.stored == stored,
    {
        SyncMachine { phase: SyncPhase::InitialSync, stored }
    }

    /// Feed one transport outcome through `sync_step`.
    pub fn step(&mut self, input: SyncInput) -> (a: SyncAction)
        ensures
            (*final(self), a) == sync_step(*old(self), input),
    {
        match input {
            SyncInput::Batch(c) => {
                if matches!(self.phase, SyncPhase::Failed) {
                    SyncAction::Stop
                } else {
                    self.phase = SyncPhase::Listening;
                    self.stored.sync_token = Some(c);
                    SyncAction::Persist
                }
            },
            SyncInput::SyncFailed => {
                if matches!(self.phase, SyncPhase::InitialSync) {
                    SyncAction::Retry
                } else {
                    self.phase = SyncPhase::Failed;
                    SyncAction::Stop
                }
            },
        }
    }
}

/// The machine after a run of consecutive successful batches.
pub open spec fn run_batches(m: SyncMachine, cs: Seq<String>) -> SyncMachine
    decreases cs.len(),
{
    if cs.len() == 0 {
        m
    } else {
        sync_step(run_batches(m, cs.drop_last()), SyncInput::Batch(cs.last())).0
    }
}

/// Cursor persistence: after any run of consecutive successful batches,
/// the record holds exactly the cursor of the last batch, so a restart
/// from that record resumes after it. Every batch step answers
/// `Persist`, so the record is on disk before the next wait.
pub proof fn lemma_cursor_persistence(m: SyncMachine, cs: Seq<String>)
    requires
        m.phase != SyncPhase::Failed,
        cs.len() > 0,
    ensures
        run_batches(m, cs).phase == SyncPhase::Listening,
        run_batches(m, cs).stored.sync_token == Some(cs.last()),
        run_batches(m, cs).stored.client_session == m.stored.client_session,
        run_batches(m, cs).stored.user_session == m.stored.user_session,
        sync_step(run_batches(m, cs.drop_last()), SyncInput::Batch(cs.last())).1
            == SyncAction::Persist,
    decreases cs.len(),
{
    if cs.len() > 1 {
        lemma_cursor_persistence(m, cs.drop_last());
    }
}

// ---------------------------------------------------------------------
// Triggers and the watch-list.
// ---------------------------------------------------------------------
/// Does `pat` occur in `s` as a contiguous substring?
pub open spec fn contains_sub(s: Seq<char>, pat: Seq<char>) -> bool {
    exists|i: int|
        0 <= i <= s.len() - pat.len() && #[trigger] s.subrange(i, i + pat.len()) == pat
}

/// Substring search by scanning every start position.
pub fn contains_str(s: &str, pat: &str) -> (r: bool)
    ensures
        r == contains_sub(s@, pat@),
{
    let sv = to_chars(s);
    let n = sv.len();
    let m = pat.unicode_len();
    if m > n {
        proof {
            assert(!contains_sub(s@, pat@));
        }
        return false;
    }
    if m == 0 {
        proof {
            assert(s@.subrange(0, 0 + pat@.len() as int) == pat@);
        }
        return true;
    }
    let tries = n - m + 1;
    let mut i: usize = 0;
    while i < tries
        invariant
            1 <= m <= n,
            n == s@.len(),
            m == pat@.len(),
            sv@ == s@,
            tries == n - m + 1,
            i <= tries,
            forall|j: int| 0 <= j < i ==> #[trigger] s@.subrange(j, j + pat@.len()) != pat@,
        decreases tries - i,
    {
        if chars_eq_str(&sv, i, i + m, pat) {
            proof {
                assert(s@.subrange(i as int, i + pat@.len()) == pat@);
            }
            return true;
        }
        i = i + 1;
    }
    proof {
        assert(!contains_sub(s@, pat@));
    }
    false
}

/// Does a message body ask for the digest? The triggers are the
/// substrings `!calendar` and `!cal`.
pub fn message_triggers(body: &str) -> (r: bool)
    ensures
        r == (contains_sub(body@, "!calendar"@) || contains_sub(body@, "!cal"@)),
{
    let a = contains_str(body, "!calendar");
    let b = contains_str(body, "!cal");
    a || b
}

/// Is this room on the watch-list?
pub fn room_is_watched(room_id: &str, watched: &Vec<String>) -> (r: bool)
    ensures
        r == exists|k: int| 0 <= k < watched@.len() && (#[trigger] watched@[k])@ == room_id@,
{
    let n = watched.len();
    let mut i: usize = 0;
    while i < n
        invariant
            i <= n,
            n == watched@.len(),
            forall|k: int| 0 <= k < i ==> (#[trigger] watched@[k])@ != room_id@,
        decreases n - i,
    {
        if str_eq(watched[i].as_str(), room_id) {
            return true;
        }
        i = i + 1;
    }
    false
}

// ---------------------------------------------------------------------
// The watch-list text.
// ---------------------------------------------------------------------
/// Splitting at every comma: the finished pieces, and the open one.
pub open spec fn split_commas_acc(s: Seq<char>) -> (Seq<Seq<char>>, Seq<char>)
    decreases s.len(),
{
    if s.len() == 0 {
        (Seq::empty(), Seq::empty())
    } else {
        let prev = split_commas_acc(s.drop_last());
        if s.last() == ',' {
            (prev.0.push(prev.1), Seq::empty())
        } else {
            (prev.0, prev.1.push(s.last()))
        }
    }
}

/// The comma-separated pieces of `s`; empty pieces are kept.
pub open spec fn split_commas(s: Seq<char>) -> Seq<Seq<char>> {
    split_commas_acc(s).0.push(split_commas_acc(s).1)
}

/// The configured room list, one identifier per comma-separated piece.
pub fn split_room_ids(s: &str) -> (r: Vec<String>)
    ensures
        r@.len() == split_commas(s@).len(),
        forall|k: int| 0 <= k < r@.len() ==> (#[trigger] r@[k])@ == split_commas(s@)[k],
{
    let cs = to_chars(s);
    let mut out: Vec<String> = Vec::new();
    let mut cur = String::new();
    let n = cs.len();
    let mut i: usize = 0;
    while i < n
        invariant
            i <= n,
            n == cs@.len(),
            cs@ == s@,
            out@.len() == split_commas_acc(s@.take(i as int)).0.len(),
            forall|k: int|
                0 <= k < out@.len() ==> (#[trigger] out@[k])@ == split_commas_acc(
                    s@.take(i as int),
                ).0[k],
            cur@ == split_commas_acc(s@.take(i as int)).1,
        decreases n - i,
    {
        let c = cs[i];
        proof {
            assert(s@.take(i + 1).drop_last() =~= s@.take(i as int));
            assert(s@.take(i + 1).last() == s@[i as int]);
        }
        if c == ',' {
            out.push(cur);
            cur = String::new();
        } else {
            push_char(&mut cur, c);
        }
        i = i + 1;
    }
    proof {
        assert(s@.take(n as int) =~= s@);
    }
    out.push(cur);
    out
}

// ---------------------------------------------------------------------
// The weekly schedule.
// ---------------------------------------------------------------------
/// Seconds from `now` to the next occurrence of `weekday` (counted from
/// Monday) at `hour:00:00`: when that moment this week has already
/// passed, the gap runs to the same moment one week later, so the
/// firing stays aligned to the weekday and hour.
pub open spec fn weekly_gap(now: Timestamp, weekday: int, hour: int) -> int {
    let dn = date_day_number(now.date);
    let du = (weekday + 7 - weekday_from_monday(dn)) % 7;
    let target = (dn + du) * 86400 + hour * 3600;
    if target - ts_seconds(now) <= 0 {
        target + 7 * 86400 - ts_seconds(now)
    } else {
        target - ts_seconds(now)
    }
}

/// How long to sleep before the next weekly firing.
pub fn seconds_until_weekly(now: &Timestamp, weekday: u8, hour: u8) -> (s: u64)
    requires
        ts_valid(*now),
        weekday < 7,
        hour < 24,
    ensures
        s == weekly_gap(*now, weekday as int, hour as int),
{
    let dn = now.date.day_number();
    let wd = now.date.weekday();
    let du = ((weekday as u64) + 7 - (wd as u64)) % 7;
    let target: i64 = (dn + du as i64) * 86400 + (hour as i64) * 3600;
    let now_secs = now.epoch_seconds();
    if target <= now_secs {
        (target + 7 * 86400 - now_secs) as u64
    } else {
        (target - now_secs) as u64
    }
}

} // verus!
