//! The mining engine: when it connects and waits, what it works on, and which
//! winners it submits.

use crate::double::Double;
use crate::grinder::{count_fail, more_fails, retry_secs, Grinder, GrinderV, SECOND};
use crate::json::{Json, JsonV};
use crate::session::{
    answered, lemma_answered_is_part, passed, pumped, ready_with, since, submit_line, submits, submitted, Incoming,
    PendingV, Session, SessionV,
};
use crate::stats::{next_count, strings, Stats, StatsV};
use crate::target::{be_value, hash_le_target, nbits_to_target, nbits_value};
use crate::text::{chars_of, dec, dec_text, join, joined, parse_uint, parsed, same};
use crate::work::{nonce_hash, nonce_hash_of, trees, WorkUnit, WorkUnitV};
use std::collections::VecDeque;
use vstd::arithmetic::power2::{lemma2_to64, lemma_pow2_strictly_increases, pow2};
use vstd::prelude::*;

verus! {

// -------------------------------------------------------------- connecting

/// What the engine mines: the user changes it while it runs.
#[derive(Debug)]
pub struct Target {
    pub pool: String,
    pub addr: String,
    pub worker: String,
    pub network: String,
    pub donate: Double,
}

/// A target by what it holds.
pub struct TargetV {
    pub pool: Seq<char>,
    pub addr: Seq<char>,
    pub worker: Seq<char>,
    pub network: Seq<char>,
    pub donate: Double,
}

impl View for Target {
    type V = TargetV;

    open spec fn view(&self) -> TargetV {
        TargetV {
            pool: self.pool@,
            addr: self.addr@,
            worker: self.worker@,
            network: self.network@,
            donate: self.donate,
        }
    }
}

impl Target {
    /// Whether the user has moved to another pool or address. This ends any
    /// waiting.
    pub fn moved(&self, pool: &str, addr: &str) -> (r: bool)
        ensures
            r == (self@.pool != pool@ || self@.addr != addr@),
    {
        !same(self.pool.as_str(), pool) || !same(self.addr.as_str(), addr)
    }

    /// Whether the user has changed anything. This ends a session.
    pub fn changed(&self, was: &Target) -> (r: bool)
        ensures
            r == !(self@.pool == was@.pool && self@.addr == was@.addr && self@.worker == was@.worker && self@.network
                == was@.network && self@.donate.spec_equals(was@.donate)),
    {
        !(same(self.pool.as_str(), was.pool.as_str()) && same(self.addr.as_str(), was.addr.as_str()) && same(
            self.worker.as_str(),
            was.worker.as_str(),
        ) && same(self.network.as_str(), was.network.as_str()) && self.donate.equals(was.donate))
    }
}

/// How long the engine waits after failing to connect, in seconds: 3 at first,
/// twice as long after each further failure, and 60 at most.
pub open spec fn wait_secs(fails: u32) -> u64 {
    if fails <= 1 { 3 } else if fails == 2 { 6 } else if fails == 3 { 12 } else if fails == 4 { 24 } else if fails == 5 {
        48
    } else { 60 }
}

/// How long the engine waits after failing to connect, in seconds.
pub fn connect_wait(fails: u32) -> (r: u64)
    ensures
        r == wait_secs(fails),
{
    if fails <= 1 { 3 } else if fails == 2 { 6 } else if fails == 3 { 12 } else if fails == 4 { 24 } else if fails == 5 {
        48
    } else { 60 }
}

/// Law: each failure to connect makes the engine wait at least as long as the
/// one before, between 3 and 60 seconds.
pub proof fn law_connecting_backs_off(fails: u32)
    ensures
        3 <= wait_secs(fails) <= 60,
        wait_secs(fails) <= wait_secs(more_fails(fails)) <= 2 * wait_secs(fails),
{
}

/// The counts while there is no session.
pub open spec fn offline(st: StatsV) -> StatsV {
    StatsV { connected: false, ..st }
}

/// Without an address nothing is mined.
pub open spec fn addressless(st: StatsV) -> StatsV {
    offline(st).logged("no address set — go to SETUP [6] to set/generate one"@)
}

/// After a failure to connect, `fails` counting it.
pub open spec fn unreachable_pool(st: StatsV, pool: Seq<char>, fails: u32) -> StatsV {
    let st2 = offline(st).logged(
        "connection failed to "@ + pool + " — retry in "@ + dec(wait_secs(fails) as nat) + "s (attempt "@ + dec(
            fails as nat,
        ) + ")"@,
    );
    if fails == 3 {
        st2.alerted(
            "pool unreachable"@,
            pool + " — 3 failed attempts, retrying with backoff · not mining"@,
        )
    } else {
        st2
    }
}

/// After a session was opened. `donation` is the donated percentage as shown
/// to the user.
pub open spec fn reached_pool(
    st: StatsV,
    pool: Seq<char>,
    login: Seq<char>,
    fails: u32,
    donation: Option<Seq<char>>,
) -> StatsV {
    let st2 = (StatsV { connected: true, ..st }).logged("connected to "@ + pool + " as "@ + login);
    let st3 = if fails >= 3 {
        st2.alerted(
            "pool reachable again"@,
            "connected to "@ + pool + " after "@ + dec(fails as nat) + " attempts · mining"@,
        )
    } else {
        st2
    };
    match donation {
        Some(pct) => st3.logged("hashrate donation "@ + pct + "% → PyBLØCK"@),
        None => st3,
    }
}

/// The engine's own state.
#[derive(Debug)]
pub struct Engine {
    /// Failures to connect in a row.
    pub fails: u32,
    /// When the donation's session was last tried.
    pub dev_retry: u64,
}

impl Engine {
    /// Notes that there is no address to mine to.
    pub fn no_address(&self, stats: &mut Stats)
        ensures
            final(stats)@ == addressless(old(stats)@),
    {
        stats.connected = false;
        stats.logline("no address set — go to SETUP [6] to set/generate one".to_owned());
    }

    /// Notes a failure to connect; gives the seconds to wait.
    pub fn connect_failed(&mut self, stats: &mut Stats, pool: &str) -> (wait: u64)
        ensures
            final(self).fails == more_fails(old(self).fails),
            final(self).dev_retry == old(self).dev_retry,
            wait == wait_secs(final(self).fails),
            final(stats)@ == unreachable_pool(old(stats)@, pool@, final(self).fails),
    {
        self.fails = count_fail(self.fails);
        let wait: u64 = connect_wait(self.fails);
        stats.connected = false;
        let mut line = "connection failed to ".to_owned();
        line.append(pool);
        line.append(" — retry in ");
        line.append(dec_text(wait).as_str());
        line.append("s (attempt ");
        line.append(dec_text(self.fails as u64).as_str());
        line.append(")");
        stats.logline(line);
        if self.fails == 3 {
            let mut body = pool.to_owned();
            body.append(" — 3 failed attempts, retrying with backoff · not mining");
            stats.alert("pool unreachable", body.as_str());
        }
        wait
    }

    /// Notes that a session was opened.
    pub fn connected(&self, stats: &mut Stats, pool: &str, login: &str, donation: Option<&str>)
        ensures
            final(stats)@ == reached_pool(
                old(stats)@,
                pool@,
                login@,
                self.fails,
                match donation {
                    Some(t) => Some(t@),
                    None => None,
                },
            ),
    {
        stats.connected = true;
        let mut line = "connected to ".to_owned();
        line.append(pool);
        line.append(" as ");
        line.append(login);
        stats.logline(line);
        if self.fails >= 3 {
            let mut body = "connected to ".to_owned();
            body.append(pool);
            body.append(" after ");
            body.append(dec_text(self.fails as u64).as_str());
            body.append(" attempts · mining");
            stats.alert("pool reachable again", body.as_str());
        }
        match donation {
            Some(pct) => {
                let mut line = "hashrate donation ".to_owned();
                line.append(pct);
                line.append("% → PyBLØCK");
                stats.logline(line);
            },
            None => {},
        }
    }

    /// Notes the end of a session. One that ended on its own within 10 seconds
    /// counts as a failure; gives the seconds to wait then.
    pub fn session_over(&mut self, stats: &mut Stats, switched: bool, opened_at: u64, now: u64) -> (wait: Option<u64>)
        ensures
            final(self).dev_retry == old(self).dev_retry,
            if !switched && passed(opened_at, now) < 10 * SECOND {
                &&& final(self).fails == more_fails(old(self).fails)
                &&& wait == Some(wait_secs(final(self).fails))
                &&& final(stats)@ == old(stats)@.logged(
                    "session dropped early — reconnecting in "@ + dec(wait_secs(final(self).fails) as nat) + "s"@,
                )
            } else {
                final(self).fails == 0 && wait is None && final(stats)@ == old(stats)@
            },
    {
        if !switched && since(opened_at, now) < 10 * SECOND {
            self.fails = count_fail(self.fails);
            let wait: u64 = connect_wait(self.fails);
            let mut line = "session dropped early — reconnecting in ".to_owned();
            line.append(dec_text(wait).as_str());
            line.append("s");
            stats.logline(line);
            Some(wait)
        } else {
            self.fails = 0;
            None
        }
    }

    /// Notes that the user switched to another target.
    pub fn switching(&self, stats: &mut Stats, pool: &str)
        ensures
            final(stats)@ == old(stats)@.logged("switching stratum → "@ + pool@),
    {
        let mut line = "switching stratum → ".to_owned();
        line.append(pool);
        stats.logline(line);
    }
}

// ------------------------------------------------------------------- ticks

/// A session, if there is one, by what it holds.
pub open spec fn session_of(s: Option<Session>) -> Option<SessionV> {
    match s {
        Some(s) => Some(s@),
        None => None,
    }
}

/// The hashrates in GH/s: of all workers together, and of each.
#[derive(Debug)]
pub struct Rates {
    pub total: Double,
    pub workers: Vec<Double>,
}

/// Hashrates by their values.
#[verifier::ext_equal]
pub struct RatesV {
    pub total: Double,
    pub workers: Seq<Double>,
}

impl View for Rates {
    type V = RatesV;

    open spec fn view(&self) -> RatesV {
        RatesV { total: self.total, workers: self.workers@ }
    }
}

/// Zero.
pub open spec fn no_rate() -> Double {
    Double { bits: 0 }
}

/// The hashrates while nothing is hashed.
pub open spec fn resting(r: RatesV) -> RatesV {
    RatesV { total: no_rate(), workers: Seq::new(r.workers.len(), |i: int| no_rate()) }
}

impl Rates {
    /// The rates of workers that have not hashed yet.
    pub fn start(workers: usize) -> (r: Rates)
        ensures
            r@ == (RatesV { total: no_rate(), workers: Seq::new(workers as nat, |i: int| no_rate()) }),
    {
        let mut v: Vec<Double> = Vec::new();
        let mut i: usize = 0;
        while i < workers
            invariant
                i <= workers,
                v@ == Seq::new(i as nat, |j: int| no_rate()),
            decreases workers - i,
        {
            v.push(Double { bits: 0 });
            i = i + 1;
            assert(v@ =~= Seq::new(i as nat, |j: int| no_rate()));
        }
        Rates { total: Double { bits: 0 }, workers: v }
    }

    /// Nothing is hashed.
    pub fn rest(&mut self)
        ensures
            final(self)@ == resting(old(self)@),
    {
        let n: usize = self.workers.len();
        *self = Rates::start(n);
    }
}

/// What a round of the engine is told.
pub struct Tick {
    /// What the user's, and what the donation's, pool sent.
    pub read: Incoming,
    pub dev_read: Incoming,
    /// Whether hashrate is donated.
    pub donating: bool,
    /// How long the pool may leave the miner without a job, in nanoseconds.
    pub stall: u64,
    /// Whether the user has paused mining.
    pub paused: bool,
    /// Whether the chain uses BLAKE2b, where that is known.
    pub active: Option<bool>,
}

/// What the engine does next.
#[derive(Clone, Copy, Debug, PartialEq, Eq, Structural)]
pub enum Action {
    /// The session is over: open a new one.
    Reconnect,
    /// Mining is paused.
    Pause,
    /// The chain does not use BLAKE2b yet.
    Wait,
    /// Build work.
    Work,
}

/// After the donation's pool was read.
pub open spec fn dev_read(dev: Option<SessionV>, st: StatsV, read: Incoming, retry: u64, now: u64) -> (
    Option<SessionV>,
    StatsV,
    u64,
) {
    match dev {
        Some(d) => {
            let (d2, st2) = pumped(d, st, read, now);
            if read is Closed { (None, st2, now) } else { (Some(d2), st2, retry) }
        },
        None => (None, st, retry),
    }
}

/// Whether the donation's session is to be opened again.
pub open spec fn dev_wanted(dev: Option<SessionV>, donating: bool, retry: u64, now: u64) -> bool {
    dev is None && donating && passed(retry, now) > 20 * SECOND
}

/// Whether a session has gone silent: nothing came in for 90 seconds, or no
/// job for as long as allowed.
pub open spec fn silent(s: SessionV, stall: u64, now: u64) -> bool {
    passed(s.idle, now) > 90 * SECOND || passed(s.last_notify, now) > stall
}

/// What is noted of a silent session.
pub open spec fn silence_noted(s: SessionV, st: StatsV, stall: u64, now: u64) -> StatsV {
    if passed(s.idle, now) > 90 * SECOND {
        offline(st).logged("no data for 90s — reconnecting…"@)
    } else {
        offline(st).logged("no new job in "@ + dec((stall / SECOND) as nat) + "s — resubscribing…"@)
    }
}

/// After the user's wish to pause was looked at.
pub open spec fn pause_noted(st: StatsV, paused: bool) -> StatsV {
    if paused && !st.paused {
        (StatsV { paused: true, ..st }).logged("⏸ mining paused"@)
    } else if !paused && st.paused {
        (StatsV { paused: false, ..st }).logged("▶ mining resumed"@)
    } else {
        st
    }
}

/// A round of the engine by what it leaves behind.
pub struct Round {
    pub user: SessionV,
    pub dev: Option<SessionV>,
    pub stats: StatsV,
    pub rates: RatesV,
    pub dev_retry: u64,
    /// Whether the donation's session is to be opened again.
    pub want_dev: bool,
    pub action: Action,
}

/// A round of the engine. While it rests nothing is hashed.
pub open spec fn round(
    user: SessionV,
    dev: Option<SessionV>,
    st: StatsV,
    rates: RatesV,
    retry: u64,
    t: Tick,
    now: u64,
) -> Round {
    let (user2, st2) = pumped(user, st, t.read, now);
    if t.read is Closed {
        Round {
            user: user2,
            dev,
            stats: offline(st2).logged("disconnected — reconnecting…"@),
            rates,
            dev_retry: retry,
            want_dev: false,
            action: Action::Reconnect,
        }
    } else {
        let (dev2, st3, retry2) = dev_read(dev, st2, t.dev_read, retry, now);
        let want_dev = dev_wanted(dev2, t.donating, retry2, now);
        let retry3 = if want_dev { now } else { retry2 };
        if silent(user2, t.stall, now) {
            Round {
                user: user2,
                dev: dev2,
                stats: silence_noted(user2, st3, t.stall, now),
                rates,
                dev_retry: retry3,
                want_dev,
                action: Action::Reconnect,
            }
        } else {
            Round {
                user: user2,
                dev: dev2,
                stats: pause_noted(st3, t.paused),
                rates: if t.paused || t.active == Some(false) { resting(rates) } else { rates },
                dev_retry: retry3,
                want_dev,
                action: if t.paused { Action::Pause } else if t.active == Some(false) { Action::Wait } else {
                    Action::Work
                },
            }
        }
    }
}

impl Engine {
    /// Runs a round: reads both pools, watches over the user's session, and
    /// says what to do next and whether to open the donation's session.
    pub fn step(
        &mut self,
        user: &mut Session,
        dev: &mut Option<Session>,
        stats: &mut Stats,
        rates: &mut Rates,
        t: Tick,
        now: u64,
    ) -> (r: (Action, bool))
        ensures
            ({
                let e = round(
                    old(user)@,
                    session_of(*old(dev)),
                    old(stats)@,
                    old(rates)@,
                    old(self).dev_retry,
                    t,
                    now,
                );
                &&& final(user)@ == e.user
                &&& session_of(*final(dev)) == e.dev
                &&& final(stats)@ == e.stats
                &&& final(rates)@ == e.rates
                &&& final(self).dev_retry == e.dev_retry
                &&& final(self).fails == old(self).fails
                &&& r == (e.action, e.want_dev)
            }),
    {
        let Tick { read, dev_read, donating, stall, paused, active } = t;
        if !user.pump(stats, read, now) {
            stats.connected = false;
            stats.logline("disconnected — reconnecting…".to_owned());
            return (Action::Reconnect, false);
        }
        let alive = match dev {
            Some(d) => d.pump(stats, dev_read, now),
            None => true,
        };
        if !alive {
            *dev = None;
            self.dev_retry = now;
        }
        let want_dev = dev.is_none() && donating && since(self.dev_retry, now) > 20 * SECOND;
        if want_dev {
            self.dev_retry = now;
        }
        if since(user.idle, now) > 90 * SECOND {
            stats.connected = false;
            stats.logline("no data for 90s — reconnecting…".to_owned());
            return (Action::Reconnect, want_dev);
        }
        if since(user.last_notify, now) > stall {
            stats.connected = false;
            let mut line = "no new job in ".to_owned();
            line.append(dec_text(stall / SECOND).as_str());
            line.append("s — resubscribing…");
            stats.logline(line);
            return (Action::Reconnect, want_dev);
        }
        if paused {
            if !stats.paused {
                stats.paused = true;
                stats.logline("⏸ mining paused".to_owned());
            }
            rates.rest();
            return (Action::Pause, want_dev);
        }
        if stats.paused {
            stats.paused = false;
            stats.logline("▶ mining resumed".to_owned());
        }
        match active {
            Some(false) => {
                rates.rest();
                (Action::Wait, want_dev)
            },
            _ => (Action::Work, want_dev),
        }
    }
}

/// Law: work is built only when mining is not paused, the chain is not known
/// to use another algorithm, and the pool is neither gone nor silent. Where it
/// is not known which algorithm the chain uses, mining goes on.
pub proof fn law_work_only_when_allowed(
    user: SessionV,
    dev: Option<SessionV>,
    st: StatsV,
    rates: RatesV,
    retry: u64,
    t: Tick,
    now: u64,
)
    ensures
        ({
            let e = round(user, dev, st, rates, retry, t, now);
            e.action == Action::Work <==> !(t.read is Closed) && !silent(e.user, t.stall, now) && !t.paused && t.active
                != Some(false)
        }),
{
}

/// Law: while mining is paused, or the chain does not use BLAKE2b yet, no work
/// is built and every hashrate is zero, but the pool stays connected: the
/// session is as reading the pool leaves it, it is not marked offline, and it
/// is given up only where the pool is gone or silent.
pub proof fn law_rest_keeps_the_session(
    user: SessionV,
    dev: Option<SessionV>,
    st: StatsV,
    rates: RatesV,
    retry: u64,
    t: Tick,
    now: u64,
)
    requires
        t.paused || t.active == Some(false),
    ensures
        ({
            let e = round(user, dev, st, rates, retry, t, now);
            &&& e.action != Action::Work
            &&& e.action == Action::Reconnect <==> t.read is Closed || silent(e.user, t.stall, now)
            &&& e.user == pumped(user, st, t.read, now).0
            &&& e.action != Action::Reconnect ==> {
                &&& e.rates.total == no_rate()
                &&& e.rates.workers.len() == rates.workers.len()
                &&& forall|i: int| 0 <= i < e.rates.workers.len() ==> #[trigger] e.rates.workers[i] == no_rate()
                &&& e.stats.connected == st.connected
                &&& e.stats.paused == t.paused
            }
        }),
{
    lemma_pump_keeps_connected(user, st, t.read, now);
    let st2 = pumped(user, st, t.read, now).1;
    match dev {
        Some(d) => {
            lemma_pump_keeps_connected(d, st2, t.dev_read, now);
        },
        None => {},
    }
}

proof fn lemma_pump_keeps_connected(s: SessionV, st: StatsV, read: Incoming, now: u64)
    ensures
        pumped(s, st, read, now).1.connected == st.connected,
{
    if !(read is Closed) {
        let s1 = match read {
            Incoming::Data(d) => SessionV { buf: s.buf + d@, idle: now, ..s },
            _ => s,
        };
        lemma_lines_keep_connected(
            SessionV { buf: crate::session::rest_of(s1.buf), ..s1 },
            st,
            crate::session::lines_of(s1.buf),
            now,
        );
    }
}

proof fn lemma_lines_keep_connected(s: SessionV, st: StatsV, lines: Seq<Seq<u8>>, now: u64)
    ensures
        crate::session::lines_read(s, st, lines, now).1.connected == st.connected,
    decreases lines.len(),
{
    if lines.len() > 0 {
        lemma_lines_keep_connected(s, st, lines.drop_last(), now);
    }
}

// ------------------------------------------------------------------- choice

/// Whose work is done next.
#[derive(Clone, Copy, Debug, PartialEq, Eq, Structural)]
pub enum Choice {
    Donation,
    Own,
    /// Neither pool has given a job yet.
    Nobody,
}

/// Whose work is done next: the donation's where it is due and its pool has
/// given a job, the user's otherwise.
pub open spec fn next_choice(due: bool, dev: Option<SessionV>, user: SessionV) -> Choice {
    if due && dev is Some && ready_with(dev->0) is Some {
        Choice::Donation
    } else if ready_with(user) is Some {
        Choice::Own
    } else {
        Choice::Nobody
    }
}

/// Chooses whose work is done next.
pub fn choose_work(due: bool, dev: &Option<Session>, user: &Session) -> (r: Choice)
    ensures
        r == next_choice(due, session_of(*dev), user@),
        r == Choice::Donation <==> due && dev is Some && ready_with(dev->0@) is Some,
        r == Choice::Own <==> r != Choice::Donation && ready_with(user@) is Some,
{
    let dev_ready = match dev {
        Some(d) => d.ready().is_some(),
        None => false,
    };
    if due && dev_ready {
        Choice::Donation
    } else if user.ready().is_some() {
        Choice::Own
    } else {
        Choice::Nobody
    }
}

// ------------------------------------------------------------------ winners

/// The network target that a job carries; 0 where it cannot be read.
pub open spec fn job_nbits(job: Seq<JsonV>) -> u32 {
    if job.len() > 6 && job[6].text() is Some && parsed(job[6].text()->0, 16, 0xffff_ffff) is Some {
        parsed(job[6].text()->0, 16, 0xffff_ffff)->0 as u32
    } else {
        0
    }
}

/// Reads the network target that a job carries.
pub fn net_bits(job: &Vec<Json>) -> (r: u32)
    ensures
        r == job_nbits(trees(job@)),
{
    if job.len() > 6 {
        match job[6].as_str() {
            Some(s) => match parse_uint(&chars_of(s), 16, 0xffff_ffff) {
                Some(n) => n as u32,
                None => 0,
            },
            None => 0,
        }
    } else {
        0
    }
}

/// Whether work is still for the tip: the latest job builds on the same block.
/// Where that is not known it counts as current.
pub open spec fn on_tip(job: Option<Seq<JsonV>>, prevhash: Seq<char>) -> bool {
    match job {
        Some(j) => j.len() > 1 && j[1].text() is Some ==> j[1].text()->0 == prevhash,
        None => true,
    }
}

/// Whether work is still for the tip.
pub fn still_current(s: &Session, prevhash: &str) -> (r: bool)
    ensures
        r == on_tip(s@.job, prevhash@),
{
    match &s.job {
        Some(j) => if j.len() > 1 {
            match j[1].as_str() {
                Some(cur) => same(cur, prevhash),
                None => true,
            }
        } else {
            true
        },
        None => true,
    }
}

/// Whether a nonce solves a block: its hash meets the network's target.
pub open spec fn solves(w: WorkUnitV, nonce: Seq<char>, nbits: u32) -> bool {
    let h = nonce_hash_of(w.prevhash, w.ntime, w.work_root, nonce);
    nbits != 0 && h is Some && be_value(h->0) <= nbits_value(nbits)
}

/// A winner that a grinder reported, looked at again.
#[derive(Debug)]
pub struct Candidate {
    pub nonce: String,
    /// Its hash, where the work can be read.
    pub hash: Option<[u8; 32]>,
    pub is_block: bool,
}

/// Looks at a winner again.
pub fn examine(w: &WorkUnit, nonce: String, nbits: u32) -> (r: Candidate)
    ensures
        r.nonce@ == nonce@,
        match r.hash {
            Some(h) => nonce_hash_of(w@.prevhash, w@.ntime, w@.work_root, nonce@) == Some(h@),
            None => nonce_hash_of(w@.prevhash, w@.ntime, w@.work_root, nonce@) is None,
        },
        r.is_block == solves(w@, nonce@, nbits),
        r.is_block <==> nbits != 0 && r.hash is Some && be_value(r.hash->0@) <= nbits_value(nbits),
{
    let hash = nonce_hash(w.prevhash.as_str(), w.ntime.as_str(), w.work_root.as_str(), nonce.as_str());
    let is_block = match &hash {
        Some(h) => nbits != 0 && hash_le_target(h, &nbits_to_target(nbits)),
        None => false,
    };
    Candidate { nonce, hash, is_block }
}

/// A candidate, and whether it reaches the pool's difficulty.
#[derive(Debug)]
pub struct Judged {
    pub candidate: Candidate,
    pub meets_diff: bool,
}

/// Whether a winner counts as one that reaches the pool's difficulty.
pub open spec fn counts_as_share(hash: Option<[u8; 32]>, reaches: bool) -> bool {
    hash is Some && reaches
}

/// Judges a candidate. `reaches` tells whether its hash reaches the pool's
/// difficulty; one that cannot be hashed here is not trusted.
pub fn judge(candidate: Candidate, reaches: bool) -> (r: Judged)
    ensures
        r.candidate == candidate,
        r.meets_diff == (candidate.hash is Some && reaches),
        r.meets_diff == counts_as_share(candidate.hash, reaches),
{
    let meets_diff = match &candidate.hash {
        Some(_) => reaches,
        None => false,
    };
    Judged { candidate, meets_diff }
}

/// After the winners of a sweep were submitted, and what was sent: those that
/// reach the pool's difficulty, unless a block landed meanwhile.
pub open spec fn sweep_submitted(
    s: SessionV,
    w: WorkUnitV,
    won: Seq<Judged>,
    current: bool,
    height: u64,
    now: u64,
) -> (SessionV, Seq<Seq<char>>)
    decreases won.len(),
{
    if won.len() == 0 {
        (s, Seq::empty())
    } else {
        let (s2, sent) = sweep_submitted(s, w, won.drop_last(), current, height, now);
        let j = won.last();
        if current && j.meets_diff {
            let s3 = submitted(s2, j.candidate.nonce@, j.candidate.is_block, height, now);
            (s3, sent.push(submit_line(s3.subid, s2.addr, w, j.candidate.nonce@)))
        } else {
            (s2, sent)
        }
    }
}

/// The winners that reach the pool's difficulty, in order.
pub open spec fn reaching_winners(won: Seq<Judged>) -> Seq<Judged> {
    won.filter(|j: Judged| j.meets_diff)
}

proof fn lemma_reaching_step(won: Seq<Judged>)
    requires
        won.len() > 0,
    ensures
        reaching_winners(won) == if won.last().meets_diff {
            reaching_winners(won.drop_last()).push(won.last())
        } else {
            reaching_winners(won.drop_last())
        },
{
    reveal(Seq::filter);
}

/// Law: of a sweep's winners exactly those that reach the pool's difficulty
/// are sent, each as often as it was won.
pub proof fn law_no_reaching_winner_is_lost(won: Seq<Judged>, j: Judged)
    ensures
        j.meets_diff ==> reaching_winners(won).to_multiset().count(j) == won.to_multiset().count(j),
        !j.meets_diff ==> !reaching_winners(won).contains(j),
    decreases won.len(),
{
    broadcast use vstd::seq_lib::group_to_multiset_ensures;

    if won.len() == 0 {
        assert(reaching_winners(won) =~= Seq::<Judged>::empty()) by {
            reveal(Seq::filter);
        }
        assert(won =~= Seq::<Judged>::empty());
    } else {
        let d = won.drop_last();
        let x = won.last();
        law_no_reaching_winner_is_lost(d, j);
        lemma_reaching_step(won);
        assert(won =~= d.push(x));
        let r = reaching_winners(won);
        let q = reaching_winners(d);
        if !j.meets_diff && r.contains(j) {
            let k = choose|k: int| 0 <= k < r.len() && r[k] == j;
            if k < q.len() {
                assert(q[k] == j);
            }
        }
    }
}

/// Submits the winners of a sweep; gives the lines to send.
pub fn submit_winners(
    s: &mut Session,
    w: &WorkUnit,
    won: &Vec<Judged>,
    current: bool,
    height: u64,
    now: u64,
) -> (lines: Vec<String>)
    ensures
        (final(s)@, strings(lines@)) == sweep_submitted(old(s)@, w@, won@, current, height, now),
        lines@.len() == if current { reaching_winners(won@).len() } else { 0 },
        forall|k: int|
            0 <= k < lines@.len() ==> submits(
                (#[trigger] lines@[k])@,
                old(s)@.addr,
                w@,
                reaching_winners(won@)[k].candidate.nonce@,
            ),
{
    let ghost s0 = s@;
    let mut lines: Vec<String> = Vec::new();
    let mut i: usize = 0;
    assert(strings(lines@) =~= Seq::<Seq<char>>::empty());
    assert(won@.take(0).len() == 0);
    assert(reaching_winners(won@.take(0)).len() == 0) by {
        reveal(Seq::filter);
    }
    while i < won.len()
        invariant
            i <= won@.len(),
            s@.addr == s0.addr,
            lines@.len() == if current { reaching_winners(won@.take(i as int)).len() } else { 0 },
            forall|k: int|
                0 <= k < lines@.len() ==> submits(
                    (#[trigger] lines@[k])@,
                    s0.addr,
                    w@,
                    reaching_winners(won@.take(i as int))[k].candidate.nonce@,
                ),
            (s@, strings(lines@)) == sweep_submitted(s0, w@, won@.take(i as int), current, height, now),
        decreases won@.len() - i,
    {
        let ghost sent = strings(lines@);
        let ghost s2 = s@;
        assert(won@.take(i + 1).drop_last() =~= won@.take(i as int));
        proof {
            lemma_reaching_step(won@.take(i + 1));
        }
        if current && won[i].meets_diff {
            let line = s.submit(w, won[i].candidate.nonce.as_str(), won[i].candidate.is_block, height, now);
            let ghost was = lines@;
            lines.push(line);
            assert(strings(lines@) =~= sent.push(line@));
            assert forall|k: int| 0 <= k < lines@.len() implies submits(
                (#[trigger] lines@[k])@,
                s0.addr,
                w@,
                reaching_winners(won@.take(i + 1))[k].candidate.nonce@,
            ) by {
                if k < was.len() {
                    assert(lines@[k] == was[k]);
                }
            }
        }
        i = i + 1;
    }
    assert(won@.take(i as int) =~= won@);
    lines
}

/// Law: the winners of a sweep that a block overtook are not submitted.
pub proof fn law_stale_sweep_submits_nothing(s: SessionV, w: WorkUnitV, won: Seq<Judged>, height: u64, now: u64)
    ensures
        sweep_submitted(s, w, won, false, height, now) == (s, Seq::<Seq<char>>::empty()),
    decreases won.len(),
{
    if won.len() > 0 {
        law_stale_sweep_submits_nothing(s, w, won.drop_last(), height, now);
    }
}

/// Whether a winner was judged by its own hash in a unit of work, as `judge`
/// does with what `examine` found: it is taken for a block exactly where it
/// solves one, and reaches the pool's difficulty only where it can be hashed.
pub open spec fn verified(j: Judged, w: WorkUnitV, nbits: u32) -> bool {
    let nonce = j.candidate.nonce@;
    &&& j.candidate.is_block == solves(w, nonce, nbits)
    &&& j.meets_diff ==> nonce_hash_of(w.prevhash, w.ntime, w.work_root, nonce) is Some
}

/// Law: the miner never trusts a grinder blindly. A share that a sweep adds to
/// the waiting ones is of a sweep that is still current, its nonce was hashed
/// again and reaches the pool's difficulty, and it counts as a block exactly
/// where it solves one.
pub proof fn law_submitted_winners_are_verified(
    s: SessionV,
    w: WorkUnitV,
    won: Seq<Judged>,
    current: bool,
    height: u64,
    now: u64,
    nbits: u32,
    p: PendingV,
)
    requires
        forall|i: int| 0 <= i < won.len() ==> verified(#[trigger] won[i], w, nbits),
        sweep_submitted(s, w, won, current, height, now).0.pending.contains(p),
        !s.pending.contains(p),
    ensures
        current,
        exists|i: int| 0 <= i < won.len() && (#[trigger] won[i]).meets_diff && won[i].candidate.nonce@ == p.nonce,
        nonce_hash_of(w.prevhash, w.ntime, w.work_root, p.nonce) is Some,
        p.is_block == solves(w, p.nonce, nbits),
        p.is_block <==> nbits != 0 && be_value(
            nonce_hash_of(w.prevhash, w.ntime, w.work_root, p.nonce)->0,
        ) <= nbits_value(nbits),
        p.height == height,
        p.at == now,
    decreases won.len(),
{
    if won.len() > 0 {
        let d = won.drop_last();
        let j = won.last();
        let s2 = sweep_submitted(s, w, d, current, height, now).0;
        let s3 = sweep_submitted(s, w, won, current, height, now).0;
        assert forall|i: int| 0 <= i < d.len() implies verified(#[trigger] d[i], w, nbits) by {
            assert(verified(won[i], w, nbits));
        }
        assert(verified(won[won.len() - 1], w, nbits));
        let k = choose|k: int| 0 <= k < s3.pending.len() && s3.pending[k] == p;
        if s2.pending.contains(p) {
            law_submitted_winners_are_verified(s, w, d, current, height, now, nbits, p);
            let i = choose|i: int| 0 <= i < d.len() && (#[trigger] d[i]).meets_diff && d[i].candidate.nonce@ == p.nonce;
            assert(won[i].meets_diff && won[i].candidate.nonce@ == p.nonce);
        } else {
            assert(current && j.meets_diff);
            let id = next_count(s2.subid);
            let left = answered(s2.pending, id);
            lemma_answered_is_part(s2.pending, id);
            if k < left.len() {
                assert(left[k] == p);
                assert(left.contains(p));
            }
            assert(won[won.len() - 1].meets_diff);
        }
    }
}

/// How many winners reach the pool's difficulty.
pub open spec fn reaching(won: Seq<Judged>) -> nat
    decreases won.len(),
{
    if won.len() == 0 { 0 } else { reaching(won.drop_last()) + if won.last().meets_diff { 1nat } else { 0 } }
}

/// Law: of a sweep that is still current every winner that reaches the pool's
/// difficulty is submitted, and no other.
pub proof fn law_current_sweep_submits_all(s: SessionV, w: WorkUnitV, won: Seq<Judged>, height: u64, now: u64)
    ensures
        sweep_submitted(s, w, won, true, height, now).1.len() == reaching(won),
    decreases won.len(),
{
    if won.len() > 0 {
        law_current_sweep_submits_all(s, w, won.drop_last(), height, now);
    }
}

// ------------------------------------------------------------------ workers

/// How many CPU threads mine: those asked for, or all where no grinder has
/// started and none was asked for.
pub open spec fn threads_used(gpus: nat, asked: usize, cores: usize) -> usize {
    if gpus == 0 && asked == 0 { cores } else { asked }
}

/// How many CPU threads mine.
pub fn cpu_fallback(gpus: usize, asked: usize, cores: usize) -> (r: usize)
    ensures
        r == threads_used(gpus as nat, asked, cores),
{
    if gpus == 0 && asked == 0 { cores } else { asked }
}

/// The name that a device is started under.
pub open spec fn device_label(names: Seq<Seq<char>>, dev: u32) -> Seq<char> {
    if dev < names.len() { names[dev as int] } else { "GPU "@ + dec(dev as nat) }
}

/// The name that a device is started under.
pub fn device_name(names: &Vec<String>, dev: u32) -> (r: String)
    ensures
        r@ == device_label(strings(names@), dev),
{
    if (dev as usize) < names.len() {
        names[dev as usize].clone()
    } else {
        let mut r = "GPU ".to_owned();
        r.append(dec_text(dev as u64).as_str());
        r
    }
}

/// The workers' names: the GPUs', and the CPU's if it mines.
pub open spec fn worker_names(gpus: Seq<Seq<char>>, threads: usize) -> Seq<Seq<char>> {
    if threads > 0 { gpus.push("CPU ("@ + dec(threads as nat) + " threads)"@) } else { gpus }
}

/// Notes which workers are ready; gives their names.
pub fn workers_ready(stats: &mut Stats, gpus: Vec<String>, threads: usize) -> (r: Vec<String>)
    ensures
        strings(r@) == worker_names(strings(gpus@), threads),
        final(stats)@ == old(stats)@.logged(
            dec(r@.len()) + " worker(s) ready: "@ + joined(strings(r@), ", "@),
        ),
{
    let ghost before = strings(gpus@);
    let mut r = gpus;
    if threads > 0 {
        let mut cpu = "CPU (".to_owned();
        cpu.append(dec_text(threads as u64).as_str());
        cpu.append(" threads)");
        r.push(cpu);
    }
    assert(strings(r@) =~= worker_names(before, threads));
    let mut line = dec_text(r.len() as u64);
    line.append(" worker(s) ready: ");
    line.append(join(&r, ", ").as_str());
    assert(strings(r@) =~= Seq::new(r@.len(), |i: int| r@[i]@));
    stats.logline(line);
    r
}

/// Which workers are down: the grinders that are, and never the CPU.
pub open spec fn workers_down(g: Seq<GrinderV>, threads: usize) -> Seq<bool> {
    let gpus = Seq::new(g.len(), |i: int| g[i].dead);
    if threads > 0 { gpus.push(false) } else { gpus }
}

/// The grinders of a list.
pub open spec fn grinders(v: Seq<Grinder>) -> Seq<GrinderV> {
    Seq::new(v.len(), |i: int| v[i]@)
}

/// Tells which workers are down.
pub fn dead_workers(g: &Vec<Grinder>, threads: usize) -> (r: Vec<bool>)
    ensures
        r@ == workers_down(grinders(g@), threads),
{
    let mut r: Vec<bool> = Vec::new();
    let mut i: usize = 0;
    while i < g.len()
        invariant
            i <= g@.len(),
            r@ == Seq::new(i as nat, |j: int| grinders(g@)[j].dead),
        decreases g@.len() - i,
    {
        r.push(g[i].dead);
        i = i + 1;
    }
    if threads > 0 {
        r.push(false);
    }
    r
}

/// After a dead grinder was started again, or could not be: a new one keeps
/// the count of failures until it has proved stable.
pub open spec fn restarted(g: GrinderV, new: Option<GrinderV>, st: StatsV, now: u64) -> (GrinderV, StatsV) {
    match new {
        Some(n) => (
            GrinderV { fails: g.fails, ..n },
            st.alerted("GPU back online"@, n.name + " is hashing again"@),
        ),
        None => {
            let g2 = GrinderV { died_at: now, fails: more_fails(g.fails), ..g };
            (
                g2,
                st.logged(
                    "✗ "@ + g.name + " still not starting — next try in "@ + dec(retry_secs(g2.fails) as nat) + "s"@,
                ),
            )
        },
    }
}

/// Notes whether a dead grinder could be started again.
pub fn respawned(g: &mut Grinder, new: Option<Grinder>, stats: &mut Stats, now: u64)
    ensures
        (final(g)@, final(stats)@) == restarted(
            old(g)@,
            match new {
                Some(n) => Some(n@),
                None => None,
            },
            old(stats)@,
            now,
        ),
{
    match new {
        Some(n) => {
            let fails: u32 = g.fails;
            *g = n;
            g.fails = fails;
            let mut body = g.name.clone();
            body.append(" is hashing again");
            stats.alert("GPU back online", body.as_str());
        },
        None => {
            g.died_at = now;
            g.fails = count_fail(g.fails);
            let mut line = "✗ ".to_owned();
            line.append(g.name.as_str());
            line.append(" still not starting — next try in ");
            line.append(dec_text(g.retry_in()).as_str());
            line.append("s");
            stats.logline(line);
        },
    }
}

/// After the troubles of a sweep were reported.
pub open spec fn troubles_reported(st: StatsV, events: Seq<Seq<char>>) -> StatsV
    decreases events.len(),
{
    if events.len() == 0 {
        st
    } else {
        troubles_reported(st, events.drop_last()).alerted("GPU down"@, events.last())
    }
}

/// Reports the troubles of a sweep.
pub fn report_troubles(stats: &mut Stats, events: &Vec<String>)
    ensures
        final(stats)@ == troubles_reported(old(stats)@, strings(events@)),
{
    let ghost st0 = stats@;
    let mut i: usize = 0;
    assert(strings(events@).take(0).len() == 0);
    while i < events.len()
        invariant
            i <= events@.len(),
            stats@ == troubles_reported(st0, strings(events@).take(i as int)),
        decreases events@.len() - i,
    {
        assert(strings(events@).take(i + 1).drop_last() =~= strings(events@).take(i as int));
        stats.alert("GPU down", events[i].as_str());
        i = i + 1;
    }
    assert(strings(events@).take(i as int) =~= strings(events@));
}

// ------------------------------------------------------------------ history

/// How many hashrate samples are kept.
pub const SAMPLES: usize = 512;

/// The last `n` items of a sequence.
pub open spec fn last_of(s: Seq<u64>, n: nat) -> Seq<u64> {
    if s.len() <= n { s } else { s.skip(s.len() - n) }
}

/// Adds a hashrate sample. Only the last ones are kept.
pub fn sample(h: &mut VecDeque<u64>, v: u64)
    ensures
        final(h)@ == last_of(old(h)@.push(v), SAMPLES as nat),
{
    h.push_back(v);
    let ghost all = h@;
    let ghost mut k: int = 0;
    assert(all.skip(0) =~= all);
    while h.len() > SAMPLES
        invariant
            0 <= k <= all.len(),
            h@ == all.skip(k),
            k > 0 ==> all.len() - k >= SAMPLES,
        decreases h.len(),
    {
        let _ = h.pop_front();
        proof {
            assert(all.skip(k).skip(1) =~= all.skip(k + 1));
            k = k + 1;
        }
    }
}

/// The last samples, as many as fit in a chart of a width: at least one.
pub fn recent_samples(h: &VecDeque<u64>, width: usize) -> (r: Vec<u64>)
    ensures
        r@ == last_of(h@, if width < 1 { 1 } else { width as nat }),
{
    let n: usize = if width < 1 { 1 } else { width };
    let from: usize = if h.len() <= n { 0 } else { h.len() - n };
    let mut r: Vec<u64> = Vec::new();
    let mut i: usize = from;
    while i < h.len()
        invariant
            from <= i <= h@.len(),
            r@ == h@.subrange(from as int, i as int),
        decreases h@.len() - i,
    {
        r.push(h[i]);
        i = i + 1;
    }
    assert(r@ =~= last_of(h@, n as nat));
    r
}

/// Whether a value is the largest of a sequence; 0 stands for an empty one.
pub open spec fn is_peak(s: Seq<u64>, p: u64) -> bool {
    if s.len() == 0 { p == 0 } else { s.contains(p) && forall|i: int| 0 <= i < s.len() ==> s[i] <= p }
}

/// The sum of a sequence.
pub open spec fn total_of(s: Seq<u64>) -> nat
    decreases s.len(),
{
    if s.len() == 0 { 0 } else { total_of(s.drop_last()) + s.last() as nat }
}

/// The largest sample, and the sum of all.
pub fn peak_and_total(h: &VecDeque<u64>) -> (r: (u64, u128))
    ensures
        is_peak(h@, r.0),
        r.1 == total_of(h@),
{
    let mut peak: u64 = 0;
    let mut total: u128 = 0;
    let mut i: usize = 0;
    assert(h@.take(0).len() == 0);
    while i < h.len()
        invariant
            i <= h@.len(),
            total == total_of(h@.take(i as int)),
            total <= i * 0xffff_ffff_ffff_ffff,
            i > 0 ==> exists|j: int| 0 <= j < i && h@[j] == peak,
            i == 0 ==> peak == 0,
            forall|j: int| 0 <= j < i ==> h@[j] <= peak,
        decreases h@.len() - i,
    {
        assert(h@.take(i + 1).drop_last() =~= h@.take(i as int));
        assert((i + 1) * 0xffff_ffff_ffff_ffff <= 0xffff_ffff_ffff_ffff * 0x1_0000_0000_0000_0000) by (nonlinear_arith)
            requires
                i < 0xffff_ffff_ffff_ffff,
        ;
        if i == 0 || h[i] > peak {
            peak = h[i];
            assert(h@[i as int] == peak);
        }
        total = total + h[i] as u128;
        i = i + 1;
    }
    assert(h@.take(i as int) =~= h@);
    (peak, total)
}

/// Law: something always mines. Where no grinder has started the CPU does.
pub proof fn law_something_mines(gpus: nat, asked: usize, cores: usize)
    requires
        cores > 0,
    ensures
        gpus > 0 || threads_used(gpus, asked, cores) > 0,
{
}

// --------------------------------------------------------------------- laws

/// Law: a nonce solves a block exactly where the job names a network target,
/// the nonce can be hashed, and its hash is within that target. What is merely
/// a share does not count.
pub proof fn law_blocks_meet_the_network_target(w: WorkUnitV, nonce: Seq<char>, nbits: u32)
    ensures
        solves(w, nonce, nbits) ==> nonce_hash_of(w.prevhash, w.ntime, w.work_root, nonce) is Some && be_value(
            nonce_hash_of(w.prevhash, w.ntime, w.work_root, nonce)->0,
        ) <= nbits_value(nbits),
        nbits != 0 && nonce_hash_of(w.prevhash, w.ntime, w.work_root, nonce) is Some && be_value(
            nonce_hash_of(w.prevhash, w.ntime, w.work_root, nonce)->0,
        ) <= nbits_value(nbits) ==> solves(w, nonce, nbits),
        !solves(w, nonce, 0),
{
}

/// Law: the user's work never waits for the donation's pool. Where the user's
/// pool has given an extranonce and a job something is mined; the donation is
/// mined only where it is due and its own pool has given both.
pub proof fn law_donation_never_idles_the_miner(due: bool, dev: Option<SessionV>, user: SessionV)
    ensures
        ({
            let own = user.en1 is Some && user.job is Some && user.job->0.len() >= 8;
            let gift = dev is Some && dev->0.en1 is Some && dev->0.job is Some && dev->0.job->0.len() >= 8;
            let c = next_choice(due, dev, user);
            &&& own ==> c != Choice::Nobody
            &&& c == Choice::Donation <==> due && gift
            &&& c == Choice::Own <==> own && !(due && gift)
            &&& c == Choice::Nobody <==> !own && !(due && gift)
        }),
{
}

/// Law: work is dropped exactly where the pool's latest job names another
/// previous block.
pub proof fn law_only_a_new_block_drops_work(job: Option<Seq<JsonV>>, prevhash: Seq<char>)
    ensures
        !on_tip(job, prevhash) <==> job is Some && job->0.len() > 1 && job->0[1] is Text && job->0[1]->Text_0 != prevhash,
{
}

/// Law: the network target is the job's seventh item, read as a hexadecimal
/// number of 32 bits; a job without one names none.
pub proof fn law_network_target_is_the_jobs(job: Seq<JsonV>, n: nat)
    ensures
        job.len() > 6 && job[6] is Text && parsed(job[6]->Text_0, 16, 0xffff_ffff) == Some(n) ==> job_nbits(job) == n,
        job.len() <= 6 || !(job[6] is Text) || parsed(job[6]->Text_0, 16, 0xffff_ffff) is None ==> job_nbits(job) == 0,
{
    if job.len() > 6 && job[6] is Text && parsed(job[6]->Text_0, 16, 0xffff_ffff) == Some(n) {
        assert(n <= 0xffff_ffff);
    }
}

/// Law: after `n` failures in a row the engine waits 3 seconds doubled `n - 1`
/// times, and a minute at most.
pub proof fn law_connect_wait_doubles(fails: u32)
    requires
        fails >= 1,
    ensures
        3 * pow2((fails - 1) as nat) <= 60 ==> wait_secs(fails) == 3 * pow2((fails - 1) as nat),
        3 * pow2((fails - 1) as nat) > 60 ==> wait_secs(fails) == 60,
        wait_secs(0) == 3,
{
    lemma2_to64();
    if fails > 6 {
        lemma_pow2_strictly_increases(5, (fails - 1) as nat);
    }
}

/// Law: a failure to connect takes the miner offline and is logged; the third
/// in a row, and no other, is told as an alert. The counts stay.
pub proof fn law_outage_is_told_once(st: StatsV, pool: Seq<char>, fails: u32)
    ensures
        ({
            let st2 = unreachable_pool(st, pool, fails);
            &&& !st2.connected
            &&& st2.accepted == st.accepted && st2.rejected == st.rejected && st2.blocks == st.blocks && st2.donated
                == st.donated && st2.paused == st.paused && st2.addr == st.addr
            &&& fails == 3 ==> st2.outbox.len() == st.outbox.len() + 1 && st2.outbox.last().title
                == "pool unreachable"@ && st2.unsaved.len() == st.unsaved.len() + 2
            &&& fails != 3 ==> st2.outbox == st.outbox && st2.unsaved.len() == st.unsaved.len() + 1
        }),
{
}

/// Law: a connection takes the miner online and is logged; it is told as an
/// alert exactly where an outage was told before. The counts stay.
pub proof fn law_recovery_is_told_after_an_outage(
    st: StatsV,
    pool: Seq<char>,
    login: Seq<char>,
    fails: u32,
    donation: Option<Seq<char>>,
)
    ensures
        ({
            let st2 = reached_pool(st, pool, login, fails, donation);
            &&& st2.connected
            &&& st2.accepted == st.accepted && st2.rejected == st.rejected && st2.blocks == st.blocks && st2.donated
                == st.donated && st2.paused == st.paused && st2.addr == st.addr
            &&& fails >= 3 ==> st2.outbox.len() == st.outbox.len() + 1 && st2.outbox.last().title
                == "pool reachable again"@
            &&& fails < 3 ==> st2.outbox == st.outbox
            &&& st2.unsaved.len() == st.unsaved.len() + 1 + (if fails >= 3 { 1int } else { 0 }) + (if donation is Some {
                1int
            } else {
                0
            })
        }),
{
}

/// Law: a session is given up only where the pool closed it, sent nothing for
/// 90 seconds, or no job for as long as allowed; then the miner is offline.
pub proof fn law_watchdogs_end_the_session(
    user: SessionV,
    dev: Option<SessionV>,
    st: StatsV,
    rates: RatesV,
    retry: u64,
    t: Tick,
    now: u64,
)
    ensures
        ({
            let e = round(user, dev, st, rates, retry, t, now);
            let quiet = e.user.idle <= now && now - e.user.idle > 90_000_000_000;
            let starved = e.user.last_notify <= now && now - e.user.last_notify > t.stall;
            &&& e.action == Action::Reconnect <==> t.read is Closed || quiet || starved
            &&& e.action == Action::Reconnect ==> !e.stats.connected
            &&& e.action == Action::Pause <==> e.action != Action::Reconnect && t.paused
            &&& e.action == Action::Wait <==> e.action != Action::Reconnect && !t.paused && t.active == Some(false)
            &&& e.action == Action::Work ==> e.rates == rates
        }),
{
}

/// Law: the donation's session is opened again only where hashrate is donated,
/// none is open, and the last try is more than 20 seconds ago; one that its
/// pool closed is dropped, and the user's pool does not notice.
pub proof fn law_donation_session_is_reopened(
    user: SessionV,
    dev: Option<SessionV>,
    st: StatsV,
    rates: RatesV,
    retry: u64,
    t: Tick,
    now: u64,
)
    requires
        !(t.read is Closed),
    ensures
        ({
            let e = round(user, dev, st, rates, retry, t, now);
            &&& dev is Some && t.dev_read is Closed ==> e.dev is None && !e.want_dev && e.dev_retry == now
            &&& dev is Some && !(t.dev_read is Closed) ==> e.dev is Some && !e.want_dev && e.dev_retry == retry
            &&& dev is None ==> e.dev is None && (e.want_dev <==> t.donating && retry <= now && now - retry
                > 20_000_000_000)
            &&& e.want_dev ==> e.dev_retry == now
            &&& dev is None && !e.want_dev ==> e.dev_retry == retry
            &&& e.user == pumped(user, st, t.read, now).0
        }),
{
}

/// Law: the log tells each change between pausing and mining, once.
pub proof fn law_pauses_are_logged(st: StatsV, paused: bool)
    ensures
        pause_noted(st, paused).paused == paused,
        st.paused == paused ==> pause_noted(st, paused) == st,
        st.paused != paused ==> pause_noted(st, paused).unsaved.len() == st.unsaved.len() + 1 && pause_noted(
            st,
            paused,
        ).unsaved.last() == if paused { "⏸ mining paused"@ } else { "▶ mining resumed"@ },
{
}

/// Law: a grinder that comes back is the new one, but keeps the count of its
/// failures; one that does not waits anew, with one failure more. Only a return
/// is told as an alert.
pub proof fn law_restarts_keep_the_failures(g: GrinderV, new: Option<GrinderV>, st: StatsV, now: u64)
    ensures
        ({
            let (g2, st2) = restarted(g, new, st, now);
            &&& new is Some ==> {
                &&& g2.fails == g.fails && g2.name == new->0.name && g2.dev == new->0.dev && g2.dead == new->0.dead
                &&& g2.died_at == new->0.died_at && g2.started_at == new->0.started_at
                &&& st2.outbox.len() == st.outbox.len() + 1 && st2.outbox.last().title == "GPU back online"@
            }
            &&& new is None ==> {
                &&& g.fails < u32::MAX ==> g2.fails == g.fails + 1
                &&& g2.died_at == now && g2.dead == g.dead && g2.name == g.name && g2.dev == g.dev && g2.started_at
                    == g.started_at
                &&& st2.outbox == st.outbox && st2.unsaved.len() == st.unsaved.len() + 1
            }
        }),
{
}

/// Law: every trouble of a sweep is told, in order.
pub proof fn law_troubles_are_told(st: StatsV, events: Seq<Seq<char>>, i: int)
    requires
        0 <= i < events.len(),
    ensures
        troubles_reported(st, events).outbox.len() == st.outbox.len() + events.len(),
        troubles_reported(st, events).outbox[st.outbox.len() + i].title == "GPU down"@,
        troubles_reported(st, events).outbox[st.outbox.len() + i].body == events[i],
    decreases events.len(),
{
    let d = events.drop_last();
    if d.len() > 0 {
        law_troubles_are_told(st, d, if i < d.len() { i } else { 0 });
        if i < d.len() {
            assert(d[i] == events[i]);
        }
    } else {
        assert(troubles_reported(st, d) == st);
    }
}

/// Law: of a history the newest samples are kept, as many as there is room for,
/// in their order.
pub proof fn law_newest_samples_are_kept(s: Seq<u64>, n: nat)
    ensures
        last_of(s, n).len() == if s.len() < n { s.len() } else { n },
        forall|i: int|
            0 <= i < last_of(s, n).len() ==> #[trigger] last_of(s, n)[i] == s[s.len() - last_of(s, n).len() + i],
{
}

/// Law: each worker that is down is shown so, and no other; the CPU never is.
pub proof fn law_workers_are_shown_down(g: Seq<GrinderV>, threads: usize)
    ensures
        workers_down(g, threads).len() == g.len() + if threads > 0 { 1int } else { 0 },
        forall|i: int| 0 <= i < g.len() ==> #[trigger] workers_down(g, threads)[i] == g[i].dead,
        threads > 0 ==> !workers_down(g, threads).last(),
{
}

/// Law: a sum of samples is the sum of its parts.
pub proof fn law_totals_add_up(a: Seq<u64>, b: Seq<u64>, x: u64)
    ensures
        total_of(seq![x]) == x,
        total_of(a + b) == total_of(a) + total_of(b),
    decreases b.len(),
{
    assert(seq![x].drop_last() =~= Seq::<u64>::empty());
    assert(total_of(Seq::<u64>::empty()) == 0);
    if b.len() == 0 {
        assert(a + b =~= a);
    } else {
        law_totals_add_up(a, b.drop_last(), x);
        assert((a + b).drop_last() =~= a + b.drop_last());
    }
}

/// Law: while nothing is hashed every rate is zero, and no worker is left out.
pub proof fn law_rest_means_no_rate(r: RatesV, i: int)
    requires
        0 <= i < r.workers.len(),
    ensures
        resting(r).total.bits == 0,
        resting(r).workers.len() == r.workers.len(),
        resting(r).workers[i].bits == 0,
{
}

/// Law: what ends a session is told: that nothing came in for 90 seconds, or
/// that no job came for as long as allowed.
pub proof fn law_silences_are_told(s: SessionV, st: StatsV, stall: u64, now: u64)
    ensures
        ({
            let e = silence_noted(s, st, stall, now);
            let quiet = now - s.idle > 90_000_000_000;
            &&& e.unsaved.len() == st.unsaved.len() + 1
            &&& quiet ==> e.unsaved.last() == "no data for 90s — reconnecting…"@
            &&& !quiet ==> e.unsaved.last() == "no new job in "@ + dec((stall / 1_000_000_000) as nat)
                + "s — resubscribing…"@
            &&& !e.connected && e.accepted == st.accepted && e.rejected == st.rejected && e.blocks == st.blocks
        }),
{
}

/// Law: each try to connect is logged with the pool it went to and, where it
/// failed, with the wait until the next one.
pub proof fn law_connections_are_logged(
    st: StatsV,
    pool: Seq<char>,
    login: Seq<char>,
    fails: u32,
    donation: Option<Seq<char>>,
)
    ensures
        unreachable_pool(st, pool, fails).unsaved[st.unsaved.len() as int] == "connection failed to "@ + pool
            + " — retry in "@ + dec(wait_secs(fails) as nat) + "s (attempt "@ + dec(fails as nat) + ")"@,
        fails == 3 ==> unreachable_pool(st, pool, fails).outbox.last().body == pool
            + " — 3 failed attempts, retrying with backoff · not mining"@,
        reached_pool(st, pool, login, fails, donation).unsaved[st.unsaved.len() as int] == "connected to "@ + pool
            + " as "@ + login,
        fails >= 3 ==> reached_pool(st, pool, login, fails, donation).outbox.last().body == "connected to "@ + pool
            + " after "@ + dec(fails as nat) + " attempts · mining"@,
        donation matches Some(pct) ==> reached_pool(st, pool, login, fails, donation).unsaved.last()
            == "hashrate donation "@ + pct + "% → PyBLØCK"@,
{
}

/// Law: without an address the miner is offline and says why; no count changes.
pub proof fn law_no_address_no_mining(st: StatsV)
    ensures
        !addressless(st).connected,
        addressless(st).unsaved == st.unsaved.push("no address set — go to SETUP [6] to set/generate one"@),
        addressless(st).accepted == st.accepted && addressless(st).rejected == st.rejected && addressless(st).blocks
            == st.blocks && addressless(st).outbox == st.outbox,
{
}

/// Law: all cores mine exactly where no grinder has started and no number of
/// threads was asked for.
pub proof fn law_cores_stand_in_for_grinders(gpus: nat, asked: usize, cores: usize)
    ensures
        asked > 0 ==> threads_used(gpus, asked, cores) == asked,
        asked == 0 && gpus > 0 ==> threads_used(gpus, asked, cores) == 0,
        asked == 0 && gpus == 0 ==> threads_used(gpus, asked, cores) == cores,
{
}

/// Law: a device goes by its own name, and by its number where it has none; the
/// CPU comes after the GPUs, and only where it mines.
pub proof fn law_workers_are_named(names: Seq<Seq<char>>, dev: u32, threads: usize, i: int)
    ensures
        dev < names.len() ==> device_label(names, dev) == names[dev as int],
        dev >= names.len() ==> device_label(names, dev) == "GPU "@ + dec(dev as nat),
        worker_names(names, threads).len() == names.len() + if threads > 0 { 1nat } else { 0 },
        0 <= i < names.len() ==> worker_names(names, threads)[i] == names[i],
        threads > 0 ==> worker_names(names, threads).last() == "CPU ("@ + dec(threads as nat) + " threads)"@,
{
}

/// Law: a peak is in the sequence and nothing in it is larger, so there is only
/// one.
pub proof fn law_one_peak(s: Seq<u64>, p: u64, q: u64, i: int)
    requires
        is_peak(s, p),
        is_peak(s, q),
    ensures
        p == q,
        s.len() == 0 ==> p == 0,
        0 <= i < s.len() ==> s[i] <= p && s.contains(p),
{
    if s.len() > 0 {
        let a = choose|a: int| 0 <= a < s.len() && s[a] == p;
        let b = choose|b: int| 0 <= b < s.len() && s[b] == q;
        assert(s[a] <= q && s[b] <= p);
    }
}

/// Law: a winner that cannot be hashed here is never submitted, and one that can
/// counts by its difficulty alone.
pub proof fn law_unhashed_winners_do_not_count(h: [u8; 32], reaches: bool)
    ensures
        !counts_as_share(None, reaches),
        counts_as_share(Some(h), reaches) == reaches,
{
}

} // verus!
