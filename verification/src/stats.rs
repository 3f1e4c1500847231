//! The running counts of a session and its log.

use crate::double::Double;
use std::collections::VecDeque;
use vstd::prelude::*;

verus! {

/// How many log lines are kept.
pub const LOG_LINES: usize = 300;

/// An alert on its way out: what the desktop, Telegram and webhook channels
/// are handed.
#[derive(Debug)]
pub struct Alert {
    pub title: String,
    pub body: String,
}

/// An alert by its texts.
pub struct AlertV {
    pub title: Seq<char>,
    pub body: Seq<char>,
}

impl View for Alert {
    type V = AlertV;

    open spec fn view(&self) -> AlertV {
        AlertV { title: self.title@, body: self.body@ }
    }
}

/// Counts, log and outgoing alerts of a mining session.
#[derive(Debug)]
pub struct Stats {
    /// The address mined to.
    pub addr: String,
    /// Shares accepted, shares rejected and blocks found.
    pub accepted: u64,
    pub rejected: u64,
    pub blocks: u64,
    /// Blocks found for the donation.
    pub donated: u64,
    /// The pool's share difficulty, and its leading zero bits.
    pub diff: Double,
    pub bits: u32,
    /// Whether the stratum session is up.
    pub connected: bool,
    /// Whether mining is paused.
    pub paused: bool,
    /// Alerts raised so far.
    pub alerts_sent: u64,
    /// Whether alerts ring the terminal bell, and whether it is to ring now.
    pub bell: bool,
    pub ring_bell: bool,
    /// The last log lines.
    pub log: VecDeque<String>,
    /// Log lines that are not in the log file yet.
    pub unsaved: Vec<String>,
    /// Alerts that have not been sent yet.
    pub outbox: Vec<Alert>,
}

/// `Stats` by what it holds.
#[verifier::ext_equal]
pub struct StatsV {
    pub addr: Seq<char>,
    pub accepted: u64,
    pub rejected: u64,
    pub blocks: u64,
    pub donated: u64,
    pub diff: Double,
    pub bits: u32,
    pub connected: bool,
    pub paused: bool,
    pub alerts_sent: u64,
    pub bell: bool,
    pub ring_bell: bool,
    pub log: Seq<Seq<char>>,
    pub unsaved: Seq<Seq<char>>,
    pub outbox: Seq<AlertV>,
}

/// The texts of a list of strings.
pub open spec fn strings(v: Seq<String>) -> Seq<Seq<char>> {
    Seq::new(v.len(), |i: int| v[i]@)
}

/// The texts of a list of alerts.
pub open spec fn alerts(v: Seq<Alert>) -> Seq<AlertV> {
    Seq::new(v.len(), |i: int| v[i]@)
}

impl View for Stats {
    type V = StatsV;

    open spec fn view(&self) -> StatsV {
        StatsV {
            addr: self.addr@,
            accepted: self.accepted,
            rejected: self.rejected,
            blocks: self.blocks,
            donated: self.donated,
            diff: self.diff,
            bits: self.bits,
            connected: self.connected,
            paused: self.paused,
            alerts_sent: self.alerts_sent,
            bell: self.bell,
            ring_bell: self.ring_bell,
            log: strings(self.log@),
            unsaved: strings(self.unsaved@),
            outbox: alerts(self.outbox@),
        }
    }
}

/// The next count. A count that has run full starts again at 0.
pub open spec fn next_count(n: u64) -> u64 {
    if n == u64::MAX { 0 } else { (n + 1) as u64 }
}

/// The next count.
pub fn count_up(n: u64) -> (r: u64)
    ensures
        r == next_count(n),
{
    if n == u64::MAX { 0 } else { n + 1 }
}

/// The last lines of a log, as many as are kept.
pub open spec fn last_lines(s: Seq<Seq<char>>) -> Seq<Seq<char>> {
    if s.len() <= LOG_LINES { s } else { s.skip(s.len() - LOG_LINES) }
}

impl StatsV {
    /// A fresh session's counts.
    pub open spec fn fresh() -> StatsV {
        StatsV {
            addr: Seq::empty(),
            accepted: 0,
            rejected: 0,
            blocks: 0,
            donated: 0,
            diff: Double { bits: 0 },
            bits: 0,
            connected: false,
            paused: false,
            alerts_sent: 0,
            bell: true,
            ring_bell: false,
            log: Seq::empty(),
            unsaved: Seq::empty(),
            outbox: Seq::empty(),
        }
    }

    /// After a log line.
    pub open spec fn logged(self, line: Seq<char>) -> StatsV {
        StatsV { log: last_lines(self.log.push(line)), unsaved: self.unsaved.push(line), ..self }
    }

    /// After an alert: it is logged, counted, rings the bell if that is on,
    /// and waits to be sent.
    pub open spec fn alerted(self, title: Seq<char>, body: Seq<char>) -> StatsV {
        let s = self.logged("🔔 "@ + title + " — "@ + body);
        StatsV {
            alerts_sent: next_count(s.alerts_sent),
            ring_bell: s.ring_bell || s.bell,
            outbox: s.outbox.push(AlertV { title, body }),
            ..s
        }
    }
}

impl Stats {
    /// A fresh session's counts.
    pub fn new() -> (r: Stats)
        ensures
            r@ == StatsV::fresh(),
    {
        let r = Stats {
            addr: String::new(),
            accepted: 0,
            rejected: 0,
            blocks: 0,
            donated: 0,
            diff: Double { bits: 0 },
            bits: 0,
            connected: false,
            paused: false,
            alerts_sent: 0,
            bell: true,
            ring_bell: false,
            log: VecDeque::new(),
            unsaved: Vec::new(),
            outbox: Vec::new(),
        };
        assert(r@ =~= StatsV::fresh());
        r
    }

    /// Logs a line. Only the last lines are kept.
    pub fn logline(&mut self, s: String)
        ensures
            final(self)@ == old(self)@.logged(s@),
    {
        let ghost before = self@;
        let copy = s.clone();
        self.unsaved.push(copy);
        self.log.push_back(s);
        assert(strings(self.log@) =~= before.log.push(s@));
        assert(strings(self.unsaved@) =~= before.unsaved.push(s@));
        let ghost all = strings(self.log@);
        let ghost mut k: int = 0;
        assert(all.skip(0) =~= all);
        while self.log.len() > LOG_LINES
            invariant
                0 <= k <= all.len(),
                strings(self.log@) == all.skip(k),
                k > 0 ==> all.len() - k >= LOG_LINES,
                self@ == (StatsV { log: all.skip(k), unsaved: before.unsaved.push(s@), ..before }),
            decreases self.log.len(),
        {
            let ghost was = self.log@;
            let _ = self.log.pop_front();
            proof {
                assert(strings(self.log@) =~= strings(was).skip(1));
                assert(all.skip(k).skip(1) =~= all.skip(k + 1));
                k = k + 1;
            }
        }
        assert(self@ =~= before.logged(s@));
    }

    /// Raises an alert.
    pub fn alert(&mut self, title: &str, body: &str)
        ensures
            final(self)@ == old(self)@.alerted(title@, body@),
    {
        let ghost before = self@;
        let mut line = "🔔 ".to_owned();
        line.append(title);
        line.append(" — ");
        line.append(body);
        self.logline(line);
        let ghost mid = self@;
        self.alerts_sent = count_up(self.alerts_sent);
        if self.bell {
            self.ring_bell = true;
        }
        self.outbox.push(Alert { title: title.to_owned(), body: body.to_owned() });
        proof {
            assert(alerts(self.outbox@) =~= mid.outbox.push(AlertV { title: title@, body: body@ }));
            assert(self@ =~= before.alerted(title@, body@));
        }
    }
}

/// Law: a log within its bound stays within it.
pub proof fn law_log_stays_bounded(s: StatsV, line: Seq<char>)
    ensures
        s.logged(line).log.len() <= LOG_LINES,
        s.logged(line).log.last() == line,
{
}

/// Law: a log line is the newest line and waits to be written; the lines before
/// it stay in order, the oldest going first where there are too many. Nothing
/// else changes.
pub proof fn law_lines_are_logged_in_order(s: StatsV, line: Seq<char>)
    requires
        s.log.len() <= 300,
    ensures
        ({
            let t = s.logged(line);
            &&& t.unsaved == s.unsaved.push(line)
            &&& s.log.len() < 300 ==> t.log == s.log.push(line)
            &&& s.log.len() == 300 ==> t.log == s.log.drop_first().push(line)
            &&& t.addr == s.addr && t.accepted == s.accepted && t.rejected == s.rejected && t.blocks == s.blocks
                && t.donated == s.donated && t.diff == s.diff && t.bits == s.bits && t.connected == s.connected
                && t.paused == s.paused && t.alerts_sent == s.alerts_sent && t.bell == s.bell && t.ring_bell
                == s.ring_bell && t.outbox == s.outbox
        }),
{
    if s.log.len() == 300 {
        assert(s.logged(line).log =~= s.log.drop_first().push(line));
    }
}

/// Law: an alert is logged, counted and waits to be sent with its title and
/// text; it rings the bell exactly where that is on. No count of shares or
/// blocks changes.
pub proof fn law_alerts_go_out(s: StatsV, title: Seq<char>, body: Seq<char>)
    requires
        s.alerts_sent < u64::MAX,
    ensures
        ({
            let t = s.alerted(title, body);
            &&& t.outbox.len() == s.outbox.len() + 1
            &&& t.outbox.drop_last() == s.outbox
            &&& t.outbox.last().title == title && t.outbox.last().body == body
            &&& t.alerts_sent == s.alerts_sent + 1
            &&& s.bell ==> t.ring_bell
            &&& !s.bell ==> t.ring_bell == s.ring_bell
            &&& t.unsaved.len() == s.unsaved.len() + 1
            &&& t.unsaved.last() == "🔔 "@ + title + " — "@ + body
            &&& t.accepted == s.accepted && t.rejected == s.rejected && t.blocks == s.blocks && t.donated == s.donated
                && t.diff == s.diff && t.bits == s.bits && t.connected == s.connected && t.paused == s.paused && t.bell
                == s.bell && t.addr == s.addr
        }),
{
    assert(s.alerted(title, body).outbox.drop_last() =~= s.outbox);
}

/// Law: counting goes up by one, and starts again where a count is full.
pub proof fn law_counts_go_up(n: u64)
    ensures
        n < u64::MAX ==> next_count(n) == n + 1,
        next_count(u64::MAX) == 0,
{
}

/// Law: the counts start at zero, with nothing logged, sent or waiting, offline
/// and not paused.
pub proof fn law_counts_start_at_zero()
    ensures
        ({
            let s = StatsV::fresh();
            &&& s.accepted == 0 && s.rejected == 0 && s.blocks == 0 && s.donated == 0 && s.alerts_sent == 0
            &&& s.log.len() == 0 && s.unsaved.len() == 0 && s.outbox.len() == 0
            &&& !s.connected && !s.paused && !s.ring_bell && s.bell
        }),
{
}

} // verus!
