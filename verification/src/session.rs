//! A stratum session: what the pool's lines do to it and to the counts.

use crate::config::VERSION;
use crate::double::{exactly, lemma_whole_is_there, Double, EXACT};
use crate::json::{
    entries_map, entry_text, json_text, json_value, object_text, parse_json, Entry, Json, JsonV,
    Scalar,
};
use crate::stats::{count_up, next_count, Stats, StatsV};
use crate::target::{floor_pot, law_whole_difficulty_asks_for_its_bits, pot};
use crate::text::{dec, dec_text, same};
use crate::work::{trees, unit_of, work_unit, WorkUnit, WorkUnitV};
use vstd::arithmetic::power2::pow2;
use vstd::prelude::*;
use vstd::slice::slice_subrange;
use vstd::utf8::encode_utf8;

verus! {

/// How long a submitted share waits for the pool's answer, in nanoseconds.
pub const ANSWER_WAIT: u64 = 120_000_000_000;

// ----------------------------------------------------------------- pending

/// A submitted share that the pool has not answered yet.
#[derive(Debug)]
pub struct Pending {
    pub id: u64,
    pub nonce: String,
    pub is_block: bool,
    pub height: u64,
    /// When it was sent.
    pub at: u64,
}

/// A pending share by what it holds.
pub struct PendingV {
    pub id: u64,
    pub nonce: Seq<char>,
    pub is_block: bool,
    pub height: u64,
    pub at: u64,
}

impl View for Pending {
    type V = PendingV;

    open spec fn view(&self) -> PendingV {
        PendingV { id: self.id, nonce: self.nonce@, is_block: self.is_block, height: self.height, at: self.at }
    }
}

/// The shares of a list.
pub open spec fn shares(v: Seq<Pending>) -> Seq<PendingV> {
    Seq::new(v.len(), |i: int| v[i]@)
}

/// Where the share with an id stands, or -1.
pub open spec fn place_of(s: Seq<PendingV>, id: u64) -> int
    decreases s.len(),
{
    if s.len() == 0 {
        -1
    } else if s.last().id == id {
        s.len() - 1
    } else {
        place_of(s.drop_last(), id)
    }
}

/// The shares without the one with an id.
pub open spec fn answered(s: Seq<PendingV>, id: u64) -> Seq<PendingV> {
    if place_of(s, id) >= 0 { s.remove(place_of(s, id)) } else { s }
}

/// The time passed since `at`; none if it lies ahead.
pub open spec fn passed(at: u64, now: u64) -> int {
    if now >= at { now - at } else { 0 }
}

/// The time passed since `at`; none if it lies ahead.
pub fn since(at: u64, now: u64) -> (r: u64)
    ensures
        r == passed(at, now),
{
    if now >= at { now - at } else { 0 }
}

/// The shares that have not waited too long, in order.
pub open spec fn still_waiting(s: Seq<PendingV>, now: u64) -> Seq<PendingV>
    decreases s.len(),
{
    if s.len() == 0 {
        s
    } else if passed(s[0].at, now) < ANSWER_WAIT {
        seq![s[0]] + still_waiting(s.drop_first(), now)
    } else {
        still_waiting(s.drop_first(), now)
    }
}

proof fn lemma_place(s: Seq<PendingV>, id: u64)
    ensures
        -1 <= place_of(s, id) < s.len(),
        place_of(s, id) >= 0 ==> s[place_of(s, id)].id == id,
        forall|j: int| place_of(s, id) < j < s.len() ==> (#[trigger] s[j]).id != id,
    decreases s.len(),
{
    if s.len() > 0 && s.last().id != id {
        lemma_place(s.drop_last(), id);
        assert forall|j: int| place_of(s, id) < j < s.len() implies (#[trigger] s[j]).id != id by {
            if j < s.len() - 1 {
                assert(s.drop_last()[j].id != id);
            }
        }
    }
}

proof fn lemma_place_is(s: Seq<PendingV>, id: u64, i: int)
    requires
        -1 <= i < s.len(),
        i >= 0 ==> s[i].id == id,
        forall|j: int| i < j < s.len() ==> (#[trigger] s[j]).id != id,
    ensures
        place_of(s, id) == i,
{
    lemma_place(s, id);
    let k = place_of(s, id);
    if k < i {
        assert(s[i].id != id);
    }
    if i < k {
        assert(s[k].id != id);
    }
}

/// What is left once a share was answered was there before.
pub(crate) proof fn lemma_answered_is_part(s: Seq<PendingV>, id: u64)
    ensures
        forall|p: PendingV| #[trigger] answered(s, id).contains(p) ==> s.contains(p),
{
    lemma_place(s, id);
    assert forall|p: PendingV| #[trigger] answered(s, id).contains(p) implies s.contains(p) by {
        let t = answered(s, id);
        let i = choose|i: int| 0 <= i < t.len() && t[i] == p;
        let k = place_of(s, id);
        let x = if k < 0 || i < k { i } else { i + 1 };
        assert(s[x] == p);
    }
}

fn find(v: &Vec<Pending>, id: u64) -> (r: Option<usize>)
    ensures
        match r {
            Some(i) => i < v@.len() && place_of(shares(v@), id) == i,
            None => place_of(shares(v@), id) == -1,
        },
{
    let mut i: usize = v.len();
    while i > 0
        invariant
            i <= v@.len(),
            forall|j: int| i <= j < v@.len() ==> (#[trigger] shares(v@)[j]).id != id,
        decreases i,
    {
        i = i - 1;
        if v[i].id == id {
            proof {
                lemma_place_is(shares(v@), id, i as int);
            }
            return Some(i);
        }
    }
    proof {
        lemma_place_is(shares(v@), id, -1);
    }
    None
}

/// Takes out the share with an id.
fn take_out(v: &mut Vec<Pending>, id: u64) -> (r: Option<Pending>)
    ensures
        shares(final(v)@) == answered(shares(old(v)@), id),
        match r {
            Some(p) => place_of(shares(old(v)@), id) >= 0 && p@ == shares(old(v)@)[place_of(shares(old(v)@), id)],
            None => place_of(shares(old(v)@), id) < 0,
        },
{
    let ghost before = shares(v@);
    match find(v, id) {
        Some(i) => {
            let p = v.remove(i);
            assert(shares(v@) =~= before.remove(i as int));
            Some(p)
        },
        None => None,
    }
}

proof fn lemma_waiting_step(a: Seq<PendingV>, b: Seq<PendingV>, now: u64)
    requires
        b.len() > 0,
    ensures
        passed(b[0].at, now) < ANSWER_WAIT ==> a + still_waiting(b, now) == a.push(b[0]) + still_waiting(
            b.drop_first(),
            now,
        ),
        passed(b[0].at, now) >= ANSWER_WAIT ==> a + still_waiting(b, now) == a + still_waiting(b.drop_first(), now),
{
    let rest = still_waiting(b.drop_first(), now);
    assert(a + (seq![b[0]] + rest) =~= a.push(b[0]) + rest);
}

fn drop_old(v: &mut Vec<Pending>, now: u64)
    ensures
        shares(final(v)@) == still_waiting(shares(old(v)@), now),
{
    let ghost all = shares(v@);
    let mut i: usize = 0;
    assert(all.take(0) + still_waiting(all.skip(0), now) =~= still_waiting(all, now)) by {
        assert(all.skip(0) =~= all);
    }
    while i < v.len()
        invariant
            i <= v@.len(),
            shares(v@).take(i as int) + still_waiting(shares(v@).skip(i as int), now) == still_waiting(all, now),
        decreases v@.len() - i,
    {
        let ghost was = shares(v@);
        let ghost b = was.skip(i as int);
        proof {
            lemma_waiting_step(was.take(i as int), b, now);
            assert(b[0] == was[i as int]);
            assert(b.drop_first() =~= was.skip(i + 1));
        }
        if since(v[i].at, now) < ANSWER_WAIT {
            assert(was.take(i as int).push(b[0]) =~= was.take(i + 1));
            i = i + 1;
        } else {
            let _ = v.remove(i);
            assert(shares(v@) =~= was.remove(i as int));
            assert(shares(v@).take(i as int) =~= was.take(i as int));
            assert(shares(v@).skip(i as int) =~= was.skip(i + 1));
        }
    }
    assert(shares(v@).skip(i as int) =~= Seq::<PendingV>::empty());
    assert(shares(v@).take(i as int) + Seq::<PendingV>::empty() =~= shares(v@));
}

// ------------------------------------------------------------------- lines

/// Where the first line ends, or the length where none does.
pub open spec fn line_end(s: Seq<u8>) -> int
    decreases s.len(),
{
    if s.len() == 0 || s[0] == 10 { 0 } else { 1 + line_end(s.drop_first()) }
}

/// The complete lines of some bytes, without their line ends.
pub open spec fn lines_of(s: Seq<u8>) -> Seq<Seq<u8>>
    decreases s.len(),
    via lines_decrease
{
    if line_end(s) >= s.len() {
        Seq::empty()
    } else {
        seq![s.take(line_end(s))] + lines_of(s.skip(line_end(s) + 1))
    }
}

#[via_fn]
proof fn lines_decrease(s: Seq<u8>) {
    lemma_line_end(s);
}

/// What follows the last line end.
pub open spec fn rest_of(s: Seq<u8>) -> Seq<u8>
    decreases s.len(),
    via rest_decreases
{
    if line_end(s) >= s.len() { s } else { rest_of(s.skip(line_end(s) + 1)) }
}

#[via_fn]
proof fn rest_decreases(s: Seq<u8>) {
    lemma_line_end(s);
}

proof fn lemma_line_end(s: Seq<u8>)
    ensures
        0 <= line_end(s) <= s.len(),
        line_end(s) < s.len() ==> s[line_end(s)] == 10,
        forall|i: int| 0 <= i < line_end(s) ==> s[i] != 10,
    decreases s.len(),
{
    if s.len() > 0 && s[0] != 10 {
        let t = s.drop_first();
        lemma_line_end(t);
        assert forall|i: int| 0 <= i < line_end(s) implies s[i] != 10 by {
            if i > 0 {
                assert(t[i - 1] != 10);
            }
        }
    }
}

proof fn lemma_line_end_is(s: Seq<u8>, n: int)
    requires
        0 <= n <= s.len(),
        n < s.len() ==> s[n] == 10,
        forall|i: int| 0 <= i < n ==> s[i] != 10,
    ensures
        line_end(s) == n,
{
    lemma_line_end(s);
    let k = line_end(s);
    if k < n {
        assert(s[k] != 10);
    }
}

/// Law: it does not matter how the pool's bytes are cut into chunks. Reading
/// `a` and then `b` gives the same lines, and leaves the same rest, as reading
/// them at once.
pub proof fn law_chunks_do_not_matter(a: Seq<u8>, b: Seq<u8>)
    ensures
        lines_of(a + b) == lines_of(a) + lines_of(rest_of(a) + b),
        rest_of(a + b) == rest_of(rest_of(a) + b),
    decreases a.len(),
{
    lemma_line_end(a);
    let n = line_end(a);
    if n >= a.len() {
        assert(lines_of(a) + lines_of(a + b) =~= lines_of(a + b));
    } else {
        lemma_line_end_is(a + b, n);
        assert((a + b).take(n) =~= a.take(n));
        assert((a + b).skip(n + 1) =~= a.skip(n + 1) + b);
        law_chunks_do_not_matter(a.skip(n + 1), b);
        let t = a.skip(n + 1);
        assert(seq![a.take(n)] + (lines_of(t) + lines_of(rest_of(t) + b)) =~= (seq![a.take(n)] + lines_of(t))
            + lines_of(rest_of(t) + b));
    }
}

/// Law: no line holds a line end, and neither does the rest.
pub proof fn law_lines_are_whole(s: Seq<u8>)
    ensures
        forall|i: int, j: int|
            0 <= i < lines_of(s).len() && 0 <= j < lines_of(s)[i].len() ==> #[trigger] lines_of(s)[i][j] != 10,
        forall|j: int| 0 <= j < rest_of(s).len() ==> #[trigger] rest_of(s)[j] != 10,
    decreases s.len(),
{
    lemma_line_end(s);
    let n = line_end(s);
    if n < s.len() {
        law_lines_are_whole(s.skip(n + 1));
        assert(rest_of(s) == rest_of(s.skip(n + 1)));
        let t = lines_of(s.skip(n + 1));
        assert forall|i: int, j: int| 0 <= i < lines_of(s).len() && 0 <= j < lines_of(s)[i].len() implies #[trigger] lines_of(
            s,
        )[i][j] != 10 by {
            if i > 0 {
                assert(lines_of(s)[i] == t[i - 1]);
                assert(t[i - 1][j] != 10);
            }
        }
    } else {
        assert(rest_of(s) == s);
    }
}

// ----------------------------------------------------------------- session

/// The user's, or the donation's, session with a pool.
#[derive(Debug)]
pub struct Session {
    /// Bytes received since the last line end.
    pub buf: Vec<u8>,
    /// What the pool answered to the subscription: its part of the extranonce
    /// and the size of the miner's part.
    pub en1: Option<String>,
    pub en2size: usize,
    /// The share difficulty.
    pub diff: Double,
    /// The latest job.
    pub job: Option<Vec<Json>>,
    /// Counts the work units built.
    pub en2ctr: u64,
    pub pending: Vec<Pending>,
    /// The id of the last submitted share.
    pub subid: u64,
    /// What the miner logs in as.
    pub addr: String,
    /// Whether this is the donation's session.
    pub is_dev: bool,
    /// When bytes, and when a job, last came in.
    pub idle: u64,
    pub last_notify: u64,
}

/// A session by what it holds.
#[verifier::ext_equal]
pub struct SessionV {
    pub buf: Seq<u8>,
    pub en1: Option<Seq<char>>,
    pub en2size: usize,
    pub diff: Double,
    pub job: Option<Seq<JsonV>>,
    pub en2ctr: u64,
    pub pending: Seq<PendingV>,
    pub subid: u64,
    pub addr: Seq<char>,
    pub is_dev: bool,
    pub idle: u64,
    pub last_notify: u64,
}

impl View for Session {
    type V = SessionV;

    open spec fn view(&self) -> SessionV {
        SessionV {
            buf: self.buf@,
            en1: match self.en1 {
                Some(s) => Some(s@),
                None => None,
            },
            en2size: self.en2size,
            diff: self.diff,
            job: match self.job {
                Some(j) => Some(trees(j@)),
                None => None,
            },
            en2ctr: self.en2ctr,
            pending: shares(self.pending@),
            subid: self.subid,
            addr: self.addr@,
            is_dev: self.is_dev,
            idle: self.idle,
            last_notify: self.last_notify,
        }
    }
}

/// Difficulty 1.
pub open spec fn diff_one() -> Double {
    Double { bits: 0x3ff0_0000_0000_0000 }
}

/// The item of a JSON list inside an optional value.
pub open spec fn item_of(v: Option<JsonV>, i: int) -> Option<JsonV> {
    match v {
        Some(v) => v.item(i),
        None => None,
    }
}

/// After the pool's answer to the subscription.
pub open spec fn subscribed(s: SessionV, st: StatsV, result: JsonV) -> (SessionV, StatsV) {
    let en1 = match result.item(1) {
        Some(v) => v.text(),
        None => None,
    };
    let size: u64 = match result.item(2) {
        Some(v) => match v.uint() {
            Some(n) => n,
            None => 8,
        },
        None => 8,
    };
    let s2 = SessionV { en1, en2size: size as usize, ..s };
    let shown = match en1 {
        Some(t) => t,
        None => Seq::empty(),
    };
    (s2, if s.is_dev { st } else { st.logged("subscribed · extranonce1="@ + shown) })
}

/// After a new share difficulty.
pub open spec fn difficulty_set(s: SessionV, st: StatsV, params: Option<JsonV>) -> (SessionV, StatsV) {
    let diff = match item_of(params, 0) {
        Some(v) => match v.double() {
            Some(d) => d,
            None => diff_one(),
        },
        None => diff_one(),
    };
    let st2 = (StatsV { diff, bits: pot(diff), ..st }).logged("difficulty set · bits="@ + dec(pot(diff) as nat));
    (SessionV { diff, ..s }, if s.is_dev { st } else { st2 })
}

/// After a new job.
pub open spec fn notified(s: SessionV, params: Option<JsonV>, now: u64) -> SessionV {
    let job = match params {
        Some(v) => v.list(),
        None => None,
    };
    SessionV { job, last_notify: now, ..s }
}

/// The height of a found block, as the log shows it.
pub open spec fn height_text(height: u64) -> Seq<char> {
    if height > 0 { "height "@ + dec(height as nat) + " "@ } else { Seq::empty() }
}

/// After an accepted share.
pub open spec fn accepted(is_dev: bool, st: StatsV, p: PendingV) -> StatsV {
    let hs = height_text(p.height);
    if is_dev {
        if p.is_block {
            let st2 = StatsV { donated: next_count(st.donated), ..st };
            st2.logged(
                "💚 donation BLOCK "@ + hs + "(#"@ + dec(st2.donated as nat)
                    + ") → developer · thank you! · nonce "@ + p.nonce,
            )
        } else {
            st
        }
    } else {
        let st2 = StatsV { accepted: next_count(st.accepted), ..st };
        if p.is_block {
            let st3 = StatsV { blocks: next_count(st.blocks), ..st2 };
            let n = dec(st3.blocks as nat);
            st3.logged("🎉 BLOCK FOUND "@ + hs + "(#"@ + n + ")  paid to your address · nonce "@ + p.nonce).alerted(
                "🎉 BLOCK FOUND"@,
                hs + "block #"@ + n + " this session · paid to "@ + st.addr,
            )
        } else {
            st2.logged("✓ share accepted (#"@ + dec(st2.accepted as nat) + ") · nonce "@ + p.nonce)
        }
    }
}

/// After a rejected share.
pub open spec fn rejected(is_dev: bool, st: StatsV, p: PendingV, error: Seq<char>) -> StatsV {
    let who = if is_dev { "donation "@ } else { Seq::empty() };
    (StatsV { rejected: next_count(st.rejected), ..st }).logged(
        "✗ "@ + who + "rejected ("@ + error + ")  nonce "@ + p.nonce,
    )
}

/// Whether an entry is there and is not null.
pub open spec fn given(v: Option<JsonV>) -> bool {
    v is Some && v->0 != JsonV::Null
}

/// After a message of the pool: the answer to the subscription, a difficulty,
/// a job, or the answer to a share. Anything else changes nothing.
pub open spec fn message(s: SessionV, st: StatsV, m: JsonV, error: Seq<char>, now: u64) -> (SessionV, StatsV) {
    let id = m.field_uint("id"@);
    let method = m.field_text("method"@);
    if id == Some(1u64) && given(m.field("result"@)) {
        subscribed(s, st, m.field("result"@)->0)
    } else if method == Some("mining.set_difficulty"@) {
        difficulty_set(s, st, m.field("params"@))
    } else if method == Some("mining.notify"@) {
        (notified(s, m.field("params"@), now), st)
    } else if id is Some && place_of(s.pending, id->0) >= 0 {
        let p = s.pending[place_of(s.pending, id->0)];
        let s2 = SessionV { pending: answered(s.pending, id->0), ..s };
        if m.field("result"@) == Some(JsonV::Bool(true)) {
            (s2, accepted(s.is_dev, st, p))
        } else if given(m.field("error"@)) {
            (s2, rejected(s.is_dev, st, p, error))
        } else {
            (s2, st)
        }
    } else {
        (s, st)
    }
}

/// The error that a message carries, written out.
pub open spec fn error_text(m: JsonV) -> Seq<char> {
    match m.field("error"@) {
        Some(e) => json_text(e),
        None => Seq::empty(),
    }
}

/// After a line of the pool. One that is no JSON text changes nothing.
pub open spec fn line_read(s: SessionV, st: StatsV, line: Seq<u8>, now: u64) -> (SessionV, StatsV) {
    match json_value(line) {
        Some(m) => message(s, st, m, error_text(m), now),
        None => (s, st),
    }
}

/// After several lines.
pub open spec fn lines_read(s: SessionV, st: StatsV, lines: Seq<Seq<u8>>, now: u64) -> (SessionV, StatsV)
    decreases lines.len(),
{
    if lines.len() == 0 {
        (s, st)
    } else {
        let (s2, st2) = lines_read(s, st, lines.drop_last(), now);
        line_read(s2, st2, lines.last(), now)
    }
}

/// What a read from the socket gave.
pub enum Incoming {
    /// The pool closed the connection, or it broke.
    Closed,
    /// Nothing has arrived.
    Nothing,
    Data(Vec<u8>),
}

/// After some bytes of the pool were read.
pub open spec fn fed(s: SessionV, st: StatsV, bytes: Seq<u8>, now: u64) -> (SessionV, StatsV) {
    settled(SessionV { buf: s.buf + bytes, idle: now, ..s }, st, now)
}

/// The complete lines are acted on in order, and shares that have waited too
/// long are forgotten.
pub open spec fn settled(s: SessionV, st: StatsV, now: u64) -> (SessionV, StatsV) {
    let (s2, st2) = lines_read(SessionV { buf: rest_of(s.buf), ..s }, st, lines_of(s.buf), now);
    (SessionV { pending: still_waiting(s2.pending, now), ..s2 }, st2)
}

/// After a read.
pub open spec fn pumped(s: SessionV, st: StatsV, read: Incoming, now: u64) -> (SessionV, StatsV) {
    match read {
        Incoming::Closed => (s, st),
        Incoming::Nothing => settled(s, st, now),
        Incoming::Data(d) => fed(s, st, d@, now),
    }
}

impl Session {
    fn on_subscribed(&mut self, stats: &mut Stats, result: &Json)
        ensures
            (final(self)@, final(stats)@) == subscribed(old(self)@, old(stats)@, result@),
    {
        let ghost s0 = self@;
        let ghost st0 = stats@;
        self.en1 = match result.at(1) {
            Some(v) => match v.as_str() {
                Some(t) => Some(t.to_owned()),
                None => None,
            },
            None => None,
        };
        let size: u64 = match result.at(2) {
            Some(v) => match v.as_u64() {
                Some(n) => n,
                None => 8,
            },
            None => 8,
        };
        self.en2size = size as usize;
        if !self.is_dev {
            let mut line = "subscribed · extranonce1=".to_owned();
            match &self.en1 {
                Some(t) => line.append(t.as_str()),
                None => {
                    assert(line@ + Seq::<char>::empty() =~= line@);
                },
            }
            stats.logline(line);
        }
        assert(self@ =~= subscribed(s0, st0, result@).0);
    }

    fn on_difficulty(&mut self, stats: &mut Stats, params: Option<&Json>)
        ensures
            (final(self)@, final(stats)@) == difficulty_set(old(self)@, old(stats)@, crate::json::seen(params)),
    {
        let ghost s0 = self@;
        let ghost st0 = stats@;
        let one = Double { bits: 0x3ff0_0000_0000_0000 };
        self.diff = match params {
            Some(p) => match p.at(0) {
                Some(v) => match v.as_double() {
                    Some(d) => d,
                    None => one,
                },
                None => one,
            },
            None => one,
        };
        if !self.is_dev {
            let bits: u32 = floor_pot(self.diff);
            stats.diff = self.diff;
            stats.bits = bits;
            let mut line = "difficulty set · bits=".to_owned();
            line.append(dec_text(bits as u64).as_str());
            stats.logline(line);
        }
        assert(self@ =~= difficulty_set(s0, st0, crate::json::seen(params)).0);
    }

    fn on_notify(&mut self, params: Option<&Json>, now: u64)
        ensures
            final(self)@ == notified(old(self)@, crate::json::seen(params), now),
    {
        let ghost s0 = self@;
        self.job = match params {
            Some(Json::List(v)) => Some(copy_items(v)),
            _ => None,
        };
        self.last_notify = now;
        proof {
            match params {
                Some(j) => {
                    if let Json::List(v) = j {
                        assert(j@->List_0 =~= trees(v@));
                    }
                },
                None => {},
            }
            assert(self@ =~= notified(s0, crate::json::seen(params), now));
        }
    }
}

fn copy_items(v: &Vec<Json>) -> (r: Vec<Json>)
    ensures
        trees(r@) == trees(v@),
{
    let mut r: Vec<Json> = Vec::new();
    let mut i: usize = 0;
    while i < v.len()
        invariant
            i <= v@.len(),
            r@.len() == i,
            forall|j: int| 0 <= j < i ==> (#[trigger] r@[j])@ == v@[j]@,
        decreases v@.len() - i,
    {
        r.push(v[i].copy());
        i = i + 1;
    }
    assert(trees(r@) =~= trees(v@));
    r
}

/// The height of a found block, as the log shows it.
fn height_label(height: u64) -> (r: String)
    ensures
        r@ == height_text(height),
{
    if height > 0 {
        let mut s = "height ".to_owned();
        s.append(dec_text(height).as_str());
        s.append(" ");
        s
    } else {
        let s = String::new();
        assert(s@ =~= Seq::<char>::empty());
        s
    }
}

/// Counts an accepted share.
fn on_accepted(is_dev: bool, stats: &mut Stats, p: &Pending)
    ensures
        final(stats)@ == accepted(is_dev, old(stats)@, p@),
{
    let ghost st0 = stats@;
    let hs = height_label(p.height);
    if is_dev {
        if p.is_block {
            stats.donated = count_up(stats.donated);
            let mut line = "💚 donation BLOCK ".to_owned();
            line.append(hs.as_str());
            line.append("(#");
            line.append(dec_text(stats.donated).as_str());
            line.append(") → developer · thank you! · nonce ");
            line.append(p.nonce.as_str());
            stats.logline(line);
        }
    } else {
        stats.accepted = count_up(stats.accepted);
        if p.is_block {
            stats.blocks = count_up(stats.blocks);
            let n = dec_text(stats.blocks);
            let mut line = "🎉 BLOCK FOUND ".to_owned();
            line.append(hs.as_str());
            line.append("(#");
            line.append(n.as_str());
            line.append(")  paid to your address · nonce ");
            line.append(p.nonce.as_str());
            stats.logline(line);
            let mut body = hs.clone();
            body.append("block #");
            body.append(n.as_str());
            body.append(" this session · paid to ");
            body.append(stats.addr.as_str());
            stats.alert("🎉 BLOCK FOUND", body.as_str());
        } else {
            let mut line = "✓ share accepted (#".to_owned();
            line.append(dec_text(stats.accepted).as_str());
            line.append(") · nonce ");
            line.append(p.nonce.as_str());
            stats.logline(line);
        }
    }
    assert(stats@ =~= accepted(is_dev, st0, p@));
}

/// Counts a rejected share.
fn on_rejected(is_dev: bool, stats: &mut Stats, p: &Pending, error: &str)
    ensures
        final(stats)@ == rejected(is_dev, old(stats)@, p@, error@),
{
    let ghost st0 = stats@;
    stats.rejected = count_up(stats.rejected);
    let mut line = "✗ ".to_owned();
    if is_dev {
        line.append("donation ");
    } else {
        assert(line@ + Seq::<char>::empty() =~= line@);
    }
    line.append("rejected (");
    line.append(error);
    line.append(")  nonce ");
    line.append(p.nonce.as_str());
    stats.logline(line);
    assert(stats@ =~= rejected(is_dev, st0, p@, error@));
}

fn is_given(v: Option<&Json>) -> (r: bool)
    ensures
        r == given(crate::json::seen(v)),
{
    match v {
        Some(j) => !j.is_null(),
        None => false,
    }
}

impl Session {
    /// Acts on a message of the pool. `error` is its error, written out.
    pub fn on_message(&mut self, stats: &mut Stats, m: &Json, error: &str, now: u64)
        ensures
            (final(self)@, final(stats)@) == message(old(self)@, old(stats)@, m@, error@, now),
    {
        let ghost s0 = self@;
        let ghost st0 = stats@;
        let id: Option<u64> = m.field_u64("id");
        let (set_difficulty, notify) = match m.field_str("method") {
            Some(t) => (same(t, "mining.set_difficulty"), same(t, "mining.notify")),
            None => (false, false),
        };
        let first = match id {
            Some(n) => n == 1,
            None => false,
        };
        if first && is_given(m.get("result")) {
            if let Some(r) = m.get("result") {
                self.on_subscribed(stats, r);
            }
        } else if set_difficulty {
            self.on_difficulty(stats, m.get("params"));
        } else if notify {
            self.on_notify(m.get("params"), now);
        } else if let Some(n) = id {
            if let Some(p) = take_out(&mut self.pending, n) {
                assert(self@ =~= SessionV { pending: answered(s0.pending, n), ..s0 });
                if let Some(true) = m.field_bool("result") {
                    on_accepted(self.is_dev, stats, &p);
                } else if is_given(m.get("error")) {
                    on_rejected(self.is_dev, stats, &p, error);
                }
            } else {
                assert(self@ =~= s0);
            }
        }
    }

    /// Reads a line of the pool.
    pub fn on_line(&mut self, stats: &mut Stats, line: &[u8], now: u64)
        ensures
            (final(self)@, final(stats)@) == line_read(old(self)@, old(stats)@, line@, now),
    {
        match parse_json(line) {
            Some(m) => {
                let error = match entry_text(line, "error") {
                    Some(t) => t,
                    None => String::new(),
                };
                assert(error@ =~= error_text(m@));
                self.on_message(stats, &m, error.as_str(), now);
            },
            None => {},
        }
    }

    /// Acts on a read from the socket. False where the session is over.
    pub fn pump(&mut self, stats: &mut Stats, read: Incoming, now: u64) -> (alive: bool)
        ensures
            alive == !(read is Closed),
            (final(self)@, final(stats)@) == pumped(old(self)@, old(stats)@, read, now),
    {
        let ghost s0 = self@;
        let ghost st0 = stats@;
        match &read {
            Incoming::Closed => {
                return false;
            },
            Incoming::Nothing => {},
            Incoming::Data(d) => {
                self.buf.extend_from_slice(d.as_slice());
                self.idle = now;
                assert(self.buf@ =~= s0.buf + d@);
            },
        }
        let ghost s1 = self@;
        let mut data: Vec<u8> = Vec::new();
        std::mem::swap(&mut data, &mut self.buf);
        let mut start: usize = 0;
        let ghost all = data@;
        let ghost mut done: Seq<Seq<u8>> = Seq::empty();
        let ghost base = SessionV { buf: self@.buf, ..s1 };
        assert(self@ =~= base);
        assert(all.skip(0) =~= all);
        assert(done + lines_of(all) =~= lines_of(all));
        let mut i: usize = 0;
        while i < data.len()
            invariant
                start <= i <= data@.len(),
                data@ == all,
                forall|j: int| start <= j < i ==> all[j] != 10,
                lines_of(all) == done + lines_of(all.skip(start as int)),
                rest_of(all) == rest_of(all.skip(start as int)),
                (self@, stats@) == lines_read(base, st0, done, now),
            decreases data@.len() - i,
        {
            if data[i] == 10 {
                let ghost part = all.skip(start as int);
                proof {
                    assert forall|j: int| 0 <= j < i - start implies part[j] != 10 by {
                        assert(all[start + j] != 10);
                    }
                    lemma_line_end_is(part, i - start);
                    assert(part.take(i - start) =~= all.subrange(start as int, i as int));
                    assert(part.skip(i - start + 1) =~= all.skip(i + 1));
                }
                let line = slice_subrange(data.as_slice(), start, i);
                self.on_line(stats, line, now);
                proof {
                    let next = done.push(line@);
                    assert(next.drop_last() =~= done);
                    assert(done + (seq![line@] + lines_of(all.skip(i + 1))) =~= next + lines_of(all.skip(i + 1)));
                    done = next;
                }
                start = i + 1;
            }
            i = i + 1;
        }
        proof {
            let part = all.skip(start as int);
            assert forall|j: int| 0 <= j < part.len() implies part[j] != 10 by {
                assert(all[start + j] != 10);
            }
            lemma_line_end_is(part, part.len() as int);
            assert(done + lines_of(part) =~= done);
            assert(rest_of(part) == part);
        }
        let rest = slice_subrange(data.as_slice(), start, data.len());
        assert(rest@ =~= all.skip(start as int));
        proof {
            lemma_buffer_is_apart(base, st0, done, now, rest_of(all));
        }
        let mut kept: Vec<u8> = Vec::new();
        kept.extend_from_slice(rest);
        assert(kept@ =~= rest@);
        self.buf = kept;
        let ghost s2 = self@;
        drop_old(&mut self.pending, now);
        assert(self@ =~= SessionV { pending: still_waiting(s2.pending, now), ..s2 });
        proof {
            assert(s1 =~= match read {
                Incoming::Data(d) => SessionV { buf: s0.buf + d@, idle: now, ..s0 },
                _ => s0,
            });
        }
        true
    }
}

/// Acting on lines leaves the bytes of the next line alone, and does not
/// depend on them.
proof fn lemma_buffer_is_apart(s: SessionV, st: StatsV, lines: Seq<Seq<u8>>, now: u64, buf: Seq<u8>)
    ensures
        ({
            let (a, x) = lines_read(s, st, lines, now);
            let (b, y) = lines_read(SessionV { buf, ..s }, st, lines, now);
            b == (SessionV { buf, ..a }) && x == y && a.buf == s.buf
        }),
    decreases lines.len(),
{
    if lines.len() > 0 {
        lemma_buffer_is_apart(s, st, lines.drop_last(), now, buf);
    }
}

// ---------------------------------------------------------------- requests

/// The tree of a request.
pub open spec fn request_tree(id: u64, method: Seq<char>, params: Seq<JsonV>) -> JsonV {
    JsonV::Object(
        map!["id"@ => JsonV::Uint(id), "method"@ => JsonV::Text(method), "params"@ => JsonV::List(params)],
    )
}

/// A request as it is sent: its JSON text and a line end.
pub open spec fn request_line(id: u64, method: Seq<char>, params: Seq<JsonV>) -> Seq<char> {
    json_text(request_tree(id, method, params)).push('\n')
}

/// Whether some characters are one line: a line end closes them, and there is
/// no other.
pub open spec fn one_line(s: Seq<char>) -> bool {
    s.len() > 0 && s.last() == '\n' && !s.drop_last().contains('\n')
}

/// The values of a list of parameters.
pub open spec fn values(v: Seq<Scalar>) -> Seq<JsonV> {
    Seq::new(v.len(), |i: int| v[i]@)
}

/// Writes a request.
pub fn request(id: u64, method: &str, params: Vec<Scalar>) -> (r: String)
    ensures
        r@ == request_line(id, method@, values(params@)),
        one_line(r@),
        json_value(encode_utf8(r@.drop_last())) == Some(request_tree(id, method@, values(params@))),
{
    let ghost v = params@;
    let mut entries: Vec<(String, Entry)> = Vec::new();
    entries.push(("id".to_owned(), Entry::One(Scalar::Uint(id))));
    entries.push(("method".to_owned(), Entry::One(Scalar::Text(method.to_owned()))));
    entries.push(("params".to_owned(), Entry::List(params)));
    proof {
        reveal_with_fuel(entries_map, 4);
        let e = entries@;
        assert(e.drop_last().drop_last().drop_last() =~= Seq::empty());
        assert(e[2].1@->List_0 =~= values(v));
        assert(entries_map(e) =~= request_tree(id, method@, values(v))->Object_0);
    }
    let mut r = object_text(&entries);
    let ghost text = r@;
    r.push('\n');
    assert(r@.drop_last() =~= text);
    r
}

/// What the miner calls itself to the pool.
pub open spec fn user_agent(is_dev: bool) -> Seq<char> {
    if is_dev { "PyBLOCK-GPU/BLAKE2b-donate/"@ + VERSION@ } else { "PyBLOCK-GPU/BLAKE2b/"@ + VERSION@ }
}

/// What a new session sends: it subscribes, logs in, and asks for a low
/// difficulty to start with.
pub open spec fn greeting_lines(addr: Seq<char>, is_dev: bool) -> Seq<Seq<char>> {
    seq![
        request_line(1, "mining.subscribe"@, seq![JsonV::Text(user_agent(is_dev))]),
        request_line(2, "mining.authorize"@, seq![JsonV::Text(addr), JsonV::Text("x"@)]),
        request_line(3, "mining.suggest_difficulty"@, seq![JsonV::Uint(1)]),
    ]
}

/// A new session.
pub open spec fn opened(addr: Seq<char>, is_dev: bool, now: u64) -> SessionV {
    SessionV {
        buf: Seq::empty(),
        en1: None,
        en2size: 8,
        diff: diff_one(),
        job: None,
        en2ctr: 0,
        pending: Seq::empty(),
        subid: 100,
        addr,
        is_dev,
        idle: now,
        last_notify: now,
    }
}

/// What a share is submitted with.
pub open spec fn submit_line(id: u64, addr: Seq<char>, w: WorkUnitV, nonce: Seq<char>) -> Seq<char> {
    request_line(
        id,
        "mining.submit"@,
        seq![
            JsonV::Text(addr),
            JsonV::Text(w.job_id),
            JsonV::Text(w.en2hex),
            JsonV::Text(w.ntime),
            JsonV::Text(nonce),
            JsonV::Text(w.version),
        ],
    )
}

/// Whether a line submits a share: read as JSON it names the login, and the
/// unit's job, extranonce, time and version, and the nonce.
pub open spec fn submits(line: Seq<char>, addr: Seq<char>, w: WorkUnitV, nonce: Seq<char>) -> bool {
    let m = json_value(encode_utf8(line.drop_last()));
    &&& one_line(line)
    &&& m is Some
    &&& m->0.field_uint("id"@) is Some
    &&& m->0.field_text("method"@) == Some("mining.submit"@)
    &&& m->0.field("params"@) == Some(
        JsonV::List(
            seq![
                JsonV::Text(addr),
                JsonV::Text(w.job_id),
                JsonV::Text(w.en2hex),
                JsonV::Text(w.ntime),
                JsonV::Text(nonce),
                JsonV::Text(w.version),
            ],
        ),
    )
}

/// After a share was submitted: it waits for the answer under a new id.
pub open spec fn submitted(s: SessionV, nonce: Seq<char>, is_block: bool, height: u64, now: u64) -> SessionV {
    let id = next_count(s.subid);
    SessionV {
        subid: id,
        pending: answered(s.pending, id).push(PendingV { id, nonce, is_block, height, at: now }),
        ..s
    }
}

/// Whether work can be built: the pool has given its part of the extranonce
/// and a complete job.
pub open spec fn ready_with(s: SessionV) -> Option<(Seq<char>, Seq<JsonV>)> {
    match (s.en1, s.job) {
        (Some(en1), Some(job)) => if job.len() >= 8 { Some((en1, job)) } else { None },
        _ => None,
    }
}

/// The next unit of work, and the session after it was built.
pub open spec fn built(s: SessionV, en1: Seq<char>, job: Seq<JsonV>) -> (WorkUnitV, SessionV) {
    (unit_of(en1, job, s.en2ctr, s.en2size as nat), SessionV { en2ctr: next_count(s.en2ctr), ..s })
}

impl Session {
    /// Opens a session, to be told `greeting` once the pool is connected.
    pub fn open(addr: &str, is_dev: bool, now: u64) -> (r: Session)
        ensures
            r@ == opened(addr@, is_dev, now),
    {
        let r = Session {
            buf: Vec::new(),
            en1: None,
            en2size: 8,
            diff: Double { bits: 0x3ff0_0000_0000_0000 },
            job: None,
            en2ctr: 0,
            pending: Vec::new(),
            subid: 100,
            addr: addr.to_owned(),
            is_dev,
            idle: now,
            last_notify: now,
        };
        assert(r@ =~= opened(addr@, is_dev, now));
        r
    }

    /// The first lines of a session.
    pub fn greeting(&self) -> (r: Vec<String>)
        ensures
            crate::stats::strings(r@) == greeting_lines(self@.addr, self@.is_dev),
            r@.len() == 3,
            forall|i: int|
                0 <= i < 3 ==> one_line((#[trigger] r@[i])@) && json_value(encode_utf8(r@[i]@.drop_last())) is Some,
            ({
                let a = json_value(encode_utf8(r@[0]@.drop_last()))->0;
                let b = json_value(encode_utf8(r@[1]@.drop_last()))->0;
                let c = json_value(encode_utf8(r@[2]@.drop_last()))->0;
                &&& a.field_uint("id"@) == Some(1u64) && a.field_text("method"@) == Some("mining.subscribe"@)
                &&& b.field_uint("id"@) == Some(2u64) && b.field_text("method"@) == Some("mining.authorize"@)
                &&& b.field("params"@) is Some && b.field("params"@)->0.item(0) == Some(JsonV::Text(self@.addr))
                &&& c.field_text("method"@) == Some("mining.suggest_difficulty"@)
                &&& c.field("params"@) is Some && c.field("params"@)->0.item(0) == Some(JsonV::Uint(1))
            }),
    {
        let mut agent = if self.is_dev { "PyBLOCK-GPU/BLAKE2b-donate/".to_owned() } else {
            "PyBLOCK-GPU/BLAKE2b/".to_owned()
        };
        agent.append(VERSION);
        let mut r: Vec<String> = Vec::new();
        let mut p1: Vec<Scalar> = Vec::new();
        p1.push(Scalar::Text(agent));
        assert(values(p1@) =~= seq![JsonV::Text(user_agent(self@.is_dev))]);
        r.push(request(1, "mining.subscribe", p1));
        let mut p2: Vec<Scalar> = Vec::new();
        p2.push(Scalar::Text(self.addr.clone()));
        p2.push(Scalar::Text("x".to_owned()));
        assert(values(p2@) =~= seq![JsonV::Text(self@.addr), JsonV::Text("x"@)]);
        r.push(request(2, "mining.authorize", p2));
        let mut p3: Vec<Scalar> = Vec::new();
        p3.push(Scalar::Uint(1));
        assert(values(p3@) =~= seq![JsonV::Uint(1)]);
        r.push(request(3, "mining.suggest_difficulty", p3));
        assert(crate::stats::strings(r@) =~= greeting_lines(self@.addr, self@.is_dev));
        proof {
            lemma_request_fields(1, "mining.subscribe"@, seq![JsonV::Text(user_agent(self@.is_dev))]);
            lemma_request_fields(2, "mining.authorize"@, seq![JsonV::Text(self@.addr), JsonV::Text("x"@)]);
            lemma_request_fields(3, "mining.suggest_difficulty"@, seq![JsonV::Uint(1)]);
        }
        r
    }

    /// What work is built from, if it can be.
    pub fn ready(&self) -> (r: Option<(String, Vec<Json>)>)
        ensures
            match r {
                Some((en1, job)) => ready_with(self@) == Some((en1@, trees(job@))),
                None => ready_with(self@) is None,
            },
    {
        match (&self.en1, &self.job) {
            (Some(en1), Some(job)) => if job.len() >= 8 {
                Some((en1.clone(), copy_items(job)))
            } else {
                None
            },
            _ => None,
        }
    }

    /// Builds the next unit of work.
    pub fn build_work(&mut self, en1: &str, job: &Vec<Json>) -> (r: WorkUnit)
        requires
            job@.len() >= 8,
        ensures
            r@ == unit_of(en1@, trees(job@), old(self)@.en2ctr, old(self)@.en2size as nat),
            final(self)@ == (SessionV { en2ctr: next_count(old(self)@.en2ctr), ..old(self)@ }),
            (r@, final(self)@) == built(old(self)@, en1@, trees(job@)),
    {
        let ghost s0 = self@;
        let r = work_unit(en1, job, self.en2ctr, self.en2size);
        self.en2ctr = count_up(self.en2ctr);
        assert(self@ =~= SessionV { en2ctr: next_count(s0.en2ctr), ..s0 });
        r
    }

    /// Submits a share: gives the line to send.
    pub fn submit(&mut self, work: &WorkUnit, nonce: &str, is_block: bool, height: u64, now: u64) -> (r: String)
        ensures
            r@ == submit_line(final(self)@.subid, old(self)@.addr, work@, nonce@),
            one_line(r@),
            final(self)@ == submitted(old(self)@, nonce@, is_block, height, now),
            submits(r@, old(self)@.addr, work@, nonce@),
            ({
                let m = json_value(encode_utf8(r@.drop_last()))->0;
                let p = m.field("params"@)->0;
                &&& m.field_uint("id"@) == Some(final(self)@.subid)
                &&& m.field_text("method"@) == Some("mining.submit"@)
                &&& p.list() is Some && p.list()->0.len() == 6
                &&& p.item(0) == Some(JsonV::Text(old(self)@.addr))
                &&& p.item(1) == Some(JsonV::Text(work@.job_id))
                &&& p.item(2) == Some(JsonV::Text(work@.en2hex))
                &&& p.item(3) == Some(JsonV::Text(work@.ntime))
                &&& p.item(4) == Some(JsonV::Text(nonce@))
                &&& p.item(5) == Some(JsonV::Text(work@.version))
            }),
    {
        let ghost s0 = self@;
        let id: u64 = count_up(self.subid);
        self.subid = id;
        let _ = take_out(&mut self.pending, id);
        let ghost mid = self@.pending;
        self.pending.push(Pending { id, nonce: nonce.to_owned(), is_block, height, at: now });
        let mut p: Vec<Scalar> = Vec::new();
        p.push(Scalar::Text(self.addr.clone()));
        p.push(Scalar::Text(work.job_id.clone()));
        p.push(Scalar::Text(work.en2hex.clone()));
        p.push(Scalar::Text(work.ntime.clone()));
        p.push(Scalar::Text(nonce.to_owned()));
        p.push(Scalar::Text(work.version.clone()));
        proof {
            assert(self@.pending =~= mid.push(PendingV { id, nonce: nonce@, is_block, height, at: now }));
            assert(self@ =~= submitted(s0, nonce@, is_block, height, now));
            assert(values(p@) =~= seq![
                JsonV::Text(s0.addr),
                JsonV::Text(work@.job_id),
                JsonV::Text(work@.en2hex),
                JsonV::Text(work@.ntime),
                JsonV::Text(nonce@),
                JsonV::Text(work@.version),
            ]);
        }
        proof {
            lemma_request_fields(id, "mining.submit"@, values(p@));
        }
        request(id, "mining.submit", p)
    }
}

/// The entries of a request.
proof fn lemma_request_fields(id: u64, method: Seq<char>, params: Seq<JsonV>)
    ensures
        request_tree(id, method, params).field_uint("id"@) == Some(id),
        request_tree(id, method, params).field_text("method"@) == Some(method),
        request_tree(id, method, params).field("params"@) == Some(JsonV::List(params)),
{
    reveal_strlit("id");
    reveal_strlit("method");
    reveal_strlit("params");
    assert("id"@.len() == 2 && "method"@[0] == 'm' && "params"@[0] == 'p');
    assert("method"@.len() == 6);
    assert("params"@.len() == 6);
}

/// Law: a line submits one share only. Shares of units with different
/// extranonces, or that differ in anything else, are submitted with different
/// lines.
pub proof fn law_lines_tell_shares_apart(
    line: Seq<char>,
    a1: Seq<char>,
    w1: WorkUnitV,
    n1: Seq<char>,
    a2: Seq<char>,
    w2: WorkUnitV,
    n2: Seq<char>,
)
    requires
        submits(line, a1, w1, n1),
        submits(line, a2, w2, n2),
    ensures
        a1 == a2,
        w1.job_id == w2.job_id,
        w1.en2hex == w2.en2hex,
        w1.ntime == w2.ntime,
        w1.version == w2.version,
        n1 == n2,
{
    let p = json_value(encode_utf8(line.drop_last()))->0.field("params"@)->0;
    assert(p.item(0) == Some(JsonV::Text(a1)) && p.item(0) == Some(JsonV::Text(a2)));
    assert(p.item(1) == Some(JsonV::Text(w1.job_id)) && p.item(1) == Some(JsonV::Text(w2.job_id)));
    assert(p.item(2) == Some(JsonV::Text(w1.en2hex)) && p.item(2) == Some(JsonV::Text(w2.en2hex)));
    assert(p.item(3) == Some(JsonV::Text(w1.ntime)) && p.item(3) == Some(JsonV::Text(w2.ntime)));
    assert(p.item(4) == Some(JsonV::Text(n1)) && p.item(4) == Some(JsonV::Text(n2)));
    assert(p.item(5) == Some(JsonV::Text(w1.version)) && p.item(5) == Some(JsonV::Text(w2.version)));
}

// -------------------------------------------------------------------- laws

/// Whether no two pending shares have the same id.
pub open spec fn ids_distinct(s: Seq<PendingV>) -> bool {
    forall|i: int, j: int| 0 <= i < j < s.len() ==> (#[trigger] s[i]).id != (#[trigger] s[j]).id
}

/// Law: an id is answered once. Once a share is answered its id is no longer
/// pending, and the other shares stay as they were.
pub proof fn law_share_is_answered_once(s: Seq<PendingV>, id: u64)
    requires
        ids_distinct(s),
    ensures
        ids_distinct(answered(s, id)),
        place_of(answered(s, id), id) == -1,
        forall|other: u64| other != id ==> (place_of(answered(s, id), other) >= 0 <==> place_of(s, other) >= 0),
{
    lemma_place(s, id);
    let k = place_of(s, id);
    let t = answered(s, id);
    if k >= 0 {
        assert forall|i: int, j: int| 0 <= i < j < t.len() implies (#[trigger] t[i]).id != (#[trigger] t[j]).id by {
            let x = if i < k { i } else { i + 1 };
            let y = if j < k { j } else { j + 1 };
            assert(s[x].id != s[y].id);
        }
        assert forall|j: int| -1 < j < t.len() implies (#[trigger] t[j]).id != id by {
            let y = if j < k { j } else { j + 1 };
            assert(t[j] == s[y]);
            if y < k {
                assert(s[y].id != s[k].id);
            } else {
                assert(s[k].id != s[y].id);
            }
        }
        lemma_place_is(t, id, -1);
    } else {
        lemma_place_is(t, id, -1);
    }
    assert forall|other: u64| other != id implies (place_of(t, other) >= 0 <==> place_of(s, other) >= 0) by {
        lemma_place(s, other);
        lemma_place(t, other);
        let a = place_of(s, other);
        let b = place_of(t, other);
        if a >= 0 && b < 0 && k >= 0 {
            let x = if a < k { a } else { a - 1 };
            assert(t[x] == s[a]);
        }
        if b >= 0 && a < 0 && k >= 0 {
            let y = if b < k { b } else { b + 1 };
            assert(t[b] == s[y]);
        }
    }
}

/// Law: submitting a share keeps the ids distinct, and its id is then pending.
pub proof fn law_submitted_share_is_pending(s: SessionV, nonce: Seq<char>, is_block: bool, height: u64, now: u64)
    requires
        ids_distinct(s.pending),
    ensures
        ids_distinct(submitted(s, nonce, is_block, height, now).pending),
        ({
            let t = submitted(s, nonce, is_block, height, now);
            t.pending[place_of(t.pending, t.subid)] == (PendingV { id: t.subid, nonce, is_block, height, at: now })
        }),
{
    let id = next_count(s.subid);
    let mid = answered(s.pending, id);
    let t = submitted(s, nonce, is_block, height, now).pending;
    law_share_is_answered_once(s.pending, id);
    lemma_place(mid, id);
    assert forall|i: int, j: int| 0 <= i < j < t.len() implies (#[trigger] t[i]).id != (#[trigger] t[j]).id by {
        if j < mid.len() {
            assert(mid[i].id != mid[j].id);
        } else {
            assert(mid[i].id != id);
        }
    }
}

/// Law: a pool's answer to a submitted share is counted exactly once. The
/// first answer is acted on; the same answer again changes nothing.
pub proof fn law_answers_count_once(s: SessionV, st: StatsV, m: JsonV, error: Seq<char>, now: u64)
    requires
        ids_distinct(s.pending),
        m.field_uint("id"@) is Some,
        m.field_uint("id"@) != Some(1u64),
        m.field_text("method"@) is None,
    ensures
        ({
            let (s2, st2) = message(s, st, m, error, now);
            message(s2, st2, m, error, now) == (s2, st2)
        }),
{
    law_share_is_answered_once(s.pending, m.field_uint("id"@)->0);
}

/// Law: the pool's answer to a submitted share is counted for that share: one
/// that it accepts as accepted, one that it rejects as rejected, and either way
/// the share no longer waits.
pub proof fn law_submitted_share_is_counted(
    s: SessionV,
    st: StatsV,
    p: PendingV,
    m: JsonV,
    error: Seq<char>,
    now: u64,
)
    requires
        ids_distinct(s.pending),
        p.id == next_count(s.subid),
        p.id != 1,
        m.field_uint("id"@) == Some(p.id),
        m.field_text("method"@) is None,
    ensures
        ({
            let (t, st2) = message(submitted(s, p.nonce, p.is_block, p.height, p.at), st, m, error, now);
            &&& place_of(t.pending, p.id) == -1
            &&& m.field("result"@) == Some(JsonV::Bool(true)) ==> st2 == accepted(s.is_dev, st, p)
            &&& m.field("result"@) != Some(JsonV::Bool(true)) && given(m.field("error"@)) ==> st2 == rejected(
                s.is_dev,
                st,
                p,
                error,
            )
        }),
{
    let t = submitted(s, p.nonce, p.is_block, p.height, p.at);
    law_submitted_share_is_pending(s, p.nonce, p.is_block, p.height, p.at);
    law_share_is_answered_once(t.pending, p.id);
    lemma_place_is(t.pending, p.id, t.pending.len() - 1);
}

/// Law: every block found is an accepted share, and a message changes the
/// counts of accepted, rejected and donated by one share at most.
pub proof fn law_blocks_are_accepted_shares(s: SessionV, st: StatsV, m: JsonV, error: Seq<char>, now: u64)
    requires
        st.blocks <= st.accepted,
        st.accepted < u64::MAX,
        st.rejected < u64::MAX,
        st.donated < u64::MAX,
    ensures
        ({
            let st2 = message(s, st, m, error, now).1;
            &&& st2.blocks <= st2.accepted
            &&& st.accepted <= st2.accepted
            &&& st.rejected <= st2.rejected
            &&& st.donated <= st2.donated
            &&& (st2.accepted - st.accepted) + (st2.rejected - st.rejected) + (st2.donated - st.donated) <= 1
        }),
{
}

/// Law: the donation's session leaves the user's accepted shares, blocks and
/// difficulty alone. Rejected shares are counted together.
pub proof fn law_donation_leaves_accepted_counts(s: SessionV, st: StatsV, m: JsonV, error: Seq<char>, now: u64)
    requires
        s.is_dev,
    ensures
        ({
            let st2 = message(s, st, m, error, now).1;
            st2.accepted == st.accepted && st2.blocks == st.blocks && st2.diff == st.diff && st2.bits == st.bits
        }),
{
}

/// Law: a share that the pool has not answered in time is forgotten, and the
/// others are kept.
pub proof fn law_waiting_shares_are_kept(s: Seq<PendingV>, now: u64, p: PendingV)
    ensures
        still_waiting(s, now).contains(p) <==> s.contains(p) && !(p.at <= now && now - p.at >= 120_000_000_000),
    decreases s.len(),
{
    if s.len() > 0 {
        let t = s.drop_first();
        law_waiting_shares_are_kept(t, now, p);
        let rest = still_waiting(t, now);
        let all = still_waiting(s, now);
        if s.contains(p) && s[0] != p {
            let i = choose|i: int| 0 <= i < s.len() && s[i] == p;
            assert(t[i - 1] == p);
        }
        if t.contains(p) {
            let i = choose|i: int| 0 <= i < t.len() && t[i] == p;
            assert(s[i + 1] == p);
        }
        if passed(s[0].at, now) < ANSWER_WAIT {
            if rest.contains(p) {
                let i = choose|i: int| 0 <= i < rest.len() && rest[i] == p;
                assert(all[i + 1] == p);
            }
            if all.contains(p) {
                let i = choose|i: int| 0 <= i < all.len() && all[i] == p;
                if i > 0 {
                    assert(rest[i - 1] == p);
                }
            }
            if s[0] == p {
                assert(all[0] == p);
            }
        }
        if s[0] == p {
            assert(s.contains(p));
        }
    }
}

/// Law: a session keeps the login that it was opened with, whatever the pool
/// sends.
pub proof fn law_session_keeps_its_login(s: SessionV, st: StatsV, read: Incoming, now: u64)
    ensures
        pumped(s, st, read, now).0.addr == s.addr,
        pumped(s, st, read, now).0.is_dev == s.is_dev,
{
    if !(read is Closed) {
        let s1 = match read {
            Incoming::Data(d) => SessionV { buf: s.buf + d@, idle: now, ..s },
            _ => s,
        };
        lemma_lines_keep_login(SessionV { buf: rest_of(s1.buf), ..s1 }, st, lines_of(s1.buf), now);
    }
}

proof fn lemma_lines_keep_login(s: SessionV, st: StatsV, lines: Seq<Seq<u8>>, now: u64)
    ensures
        lines_read(s, st, lines, now).0.addr == s.addr,
        lines_read(s, st, lines, now).0.is_dev == s.is_dev,
    decreases lines.len(),
{
    if lines.len() > 0 {
        lemma_lines_keep_login(s, st, lines.drop_last(), now);
    }
}

/// Law: whatever the pool sends, no two pending shares have the same id.
pub proof fn law_ids_stay_distinct(s: SessionV, st: StatsV, read: Incoming, now: u64)
    requires
        ids_distinct(s.pending),
    ensures
        ids_distinct(pumped(s, st, read, now).0.pending),
{
    if !(read is Closed) {
        let s1 = match read {
            Incoming::Data(d) => SessionV { buf: s.buf + d@, idle: now, ..s },
            _ => s,
        };
        let s2 = SessionV { buf: rest_of(s1.buf), ..s1 };
        lemma_lines_keep_ids(s2, st, lines_of(s1.buf), now);
        lemma_waiting_keeps_ids(lines_read(s2, st, lines_of(s1.buf), now).0.pending, now);
    }
}

proof fn lemma_lines_keep_ids(s: SessionV, st: StatsV, lines: Seq<Seq<u8>>, now: u64)
    requires
        ids_distinct(s.pending),
    ensures
        ids_distinct(lines_read(s, st, lines, now).0.pending),
    decreases lines.len(),
{
    if lines.len() > 0 {
        lemma_lines_keep_ids(s, st, lines.drop_last(), now);
        let (t, st2) = lines_read(s, st, lines.drop_last(), now);
        match json_value(lines.last()) {
            Some(m) => {
                if m.field_uint("id"@) is Some {
                    law_share_is_answered_once(t.pending, m.field_uint("id"@)->0);
                }
            },
            None => {},
        }
    }
}

proof fn lemma_waiting_keeps_ids(s: Seq<PendingV>, now: u64)
    requires
        ids_distinct(s),
    ensures
        ids_distinct(still_waiting(s, now)),
    decreases s.len(),
{
    if s.len() > 0 {
        let t = s.drop_first();
        assert forall|i: int, j: int| 0 <= i < j < t.len() implies (#[trigger] t[i]).id != (#[trigger] t[j]).id by {
            assert(s[i + 1].id != s[j + 1].id);
        }
        lemma_waiting_keeps_ids(t, now);
        let rest = still_waiting(t, now);
        let all = still_waiting(s, now);
        if passed(s[0].at, now) < ANSWER_WAIT {
            assert forall|i: int, j: int| 0 <= i < j < all.len() implies (#[trigger] all[i]).id
                != (#[trigger] all[j]).id by {
                if i > 0 {
                    assert(rest[i - 1].id != rest[j - 1].id);
                } else {
                    law_waiting_shares_are_kept(t, now, rest[j - 1]);
                    assert(rest.contains(rest[j - 1]));
                    let k = choose|k: int| 0 <= k < t.len() && t[k] == rest[j - 1];
                    assert(s[0].id != s[k + 1].id);
                }
            }
        }
    }
}

/// Law: a pool that sets a whole difficulty gets exactly that difficulty, and
/// the miner then filters at the power of two below it.
pub proof fn law_whole_difficulty_is_set(s: SessionV, st: StatsV, params: Option<JsonV>, n: u64)
    requires
        1 <= n <= EXACT,
        item_of(params, 0) == Some(JsonV::Uint(n)),
    ensures
        exactly(difficulty_set(s, st, params).0.diff, n as int),
        !s.is_dev ==> difficulty_set(s, st, params).1.diff == difficulty_set(s, st, params).0.diff,
        !s.is_dev ==> ({
            let bits = difficulty_set(s, st, params).1.bits;
            pow2(bits as nat) <= n < pow2(bits as nat + 1)
        }),
{
    lemma_whole_is_there(n as int);
    law_whole_difficulty_asks_for_its_bits(n);
}

/// Whether no share has waited too long.
pub open spec fn all_fresh(s: Seq<PendingV>, now: u64) -> bool {
    forall|i: int| 0 <= i < s.len() ==> passed((#[trigger] s[i]).at, now) < ANSWER_WAIT
}

proof fn lemma_fresh_shares_stay(s: Seq<PendingV>, now: u64)
    requires
        all_fresh(s, now),
    ensures
        still_waiting(s, now) == s,
    decreases s.len(),
{
    if s.len() > 0 {
        let t = s.drop_first();
        assert forall|i: int| 0 <= i < t.len() implies passed((#[trigger] t[i]).at, now) < ANSWER_WAIT by {
            assert(t[i] == s[i + 1]);
        }
        assert(passed(s[0].at, now) < ANSWER_WAIT);
        lemma_fresh_shares_stay(t, now);
        assert(seq![s[0]] + t =~= s);
    }
}

proof fn lemma_lines_keep_fresh(s: SessionV, st: StatsV, lines: Seq<Seq<u8>>, now: u64, at: u64)
    requires
        all_fresh(s.pending, at),
    ensures
        all_fresh(lines_read(s, st, lines, now).0.pending, at),
    decreases lines.len(),
{
    if lines.len() > 0 {
        lemma_lines_keep_fresh(s, st, lines.drop_last(), now, at);
        let t = lines_read(s, st, lines.drop_last(), now).0.pending;
        let u = lines_read(s, st, lines, now).0.pending;
        assert forall|i: int| 0 <= i < u.len() implies passed((#[trigger] u[i]).at, at) < ANSWER_WAIT by {
            match json_value(lines.last()) {
                Some(m) => {
                    if m.field_uint("id"@) is Some {
                        lemma_place(t, m.field_uint("id"@)->0);
                    }
                },
                None => {},
            }
            assert(u[i] == t[i] || u[i] == t[i + 1]);
        }
    }
}

proof fn lemma_lines_in_two(s: SessionV, st: StatsV, a: Seq<Seq<u8>>, b: Seq<Seq<u8>>, now: u64)
    ensures
        ({
            let (t, st2) = lines_read(s, st, a, now);
            lines_read(s, st, a + b, now) == lines_read(t, st2, b, now)
        }),
    decreases b.len(),
{
    if b.len() > 0 {
        lemma_lines_in_two(s, st, a, b.drop_last(), now);
        assert((a + b).drop_last() =~= a + b.drop_last());
    } else {
        assert(a + b =~= a);
    }
}

/// A session but for when bytes and jobs came in.
pub open spec fn timeless(s: SessionV) -> SessionV {
    SessionV { idle: 0, last_notify: 0, ..s }
}

/// When lines are acted on shows in nothing but the times.
proof fn lemma_times_are_apart(a: SessionV, b: SessionV, st: StatsV, lines: Seq<Seq<u8>>, at: u64, bt: u64)
    requires
        timeless(a) == timeless(b),
    ensures
        timeless(lines_read(a, st, lines, at).0) == timeless(lines_read(b, st, lines, bt).0),
        lines_read(a, st, lines, at).1 == lines_read(b, st, lines, bt).1,
    decreases lines.len(),
{
    if lines.len() > 0 {
        lemma_times_are_apart(a, b, st, lines.drop_last(), at, bt);
        let (x, st2) = lines_read(a, st, lines.drop_last(), at);
        let (y, st3) = lines_read(b, st, lines.drop_last(), bt);
        lemma_line_times(x, y, st2, lines.last(), at, bt);
    }
}

proof fn lemma_line_times(a: SessionV, b: SessionV, st: StatsV, line: Seq<u8>, at: u64, bt: u64)
    requires
        timeless(a) == timeless(b),
    ensures
        timeless(line_read(a, st, line, at).0) == timeless(line_read(b, st, line, bt).0),
        line_read(a, st, line, at).1 == line_read(b, st, line, bt).1,
{
    let (x, y) = (timeless(a), timeless(b));
    assert(a.buf == x.buf && a.en1 == x.en1 && a.en2size == x.en2size && a.diff == x.diff && a.job == x.job && a.en2ctr
        == x.en2ctr && a.pending == x.pending && a.subid == x.subid && a.addr == x.addr && a.is_dev == x.is_dev);
    assert(b.buf == y.buf && b.en1 == y.en1 && b.en2size == y.en2size && b.diff == y.diff && b.job == y.job && b.en2ctr
        == y.en2ctr && b.pending == y.pending && b.subid == y.subid && b.addr == y.addr && b.is_dev == y.is_dev);
    assert(timeless(line_read(a, st, line, at).0) =~= timeless(line_read(b, st, line, bt).0));
}

/// Bytes of the pool, and when they were read.
pub struct Chunk {
    pub bytes: Seq<u8>,
    pub at: u64,
}

/// After several reads.
pub open spec fn all_fed(s: SessionV, st: StatsV, c: Seq<Chunk>) -> (SessionV, StatsV)
    decreases c.len(),
{
    if c.len() == 0 {
        (s, st)
    } else {
        let (t, st2) = all_fed(s, st, c.drop_last());
        fed(t, st2, c.last().bytes, c.last().at)
    }
}

/// All the bytes of several reads.
pub open spec fn all_bytes(c: Seq<Chunk>) -> Seq<u8>
    decreases c.len(),
{
    if c.len() == 0 { Seq::empty() } else { all_bytes(c.drop_last()) + c.last().bytes }
}

/// Whether reads come one after another, the last not after `end`.
pub open spec fn in_turn(c: Seq<Chunk>, end: u64) -> bool {
    &&& forall|i: int, j: int| 0 <= i < j < c.len() ==> (#[trigger] c[i]).at <= (#[trigger] c[j]).at
    &&& forall|i: int| 0 <= i < c.len() ==> (#[trigger] c[i]).at <= end
}

/// What several reads come to: their lines, acted on as if they came at once.
#[verifier::spinoff_prover]
#[verifier::rlimit(60)]
proof fn lemma_reads_come_to(s: SessionV, st: StatsV, c: Seq<Chunk>, end: u64)
    requires
        c.len() > 0,
        in_turn(c, end),
        all_fresh(s.pending, end),
    ensures
        ({
            let all = s.buf + all_bytes(c);
            let (t, st2) = all_fed(s, st, c);
            let (u, st3) = lines_read(SessionV { buf: rest_of(all), ..s }, st, lines_of(all), 0);
            &&& timeless(t) == timeless(u)
            &&& st2 == st3
            &&& t.buf == rest_of(all)
            &&& all_fresh(t.pending, end)
        }),
    decreases c.len(),
{
    let d = c.drop_last();
    let x = c[c.len() - 1];
    let all = s.buf + all_bytes(c);
    let (t, st2) = if d.len() == 0 { (s, st) } else { all_fed(s, st, d) };
    if d.len() > 0 {
        assert forall|i: int, j: int| 0 <= i < j < d.len() implies (#[trigger] d[i]).at <= (#[trigger] d[j]).at by {
            assert(c[i].at <= c[j].at);
        }
        assert forall|i: int| 0 <= i < d.len() implies (#[trigger] d[i]).at <= end by {
            assert(c[i].at <= end);
        }
        lemma_reads_come_to(s, st, d, end);
    }
    // The last read.
    let now = x.at;
    let base = SessionV { buf: rest_of(t.buf + x.bytes), idle: now, ..t };
    let lines = lines_of(t.buf + x.bytes);
    let (u, st3) = lines_read(base, st2, lines, now);
    lemma_lines_keep_fresh(base, st2, lines, now, end);
    assert forall|i: int| 0 <= i < u.pending.len() implies passed((#[trigger] u.pending[i]).at, now) < ANSWER_WAIT by {
        assert(passed(u.pending[i].at, end) < ANSWER_WAIT);
    }
    lemma_fresh_shares_stay(u.pending, now);
    assert(all_fed(s, st, c).0 =~= u);
    lemma_buffer_is_apart(base, st2, lines, now, base.buf);
    // All reads at once.
    if d.len() == 0 {
        assert(all_bytes(c) =~= x.bytes) by {
            assert(all_bytes(d) =~= Seq::<u8>::empty());
        }
        assert(all =~= t.buf + x.bytes);
        assert(timeless(base) =~= timeless(SessionV { buf: rest_of(all), ..s }));
        lemma_times_are_apart(base, SessionV { buf: rest_of(all), ..s }, st, lines, now, 0);
    } else {
        let first = s.buf + all_bytes(d);
        assert(all =~= first + x.bytes);
        law_chunks_do_not_matter(first, x.bytes);
        let b1 = SessionV { buf: rest_of(first), ..s };
        let b2 = SessionV { buf: rest_of(all), ..s };
        let (v, st4) = lines_read(b1, st, lines_of(first), 0);
        lemma_buffer_is_apart(b1, st, lines_of(first), 0, rest_of(all));
        assert(SessionV { buf: rest_of(all), ..b1 } =~= b2);
        let v2 = SessionV { buf: rest_of(all), ..v };
        lemma_lines_in_two(b2, st, lines_of(first), lines, 0);
        lemma_same_but_buffer(t, v, rest_of(all));
        assert(timeless(base) =~= timeless(SessionV { buf: rest_of(all), ..t }));
        lemma_times_are_apart(base, v2, st2, lines, now, 0);
    }
}

proof fn lemma_same_but_buffer(a: SessionV, b: SessionV, buf: Seq<u8>)
    requires
        timeless(a) == timeless(b),
    ensures
        timeless(SessionV { buf, ..a }) == timeless(SessionV { buf, ..b }),
{
    assert(timeless(SessionV { buf, ..a }) == SessionV { buf, ..timeless(a) });
    assert(timeless(SessionV { buf, ..b }) == SessionV { buf, ..timeless(b) });
}

/// Law: it does not matter how the pool's bytes are cut into reads, nor when
/// those come. Reads one after another of the same bytes leave the same
/// session but for the times at which bytes and jobs came in, the same counts
/// and the same log, as long as no share has waited too long meanwhile; and the
/// buffer holds what follows the last line end, and no line end.
pub proof fn law_reads_can_be_cut(s: SessionV, st: StatsV, a: Seq<Chunk>, b: Seq<Chunk>, end: u64)
    requires
        a.len() > 0,
        b.len() > 0,
        all_bytes(a) == all_bytes(b),
        in_turn(a, end),
        in_turn(b, end),
        all_fresh(s.pending, end),
    ensures
        timeless(all_fed(s, st, a).0) == timeless(all_fed(s, st, b).0),
        all_fed(s, st, a).1 == all_fed(s, st, b).1,
        all_fed(s, st, a).0.buf == rest_of(s.buf + all_bytes(a)),
        forall|j: int| 0 <= j < all_fed(s, st, a).0.buf.len() ==> #[trigger] all_fed(s, st, a).0.buf[j] != 10,
{
    law_lines_are_whole(s.buf + all_bytes(a));
    lemma_reads_come_to(s, st, a, end);
    lemma_reads_come_to(s, st, b, end);
}

/// Law: a line that is no JSON text changes nothing, wherever it comes.
pub proof fn law_noise_changes_nothing(
    s: SessionV,
    st: StatsV,
    a: Seq<Seq<u8>>,
    noise: Seq<u8>,
    b: Seq<Seq<u8>>,
    now: u64,
)
    requires
        json_value(noise) is None,
    ensures
        lines_read(s, st, a.push(noise) + b, now) == lines_read(s, st, a + b, now),
{
    lemma_lines_in_two(s, st, a.push(noise), b, now);
    lemma_lines_in_two(s, st, a, b, now);
    assert(a.push(noise).drop_last() =~= a);
}

// ------------------------------------------------------------ message laws

/// Lines, each with its line end.
pub open spec fn ended_lines(lines: Seq<Seq<u8>>) -> Seq<u8>
    decreases lines.len(),
{
    if lines.len() == 0 { Seq::empty() } else { lines[0] + seq![10u8] + ended_lines(lines.drop_first()) }
}

/// Law: no byte is lost. The complete lines with their line ends, and the rest,
/// are the bytes that came in.
pub proof fn law_lines_make_up_the_bytes(s: Seq<u8>)
    ensures
        ended_lines(lines_of(s)) + rest_of(s) == s,
    decreases s.len(),
{
    lemma_line_end(s);
    let n = line_end(s);
    if n >= s.len() {
        assert(ended_lines(lines_of(s)) + rest_of(s) =~= s);
    } else {
        let t = s.skip(n + 1);
        law_lines_make_up_the_bytes(t);
        let l = lines_of(s);
        assert(l.drop_first() =~= lines_of(t));
        assert(l[0] == s.take(n));
        assert(s.take(n) + seq![10u8] + ended_lines(lines_of(t)) + rest_of(t) =~= s.take(n) + seq![10u8] + (
        ended_lines(lines_of(t)) + rest_of(t)));
        assert(s.take(n) + seq![10u8] + t =~= s);
    }
}

/// Law: lines are acted on one after another, each once, in their order.
pub proof fn law_lines_are_acted_on_in_order(s: SessionV, st: StatsV, a: Seq<Seq<u8>>, line: Seq<u8>, b: Seq<Seq<u8>>, now: u64)
    ensures
        lines_read(s, st, Seq::empty(), now) == (s, st),
        ({
            let (t, st2) = lines_read(s, st, a, now);
            let (u, st3) = line_read(t, st2, line, now);
            lines_read(s, st, a.push(line) + b, now) == lines_read(u, st3, b, now)
        }),
{
    lemma_lines_in_two(s, st, a.push(line), b, now);
    assert(a.push(line).drop_last() =~= a);
}

/// Law: a read acts on every complete line of the bytes that were left over and
/// those that came in, keeps the rest for the next read, and notes the time;
/// a closed connection changes nothing.
pub proof fn law_reads_act_on_lines(s: SessionV, st: StatsV, d: Vec<u8>, now: u64)
    ensures
        ({
            let all = s.buf + d@;
            let (t, st2) = pumped(s, st, Incoming::Data(d), now);
            let (u, st3) = lines_read(s, st, lines_of(all), now);
            &&& st2 == st3
            &&& t.buf == rest_of(all)
            &&& t.en1 == u.en1 && t.en2size == u.en2size && t.diff == u.diff && t.job == u.job && t.en2ctr == s.en2ctr
                && t.subid == s.subid && t.addr == s.addr && t.is_dev == s.is_dev && t.last_notify == u.last_notify
            &&& t.idle == now
            &&& forall|p: PendingV| #[trigger]
                t.pending.contains(p) <==> u.pending.contains(p) && !(p.at <= now && now - p.at >= 120_000_000_000)
        }),
        pumped(s, st, Incoming::Closed, now) == (s, st),
{
    let all = s.buf + d@;
    let s1 = SessionV { buf: rest_of(all), idle: now, ..s };
    lemma_buffer_is_apart(s, st, lines_of(all), now, rest_of(all));
    lemma_idle_is_apart(SessionV { buf: rest_of(all), ..s }, st, lines_of(all), now, now);
    lemma_lines_keep_login(s, st, lines_of(all), now);
    lemma_lines_keep_counters(s, st, lines_of(all), now);
    let (t, st2) = pumped(s, st, Incoming::Data(d), now);
    let (u, st3) = lines_read(s, st, lines_of(all), now);
    assert forall|p: PendingV| #[trigger]
        t.pending.contains(p) <==> u.pending.contains(p) && !(p.at <= now && now - p.at >= 120_000_000_000) by {
        law_waiting_shares_are_kept(u.pending, now, p);
    }
}

proof fn lemma_idle_is_apart(s: SessionV, st: StatsV, lines: Seq<Seq<u8>>, now: u64, idle: u64)
    ensures
        ({
            let (a, x) = lines_read(s, st, lines, now);
            let (b, y) = lines_read(SessionV { idle, ..s }, st, lines, now);
            b == (SessionV { idle, ..a }) && x == y && a.idle == s.idle
        }),
    decreases lines.len(),
{
    if lines.len() > 0 {
        lemma_idle_is_apart(s, st, lines.drop_last(), now, idle);
    }
}

proof fn lemma_lines_keep_counters(s: SessionV, st: StatsV, lines: Seq<Seq<u8>>, now: u64)
    ensures
        lines_read(s, st, lines, now).0.en2ctr == s.en2ctr,
        lines_read(s, st, lines, now).0.subid == s.subid,
    decreases lines.len(),
{
    if lines.len() > 0 {
        lemma_lines_keep_counters(s, st, lines.drop_last(), now);
    }
}

/// Law: the pool's answer to the subscription gives its part of the extranonce
/// and the size of the miner's, 8 where it names none. The job, the difficulty
/// and the waiting shares stay, and no count changes.
pub proof fn law_subscription_gives_the_extranonce(
    s: SessionV,
    st: StatsV,
    line: Seq<u8>,
    m: JsonV,
    l: Seq<JsonV>,
    now: u64,
)
    requires
        json_value(line) == Some(m),
        m.field("id"@) == Some(JsonV::Uint(1)),
        m.field("result"@) == Some(JsonV::List(l)),
        l.len() >= 2,
        l[1] is Text,
    ensures
        ({
            let (t, st2) = line_read(s, st, line, now);
            &&& t.en1 == Some(l[1]->Text_0)
            &&& l.len() >= 3 && l[2] is Uint && l[2]->Uint_0 <= usize::MAX ==> t.en2size == l[2]->Uint_0
            &&& l.len() == 2 || (l.len() >= 3 && !(l[2] is Uint)) ==> t.en2size == 8
            &&& t.job == s.job && t.diff == s.diff && t.pending == s.pending && t.buf == s.buf && t.en2ctr == s.en2ctr
                && t.subid == s.subid && t.addr == s.addr
            &&& st2.accepted == st.accepted && st2.rejected == st.rejected && st2.blocks == st.blocks && st2.donated
                == st.donated && st2.outbox == st.outbox
            &&& s.is_dev ==> st2 == st
            &&& !s.is_dev ==> st2.unsaved == st.unsaved.push("subscribed · extranonce1="@ + l[1]->Text_0)
        }),
{
}

/// Law: a job that the pool sends is the one that is mined next, and the time
/// it came is noted. Nothing else changes.
pub proof fn law_jobs_are_taken_over(s: SessionV, st: StatsV, line: Seq<u8>, m: JsonV, now: u64)
    requires
        json_value(line) == Some(m),
        m.field("method"@) == Some(JsonV::Text("mining.notify"@)),
        m.field("id"@) != Some(JsonV::Uint(1)),
    ensures
        ({
            let (t, st2) = line_read(s, st, line, now);
            &&& m.field("params"@) is Some && m.field("params"@)->0 is List ==> t.job == Some(
                m.field("params"@)->0->List_0,
            )
            &&& m.field("params"@) is None || !(m.field("params"@)->0 is List) ==> t.job is None
            &&& t.last_notify == now
            &&& t.en1 == s.en1 && t.en2size == s.en2size && t.diff == s.diff && t.pending == s.pending && t.en2ctr
                == s.en2ctr && t.subid == s.subid && t.addr == s.addr && t.buf == s.buf && t.idle == s.idle
            &&& st2 == st
        }),
{
    lemma_methods_differ();
}

proof fn lemma_methods_differ()
    ensures
        "mining.notify"@ != "mining.set_difficulty"@,
{
    reveal_strlit("mining.notify");
    reveal_strlit("mining.set_difficulty");
    assert("mining.notify"@.len() == 13 && "mining.set_difficulty"@.len() == 21);
}

/// Law: a difficulty that the pool sends is the session's from then on, as it
/// was sent, and 1 where it is no number. The user's is shown; the rest stays.
pub proof fn law_difficulties_are_taken_over(s: SessionV, st: StatsV, line: Seq<u8>, m: JsonV, l: Seq<JsonV>, now: u64)
    requires
        json_value(line) == Some(m),
        m.field("method"@) == Some(JsonV::Text("mining.set_difficulty"@)),
        m.field("id"@) != Some(JsonV::Uint(1)),
        m.field("params"@) == Some(JsonV::List(l)),
        l.len() >= 1,
    ensures
        ({
            let (t, st2) = line_read(s, st, line, now);
            &&& l[0] is Real ==> t.diff == l[0]->Real_0
            &&& l[0] is Uint && l[0]->Uint_0 <= 0x20_0000_0000_0000 ==> exactly(t.diff, l[0]->Uint_0 as int)
            &&& l[0] is Text || l[0] is Null || l[0] is Bool || l[0] is List || l[0] is Object ==> exactly(t.diff, 1)
            &&& t.job == s.job && t.en1 == s.en1 && t.en2size == s.en2size && t.pending == s.pending && t.en2ctr
                == s.en2ctr && t.subid == s.subid && t.addr == s.addr && t.buf == s.buf && t.last_notify
                == s.last_notify
            &&& s.is_dev ==> st2 == st
            &&& !s.is_dev ==> st2.diff == t.diff && st2.bits == pot(t.diff)
            &&& st2.accepted == st.accepted && st2.rejected == st.rejected && st2.blocks == st.blocks && st2.outbox
                == st.outbox
        }),
{
    if l[0] is Uint && l[0]->Uint_0 <= 0x20_0000_0000_0000 {
        lemma_whole_is_there(l[0]->Uint_0 as int);
    }
    lemma_one();
}

proof fn lemma_one()
    ensures
        exactly(diff_one(), 1),
{
    let m = 0x3ff0_0000_0000_0000int;
    assert(m / 0x10_0000_0000_0000 == 1023 && m % 0x10_0000_0000_0000 == 0);
    vstd::arithmetic::power2::lemma2_to64_rest();
    vstd::arithmetic::power2::lemma_pow2_adds(52, 1022);
}

/// Law: what the pool accepts counts once as accepted, and as a block exactly
/// where the share was one; only a block is told as an alert. Shares of the
/// donation count as nothing but its blocks.
pub proof fn law_accepted_shares_count(is_dev: bool, st: StatsV, p: PendingV)
    requires
        st.accepted < u64::MAX,
        st.blocks < u64::MAX,
        st.donated < u64::MAX,
    ensures
        ({
            let t = accepted(is_dev, st, p);
            let block = if p.is_block { 1int } else { 0 };
            &&& !is_dev ==> {
                &&& t.accepted == st.accepted + 1
                &&& t.blocks == st.blocks + block
                &&& t.donated == st.donated
                &&& t.outbox.len() == st.outbox.len() + block
                &&& p.is_block ==> t.outbox.last().title == "🎉 BLOCK FOUND"@
                &&& t.unsaved.len() == st.unsaved.len() + 1 + block
            }
            &&& is_dev ==> {
                &&& t.accepted == st.accepted
                &&& t.blocks == st.blocks
                &&& t.donated == st.donated + block
                &&& t.outbox == st.outbox
                &&& t.unsaved.len() == st.unsaved.len() + block
            }
            &&& t.rejected == st.rejected && t.diff == st.diff && t.bits == st.bits && t.connected == st.connected
                && t.paused == st.paused && t.addr == st.addr
        }),
{
}

/// Law: what the pool rejects counts once as rejected and is logged with the
/// pool's error and the nonce. Nothing else is counted, and nothing is told.
pub proof fn law_rejected_shares_count(is_dev: bool, st: StatsV, p: PendingV, error: Seq<char>)
    requires
        st.rejected < u64::MAX,
    ensures
        ({
            let t = rejected(is_dev, st, p, error);
            &&& t.rejected == st.rejected + 1
            &&& t.accepted == st.accepted && t.blocks == st.blocks && t.donated == st.donated && t.outbox == st.outbox
                && t.diff == st.diff && t.bits == st.bits && t.connected == st.connected && t.addr == st.addr
            &&& t.unsaved.len() == st.unsaved.len() + 1
            &&& !is_dev ==> t.unsaved.last() == "✗ "@ + "rejected ("@ + error + ")  nonce "@ + p.nonce
            &&& is_dev ==> t.unsaved.last() == "✗ "@ + "donation "@ + "rejected ("@ + error + ")  nonce "@ + p.nonce
        }),
{
    assert("✗ "@ + Seq::<char>::empty() =~= "✗ "@);
}

/// Law: an answer counts for the share it is for. The share that waits under
/// the answer's id waits no longer and the others still do; it is accepted
/// where the pool says so, else rejected where the pool names an error, else
/// only dropped. An answer to no waiting share changes nothing.
pub proof fn law_answers_find_their_share(s: SessionV, st: StatsV, line: Seq<u8>, m: JsonV, id: u64, now: u64)
    requires
        json_value(line) == Some(m),
        ids_distinct(s.pending),
        id != 1,
        m.field("id"@) == Some(JsonV::Uint(id)),
        m.field("method"@) is None || !(m.field("method"@)->0 is Text),
    ensures
        ({
            let (t, st2) = line_read(s, st, line, now);
            &&& forall|p: PendingV| #[trigger] t.pending.contains(p) <==> s.pending.contains(p) && p.id != id
            &&& forall|p: PendingV| #[trigger]
                s.pending.contains(p) && p.id == id ==> {
                    &&& m.field("result"@) == Some(JsonV::Bool(true)) ==> st2 == accepted(s.is_dev, st, p)
                    &&& m.field("result"@) != Some(JsonV::Bool(true)) && m.field("error"@) is Some && m.field(
                        "error"@,
                    )->0 != JsonV::Null ==> st2 == rejected(s.is_dev, st, p, json_text(m.field("error"@)->0))
                    &&& m.field("result"@) != Some(JsonV::Bool(true)) && (m.field("error"@) is None || m.field(
                        "error"@,
                    )->0 == JsonV::Null) ==> st2 == st
                }
            &&& (forall|p: PendingV| #[trigger] s.pending.contains(p) ==> p.id != id) ==> (t, st2) == (s, st)
            &&& t.job == s.job && t.en1 == s.en1 && t.en2size == s.en2size && t.diff == s.diff && t.en2ctr == s.en2ctr
                && t.subid == s.subid && t.addr == s.addr && t.buf == s.buf
        }),
{
    let k = place_of(s.pending, id);
    lemma_place(s.pending, id);
    let (t, st2) = line_read(s, st, line, now);
    assert forall|p: PendingV| #[trigger] t.pending.contains(p) <==> s.pending.contains(p) && p.id != id by {
        if s.pending.contains(p) && p.id != id {
            let i = choose|i: int| 0 <= i < s.pending.len() && s.pending[i] == p;
            if k >= 0 {
                let x = if i < k { i } else { i - 1 };
                assert(t.pending[x] == p);
            }
        }
        if t.pending.contains(p) {
            lemma_answered_is_part(s.pending, id);
            let i = choose|i: int| 0 <= i < t.pending.len() && t.pending[i] == p;
            if k >= 0 {
                let y = if i < k { i } else { i + 1 };
                assert(t.pending[i] == s.pending[y]);
                if y < k {
                    assert(s.pending[y].id != s.pending[k].id);
                } else {
                    assert(s.pending[k].id != s.pending[y].id);
                }
            } else {
                assert(s.pending[i].id != id);
            }
        }
    }
    assert forall|p: PendingV| #[trigger] s.pending.contains(p) && p.id == id implies k >= 0 && p == s.pending[k] by {
        let i = choose|i: int| 0 <= i < s.pending.len() && s.pending[i] == p;
        if i < k {
            assert(s.pending[i].id != s.pending[k].id);
        } else if k < i {
            assert(s.pending[i].id != id);
        }
    }
    if k >= 0 {
        assert(s.pending.contains(s.pending[k]));
    }
}

/// Law: a submitted share waits under a new id with everything that is needed
/// to count it; the shares before it still wait.
pub proof fn law_submitting_adds_one_share(s: SessionV, nonce: Seq<char>, is_block: bool, height: u64, now: u64)
    requires
        s.subid < u64::MAX,
        forall|p: PendingV| #[trigger] s.pending.contains(p) ==> p.id <= s.subid,
    ensures
        ({
            let t = submitted(s, nonce, is_block, height, now);
            &&& t.subid == s.subid + 1
            &&& t.pending.len() == s.pending.len() + 1
            &&& t.pending.drop_last() == s.pending
            &&& t.pending.last().id == t.subid
            &&& t.pending.last().nonce == nonce
            &&& t.pending.last().is_block == is_block
            &&& t.pending.last().height == height
            &&& t.pending.last().at == now
            &&& t.job == s.job && t.en1 == s.en1 && t.en2size == s.en2size && t.diff == s.diff && t.en2ctr == s.en2ctr
                && t.addr == s.addr && t.buf == s.buf && t.idle == s.idle && t.last_notify == s.last_notify
        }),
{
    let id = next_count(s.subid);
    lemma_place(s.pending, id);
    let k = place_of(s.pending, id);
    if k >= 0 {
        assert(s.pending.contains(s.pending[k]));
    }
    assert(submitted(s, nonce, is_block, height, now).pending.drop_last() =~= s.pending);
}

/// Law: work can be built exactly where the pool has given its part of the
/// extranonce and a job of eight items or more, and it is built from those.
pub proof fn law_work_is_built_from_what_the_pool_gave(s: SessionV)
    ensures
        ready_with(s) is Some <==> s.en1 is Some && s.job is Some && s.job->0.len() >= 8,
        ready_with(s) is Some ==> ready_with(s)->0 == (s.en1->0, s.job->0),
{
}

/// Law: a new session knows nothing of its pool yet. It has no extranonce, no
/// job and no waiting share, and asks for difficulty 1.
pub proof fn law_sessions_start_empty(addr: Seq<char>, is_dev: bool, now: u64)
    ensures
        ({
            let s = opened(addr, is_dev, now);
            &&& s.addr == addr && s.is_dev == is_dev
            &&& s.en1 is None && s.job is None && s.pending.len() == 0 && s.buf.len() == 0 && s.en2ctr == 0
            &&& exactly(s.diff, 1)
            &&& s.idle == now && s.last_notify == now
            &&& ready_with(s) is None
        }),
{
    lemma_one();
}

/// Law: time that has passed is the difference of the clocks, and none where
/// the clock went back.
pub proof fn law_time_does_not_run_backwards(at: u64, now: u64)
    ensures
        at <= now ==> passed(at, now) == now - at,
        now < at ==> passed(at, now) == 0,
{
}

/// Law: two units built one after the other are of the same job but have
/// different extranonces, so that nothing is searched twice, as long as the
/// counter fits in the size that the pool asked for. The session changes in
/// nothing but the counter.
pub proof fn law_units_in_a_row_differ(s: SessionV, en1: Seq<char>, job: Seq<JsonV>)
    requires
        s.en2size >= 1,
        s.en2ctr < u64::MAX,
        s.en2size < 8 ==> s.en2ctr + 1 < pow2(8 * s.en2size as nat),
    ensures
        ({
            let (a, s2) = built(s, en1, job);
            let (b, s3) = built(s2, en1, job);
            &&& a.en2hex != b.en2hex
            &&& a.job_id == b.job_id && a.prevhash == b.prevhash && a.ntime == b.ntime && a.version == b.version
            &&& s2.en2ctr == s.en2ctr + 1
            &&& s2.en1 == s.en1 && s2.en2size == s.en2size && s2.job == s.job && s2.diff == s.diff && s2.pending
                == s.pending && s2.subid == s.subid && s2.addr == s.addr && s2.buf == s.buf
        }),
{
    crate::work::law_units_are_submitted_apart(en1, job, s.en2ctr, next_count(s.en2ctr), s.en2size as nat);
}

/// Law: a read that brings nothing changes nothing but that shares that have
/// waited for two minutes are forgotten.
pub proof fn law_quiet_reads_only_forget(s: SessionV, st: StatsV, now: u64)
    requires
        forall|j: int| 0 <= j < s.buf.len() ==> #[trigger] s.buf[j] != 10,
    ensures
        ({
            let (t, st2) = pumped(s, st, Incoming::Nothing, now);
            &&& st2 == st
            &&& t.buf == s.buf && t.en1 == s.en1 && t.en2size == s.en2size && t.diff == s.diff && t.job == s.job
                && t.en2ctr == s.en2ctr && t.subid == s.subid && t.addr == s.addr && t.idle == s.idle && t.last_notify
                == s.last_notify
            &&& forall|p: PendingV| #[trigger]
                t.pending.contains(p) <==> s.pending.contains(p) && !(p.at <= now && now - p.at >= 120_000_000_000)
        }),
{
    lemma_no_line_end(s.buf);
    assert forall|p: PendingV| #[trigger]
        pumped(s, st, Incoming::Nothing, now).0.pending.contains(p) <==> s.pending.contains(p) && !(p.at <= now && now
            - p.at >= 120_000_000_000) by {
        law_waiting_shares_are_kept(s.pending, now, p);
    }
}

proof fn lemma_no_line_end(s: Seq<u8>)
    requires
        forall|j: int| 0 <= j < s.len() ==> #[trigger] s[j] != 10,
    ensures
        line_end(s) == s.len(),
    decreases s.len(),
{
    if s.len() > 0 {
        let d = s.drop_first();
        assert forall|j: int| 0 <= j < d.len() implies #[trigger] d[j] != 10 by {
            assert(s[j + 1] != 10);
        }
        lemma_no_line_end(d);
    }
}

/// Law: an accepted share is logged with its number and its nonce; a block also
/// with its height, where that is known, and told with the address it pays.
pub proof fn law_accepted_shares_are_told(st: StatsV, p: PendingV)
    requires
        st.accepted < u64::MAX,
        st.blocks < u64::MAX,
        st.donated < u64::MAX,
    ensures
        ({
            let t = accepted(false, st, p);
            let d = accepted(true, st, p);
            let h = if p.height > 0 { "height "@ + dec(p.height as nat) + " "@ } else { Seq::empty() };
            let n = dec((st.blocks + 1) as nat);
            &&& !p.is_block ==> t.unsaved.last() == "✓ share accepted (#"@ + dec((st.accepted + 1) as nat)
                + ") · nonce "@ + p.nonce
            &&& p.is_block ==> t.unsaved[st.unsaved.len() as int] == "🎉 BLOCK FOUND "@ + h + "(#"@ + n
                + ")  paid to your address · nonce "@ + p.nonce
            &&& p.is_block ==> t.outbox.last().body == h + "block #"@ + n + " this session · paid to "@ + st.addr
            &&& p.is_block ==> d.unsaved.last() == "💚 donation BLOCK "@ + h + "(#"@ + dec((st.donated + 1) as nat)
                + ") → developer · thank you! · nonce "@ + p.nonce
        }),
{
}

/// Law: a difficulty without a number is 1; shares are asked for under ids that
/// the greeting does not use.
pub proof fn law_defaults_of_a_session(s: SessionV, st: StatsV, addr: Seq<char>, is_dev: bool, now: u64)
    ensures
        exactly(difficulty_set(s, st, None).0.diff, 1),
        opened(addr, is_dev, now).subid > 3,
        opened(addr, is_dev, now).en2size == 8,
{
    law_sessions_start_empty(addr, is_dev, now);
}

} // verus!
