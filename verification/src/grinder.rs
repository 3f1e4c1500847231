//! The grinder processes: how the nonces are shared out among them, what they
//! print, and when one that died is started again.

use crate::session::{passed, since};
use crate::text::{
    begins_with, dec, dec_text, law_numbers_hold_only_digits, law_numbers_read_back, law_parts_split_off, parsed,
    split_text, starts_with, trim, trimmed,
};
use vstd::arithmetic::div_mod::lemma_fundamental_div_mod;
use vstd::arithmetic::power2::{lemma2_to64, lemma_pow2_strictly_increases, pow2};
use vstd::prelude::*;

verus! {

// ---------------------------------------------------------------- sharing out

/// How many nonces a header has.
pub const NONCES: u64 = 0x1_0000_0000;

/// The least that a GPU is counted with.
pub const GPU_LEAST: u64 = 0x40_0000;

/// The least that the CPU is counted with.
pub const CPU_LEAST: u64 = 2_000_000;

/// What a GPU can search in a sweep, as its last rate tells; nothing if it is
/// down.
#[derive(Clone, Copy, Debug)]
pub struct Capacity {
    pub dead: bool,
    pub want: u64,
}

/// A worker's part of a sweep.
#[derive(Clone, Copy, Debug, PartialEq, Eq, Structural)]
pub struct Part {
    pub start: u64,
    pub span: u64,
}

/// What a GPU is counted with.
pub open spec fn gpu_cap(c: Capacity) -> nat {
    if c.dead { 0 } else if c.want < GPU_LEAST { GPU_LEAST as nat } else { c.want as nat }
}

/// What the CPU is counted with.
pub open spec fn cpu_cap(threads: usize, want: u64) -> nat {
    if threads == 0 { 0 } else if want < CPU_LEAST { CPU_LEAST as nat } else { want as nat }
}

/// What several GPUs are counted with.
pub open spec fn gpu_caps(g: Seq<Capacity>) -> nat
    decreases g.len(),
{
    if g.len() == 0 { 0 } else { gpu_caps(g.drop_last()) + gpu_cap(g.last()) }
}

/// How many nonces a sweep covers: what the workers can search, and no more
/// than there are.
pub open spec fn sweep_size(total: nat) -> nat {
    if total == 0 || total >= NONCES { NONCES as nat } else { total }
}

/// A worker's share of a sweep, in proportion to what it can search.
pub open spec fn share_of(cap: nat, total: nat) -> nat {
    if total == 0 { 0 } else { sweep_size(total) * cap / total }
}

/// Where the first worker after the GPUs in `g` starts.
pub open spec fn cursor_after(g: Seq<Capacity>, total: nat) -> nat
    decreases g.len(),
{
    if g.len() == 0 { 0 } else { cursor_after(g.drop_last(), total) + share_of(gpu_cap(g.last()), total) }
}

/// A GPU's part: none where it is down.
pub open spec fn gpu_part(g: Seq<Capacity>, i: int, total: nat) -> Option<Part> {
    if g[i].dead {
        None
    } else {
        Some(
            Part {
                start: cursor_after(g.take(i), total) as u64,
                span: share_of(gpu_cap(g[i]), total) as u64,
            },
        )
    }
}

/// Law: the shares of a sweep never reach beyond it, so that no nonce is
/// searched twice.
#[verifier::spinoff_prover]
pub proof fn law_shares_fit_the_sweep(g: Seq<Capacity>, rest: nat, total: nat)
    requires
        total == gpu_caps(g) + rest,
        total > 0,
    ensures
        cursor_after(g, total) * total <= sweep_size(total) * gpu_caps(g),
        cursor_after(g, total) <= sweep_size(total),
    decreases g.len(),
{
    let size = sweep_size(total) as int;
    let t = total as int;
    if g.len() > 0 {
        let cap = gpu_cap(g.last()) as int;
        let before = gpu_caps(g.drop_last()) as int;
        law_shares_fit_the_sweep(g.drop_last(), rest + gpu_cap(g.last()), total);
        let c = cursor_after(g.drop_last(), total) as int;
        let s = share_of(gpu_cap(g.last()), total) as int;
        lemma_fundamental_div_mod(size * cap, t);
        assert(s * t <= size * cap) by (nonlinear_arith)
            requires
                s == (size * cap) / t,
                size * cap == t * ((size * cap) / t) + (size * cap) % t,
                (size * cap) % t >= 0,
        ;
        assert((c + s) * t == c * t + s * t) by (nonlinear_arith);
        assert(size * before + size * cap == size * (before + cap)) by (nonlinear_arith);
        assert(cursor_after(g, total) == c + s);
        assert(gpu_caps(g) == before + cap);
        assert((c + s) * t <= size * (before + cap));
    } else {
        assert(0 * t <= size * 0) by (nonlinear_arith);
        assert(cursor_after(g, total) == 0 && gpu_caps(g) == 0);
    }
    let c = cursor_after(g, total) as int;
    let k = gpu_caps(g) as int;
    assert(c <= size) by (nonlinear_arith)
        requires
            c * t <= size * k,
            k <= t,
            t > 0,
            size >= 0,
    ;
}

proof fn lemma_cursor_grows(g: Seq<Capacity>, i: int, total: nat)
    requires
        0 <= i < g.len(),
    ensures
        cursor_after(g.take(i + 1), total) == cursor_after(g.take(i), total) + share_of(gpu_cap(g[i]), total),
        gpu_caps(g.take(i + 1)) == gpu_caps(g.take(i)) + gpu_cap(g[i]),
{
    assert(g.take(i + 1).drop_last() =~= g.take(i));
}

proof fn lemma_caps_grow(g: Seq<Capacity>, i: int)
    requires
        0 <= i <= g.len(),
    ensures
        gpu_caps(g.take(i)) <= gpu_caps(g),
    decreases g.len() - i,
{
    if i < g.len() {
        lemma_cursor_grows(g, i, 0);
        lemma_caps_grow(g, i + 1);
    } else {
        assert(g.take(i) =~= g);
    }
}

/// Law: the GPUs' parts of a sweep lie one after another, within the sweep.
pub proof fn law_parts_are_apart(g: Seq<Capacity>, rest: nat, total: nat, i: int, j: int)
    requires
        total == gpu_caps(g) + rest,
        total > 0,
        0 <= i < j < g.len(),
        gpu_part(g, i, total) is Some,
        gpu_part(g, j, total) is Some,
    ensures
        gpu_part(g, i, total)->0.start + gpu_part(g, i, total)->0.span <= gpu_part(g, j, total)->0.start,
        gpu_part(g, j, total)->0.start + gpu_part(g, j, total)->0.span <= sweep_size(total),
{
    lemma_cursor_grows(g, i, total);
    lemma_cursor_grows(g, j, total);
    lemma_cursors_ordered(g, i + 1, j, total);
    lemma_cursors_ordered(g, j + 1, g.len() as int, total);
    assert(g.take(g.len() as int) =~= g);
    law_shares_fit_the_sweep(g, rest, total);
}

proof fn lemma_cursors_ordered(g: Seq<Capacity>, i: int, j: int, total: nat)
    requires
        0 <= i <= j <= g.len(),
    ensures
        cursor_after(g.take(i), total) <= cursor_after(g.take(j), total),
    decreases j - i,
{
    if i < j {
        lemma_cursor_grows(g, i, total);
        lemma_cursors_ordered(g, i + 1, j, total);
    }
}

/// A sweep: each GPU's part, and the CPU's, which takes what the GPUs leave.
#[derive(Debug)]
pub struct Sweep {
    pub gpus: Vec<Option<Part>>,
    pub cpu: Option<Part>,
}

/// The CPU's part of a sweep.
pub open spec fn cpu_part_of(g: Seq<Capacity>, threads: usize, total: nat) -> Option<Part> {
    let c = cursor_after(g, total);
    if threads > 0 && c < sweep_size(total) {
        Some(Part { start: c as u64, span: (sweep_size(total) - c) as u64 })
    } else {
        None
    }
}

fn cap_of(c: Capacity) -> (r: u64)
    ensures
        r == gpu_cap(c),
{
    if c.dead { 0 } else if c.want < GPU_LEAST { GPU_LEAST } else { c.want }
}

/// Shares a sweep out among the workers.
pub fn plan_sweep(gpus: &Vec<Capacity>, cpu_threads: usize, cpu_want: u64) -> (r: Sweep)
    requires
        gpu_caps(gpus@) + cpu_cap(cpu_threads, cpu_want) <= u64::MAX,
    ensures
        ({
            let total = gpu_caps(gpus@) + cpu_cap(cpu_threads, cpu_want);
            &&& r.gpus@.len() == gpus@.len()
            &&& forall|i: int| 0 <= i < gpus@.len() ==> #[trigger] r.gpus@[i] == gpu_part(gpus@, i, total)
            &&& r.cpu == cpu_part_of(gpus@, cpu_threads, total)
        }),
{
    let cpu: u64 = if cpu_threads == 0 { 0 } else if cpu_want < CPU_LEAST { CPU_LEAST } else { cpu_want };
    let mut total: u64 = cpu;
    let mut i: usize = 0;
    while i < gpus.len()
        invariant
            i <= gpus@.len(),
            total == gpu_caps(gpus@.take(i as int)) + cpu,
            gpu_caps(gpus@) + cpu <= u64::MAX,
        decreases gpus@.len() - i,
    {
        proof {
            lemma_cursor_grows(gpus@, i as int, 0);
            lemma_caps_grow(gpus@, i + 1);
        }
        total = total + cap_of(gpus[i]);
        i = i + 1;
    }
    assert(gpus@.take(gpus@.len() as int) =~= gpus@);
    let sweep: u64 = if total == 0 || total >= NONCES { NONCES } else { total };
    let mut parts: Vec<Option<Part>> = Vec::new();
    let mut cursor: u64 = 0;
    let mut k: usize = 0;
    while k < gpus.len()
        invariant
            k <= gpus@.len(),
            total == gpu_caps(gpus@) + cpu,
            sweep == sweep_size(total as nat),
            cursor == cursor_after(gpus@.take(k as int), total as nat),
            parts@.len() == k,
            forall|j: int| 0 <= j < k ==> #[trigger] parts@[j] == gpu_part(gpus@, j, total as nat),
        decreases gpus@.len() - k,
    {
        let cap: u64 = cap_of(gpus[k]);
        proof {
            let g = gpus@.take(k + 1);
            lemma_cursor_grows(gpus@, k as int, total as nat);
            lemma_caps_grow(gpus@, k + 1);
            if total > 0 {
                law_shares_fit_the_sweep(g, (total - gpu_caps(g)) as nat, total as nat);
                assert(sweep * cap <= 0x1_0000_0000 * 0xffff_ffff_ffff_ffff) by (nonlinear_arith)
                    requires
                        sweep <= 0x1_0000_0000,
                        cap <= 0xffff_ffff_ffff_ffff,
                ;
            }
        }
        let span: u64 = if total > 0 {
            ((sweep as u128) * (cap as u128) / (total as u128)) as u64
        } else {
            0
        };
        if gpus[k].dead {
            parts.push(None);
            assert(share_of(0, total as nat) == 0) by {
                if total > 0 {
                    assert((sweep * 0) / (total as int) == 0) by (nonlinear_arith)
                        requires
                            total > 0,
                    ;
                }
            }
        } else {
            parts.push(Some(Part { start: cursor, span }));
        }
        cursor = cursor + span;
        k = k + 1;
    }
    proof {
        if total > 0 {
            law_shares_fit_the_sweep(gpus@, cpu as nat, total as nat);
        } else {
            lemma_no_total(gpus@);
        }
    }
    let cpu_part = if cpu_threads > 0 && cursor < sweep {
        Some(Part { start: cursor, span: sweep - cursor })
    } else {
        None
    };
    Sweep { gpus: parts, cpu: cpu_part }
}

proof fn lemma_no_total(g: Seq<Capacity>)
    ensures
        cursor_after(g, 0) == 0,
    decreases g.len(),
{
    if g.len() > 0 {
        lemma_no_total(g.drop_last());
    }
}

/// Law: with a CPU worker a sweep has no gaps. What the GPUs leave over is
/// the CPU's.
pub proof fn law_cpu_takes_the_rest(g: Seq<Capacity>, threads: usize, want: u64)
    requires
        threads > 0,
        gpu_caps(g) + cpu_cap(threads, want) <= u64::MAX,
    ensures
        ({
            let total = gpu_caps(g) + cpu_cap(threads, want);
            match cpu_part_of(g, threads, total) {
                Some(p) => p.start == cursor_after(g, total) && p.start + p.span == sweep_size(total),
                None => cursor_after(g, total) == sweep_size(total),
            }
        }),
{
    law_shares_fit_the_sweep(g, cpu_cap(threads, want), gpu_caps(g) + cpu_cap(threads, want));
}

/// Law: a grinder that is down gets no part, and takes none from the others:
/// they start where they would without it.
pub proof fn law_dead_grinders_get_nothing(g: Seq<Capacity>, i: int, total: nat)
    requires
        0 <= i < g.len(),
        g[i].dead,
    ensures
        gpu_part(g, i, total) is None,
        cursor_after(g.take(i + 1), total) == cursor_after(g.take(i), total),
        gpu_caps(g.take(i + 1)) == gpu_caps(g.take(i)),
{
    lemma_cursor_grows(g, i, total);
    assert(sweep_size(total) * 0 == 0) by (nonlinear_arith);
    if total > 0 {
        assert(0int / (total as int) == 0) by (nonlinear_arith)
            requires
                total > 0,
        ;
    }
}

// ------------------------------------------------------------------ protocol

/// The line that hands a grinder its part of a sweep. A part is never empty.
pub open spec fn job_text(prevhash: Seq<char>, ntime: Seq<char>, root: Seq<char>, bits: u32, part: Part) -> Seq<char> {
    prevhash + " "@ + ntime + " "@ + root + " "@ + dec(bits as nat) + " "@ + dec(part.start as nat) + " "@ + dec(
        if part.span < 1 { 1 } else { part.span as nat },
    )
}

/// Writes the line that hands a grinder its part.
pub fn job_line(prevhash: &str, ntime: &str, root: &str, bits: u32, part: Part) -> (r: String)
    ensures
        r@ == job_text(prevhash@, ntime@, root@, bits, part),
{
    let mut r = prevhash.to_owned();
    r.append(" ");
    r.append(ntime);
    r.append(" ");
    r.append(root);
    r.append(" ");
    r.append(dec_text(bits as u64).as_str());
    r.append(" ");
    r.append(dec_text(part.start).as_str());
    r.append(" ");
    let span: u64 = if part.span < 1 { 1 } else { part.span };
    r.append(dec_text(span).as_str());
    r
}

/// What a grinder prints.
#[derive(Debug)]
pub enum Printed {
    /// The end of its part, with its rate.
    End(String),
    /// A winning nonce.
    Nonce(String),
    Blank,
}

/// A printed line by what it holds.
pub enum PrintedV {
    End(Seq<char>),
    Nonce(Seq<char>),
    Blank,
}

impl View for Printed {
    type V = PrintedV;

    open spec fn view(&self) -> PrintedV {
        match *self {
            Printed::End(s) => PrintedV::End(s@),
            Printed::Nonce(s) => PrintedV::Nonce(s@),
            Printed::Blank => PrintedV::Blank,
        }
    }
}

/// What a grinder's line says. Space around it does not count.
pub open spec fn printed(line: Seq<char>) -> PrintedV {
    let t = trimmed(line);
    if begins_with(t, "END "@) {
        PrintedV::End(t.skip("END "@.len() as int))
    } else if t.len() > 0 {
        PrintedV::Nonce(t)
    } else {
        PrintedV::Blank
    }
}

/// The text after the first `n` characters.
fn after_first(s: &str, n: usize) -> (r: String)
    requires
        n <= s@.len(),
    ensures
        r@ == s@.skip(n as int),
{
    let v = crate::text::chars_of(s);
    let r = crate::text::string_of(&crate::text::sub_chars(&v, n, v.len()));
    assert(r@ =~= s@.skip(n as int));
    r
}

/// Reads a line that a grinder printed.
pub fn read_printed(line: &str) -> (r: Printed)
    ensures
        r@ == printed(line@),
{
    let t = trim(line);
    if starts_with(t.as_str(), "END ") {
        proof {
            reveal_strlit("END ");
        }
        Printed::End(after_first(t.as_str(), 4))
    } else if crate::text::chars_of(t.as_str()).len() > 0 {
        Printed::Nonce(t)
    } else {
        Printed::Blank
    }
}

/// The device that a starting grinder names: nothing if it is not ready, and
/// the name it was started under if it gives none.
pub open spec fn ready_device(line: Seq<char>, name: Seq<char>) -> Option<Seq<char>> {
    let t = trimmed(line);
    if !begins_with(t, "READY"@) {
        None
    } else {
        let device = trimmed(t.skip("READY"@.len() as int));
        Some(if device.len() == 0 { name } else { device })
    }
}

/// Reads the first line of a starting grinder.
pub fn read_ready(line: &str, name: &str) -> (r: Option<String>)
    ensures
        match r {
            Some(s) => ready_device(line@, name@) == Some(s@),
            None => ready_device(line@, name@) is None,
        },
{
    let t = trim(line);
    if starts_with(t.as_str(), "READY") {
        proof {
            reveal_strlit("READY");
        }
        let rest = after_first(t.as_str(), 5);
        let device = trim(rest.as_str());
        if crate::text::chars_of(device.as_str()).len() == 0 {
            Some(name.to_owned())
        } else {
            Some(device)
        }
    } else {
        None
    }
}

// ------------------------------------------------------------------ starting

/// A second, in nanoseconds.
pub const SECOND: u64 = 1_000_000_000;

/// How long a dead grinder waits before it is started again: 10 seconds after
/// the first failure, twice as long after each further one, and 5 minutes at
/// most.
pub open spec fn retry_secs(fails: u32) -> u64 {
    if fails <= 1 { 10 } else if fails == 2 { 20 } else if fails == 3 { 40 } else if fails == 4 { 80 } else if fails
        == 5 { 160 } else { 300 }
}

/// The state of a grinder process.
#[derive(Debug)]
pub struct Grinder {
    pub name: String,
    pub dev: u32,
    pub dead: bool,
    /// How often it has failed in a row.
    pub fails: u32,
    /// When it died, and when it was started.
    pub died_at: u64,
    pub started_at: u64,
}

/// A grinder by what it holds.
pub struct GrinderV {
    pub name: Seq<char>,
    pub dev: u32,
    pub dead: bool,
    pub fails: u32,
    pub died_at: u64,
    pub started_at: u64,
}

impl View for Grinder {
    type V = GrinderV;

    open spec fn view(&self) -> GrinderV {
        GrinderV {
            name: self.name@,
            dev: self.dev,
            dead: self.dead,
            fails: self.fails,
            died_at: self.died_at,
            started_at: self.started_at,
        }
    }
}

/// One more failure, as far as they are counted.
pub open spec fn more_fails(n: u32) -> u32 {
    if n == u32::MAX { n } else { (n + 1) as u32 }
}

/// Counts a failure.
pub fn count_fail(n: u32) -> (r: u32)
    ensures
        r == more_fails(n),
{
    if n == u32::MAX { n } else { n + 1 }
}

/// Why a grinder is given up.
pub enum Trouble<'a> {
    /// It did not answer for so long, as shown to the user.
    Silent(&'a str),
    Exited,
}

impl GrinderV {
    /// A grinder just started.
    pub open spec fn started(dev: u32, name: Seq<char>, now: u64) -> GrinderV {
        GrinderV { name, dev, dead: false, fails: 0, died_at: now, started_at: now }
    }

    /// After it was given up.
    pub open spec fn down(self, now: u64) -> GrinderV {
        GrinderV { dead: true, died_at: now, fails: more_fails(self.fails), ..self }
    }

    /// Whether it is time to start it again.
    pub open spec fn due(self, now: u64) -> bool {
        self.dead && passed(self.died_at, now) >= retry_secs(self.fails) * SECOND
    }

    /// After it finished its part: failures are forgotten once it has run for
    /// 5 minutes.
    pub open spec fn finished(self, now: u64) -> GrinderV {
        if passed(self.started_at, now) > 300 * SECOND { GrinderV { fails: 0, ..self } } else { self }
    }
}

/// What is reported of a grinder that was given up, `g` being its new state.
pub open spec fn down_text(g: GrinderV, trouble: Trouble) -> Seq<char> {
    match trouble {
        Trouble::Silent(secs) => "⚠ "@ + g.name + " unresponsive for "@ + secs@ + "s — killed · respawning in "@ + dec(
            retry_secs(g.fails) as nat,
        ) + "s"@,
        Trouble::Exited => "⚠ "@ + g.name + " grinder exited — respawning in "@ + dec(retry_secs(g.fails) as nat)
            + "s"@,
    }
}

impl Grinder {
    /// A grinder just started.
    pub fn start(dev: u32, name: String, now: u64) -> (r: Grinder)
        ensures
            r@ == GrinderV::started(dev, name@, now),
    {
        Grinder { name, dev, dead: false, fails: 0, died_at: now, started_at: now }
    }

    /// How long it waits before it is started again, in seconds.
    pub fn retry_in(&self) -> (r: u64)
        ensures
            r == retry_secs(self@.fails),
    {
        let n: u32 = self.fails;
        if n <= 1 { 10 } else if n == 2 { 20 } else if n == 3 { 40 } else if n == 4 { 80 } else if n == 5 { 160 } else {
            300
        }
    }

    /// Whether it is time to start it again.
    pub fn is_due(&self, now: u64) -> (r: bool)
        ensures
            r == self@.due(now),
    {
        self.dead && since(self.died_at, now) >= self.retry_in() * SECOND
    }

    /// Gives it up, and says so.
    pub fn give_up(&mut self, trouble: Trouble, now: u64) -> (event: String)
        ensures
            final(self)@ == old(self)@.down(now),
            event@ == down_text(final(self)@, trouble),
    {
        self.dead = true;
        self.died_at = now;
        self.fails = count_fail(self.fails);
        let mut r = "⚠ ".to_owned();
        r.append(self.name.as_str());
        match trouble {
            Trouble::Silent(secs) => {
                r.append(" unresponsive for ");
                r.append(secs);
                r.append("s — killed · respawning in ");
            },
            Trouble::Exited => {
                r.append(" grinder exited — respawning in ");
            },
        }
        r.append(dec_text(self.retry_in()).as_str());
        r.append("s");
        r
    }

    /// Notes that it finished its part.
    pub fn finish(&mut self, now: u64)
        ensures
            final(self)@ == old(self)@.finished(now),
    {
        if since(self.started_at, now) > 300 * SECOND {
            self.fails = 0;
        }
    }
}

/// Law: each failure makes a grinder wait at least as long as the one before,
/// between 10 seconds and 5 minutes.
pub proof fn law_retries_back_off(fails: u32)
    ensures
        10 <= retry_secs(fails) <= 300,
        retry_secs(fails) <= retry_secs(more_fails(fails)),
        retry_secs(more_fails(fails)) <= 2 * retry_secs(fails),
{
}

// --------------------------------------------------------------------- laws

/// Law: a GPU that is up is counted with what it can search, 4194304 nonces at
/// least, and the CPU with 2000000 at least; what is down or not asked for
/// counts for nothing.
pub proof fn law_workers_are_counted(c: Capacity, threads: usize, want: u64)
    ensures
        c.dead ==> gpu_cap(c) == 0,
        !c.dead && c.want >= 4_194_304 ==> gpu_cap(c) == c.want,
        !c.dead && c.want < 4_194_304 ==> gpu_cap(c) == 4_194_304,
        threads == 0 ==> cpu_cap(threads, want) == 0,
        threads > 0 && want >= 2_000_000 ==> cpu_cap(threads, want) == want,
        threads > 0 && want < 2_000_000 ==> cpu_cap(threads, want) == 2_000_000,
{
}

/// Law: what several GPUs are counted with is the sum of what each is counted
/// with.
pub proof fn law_capacities_add_up(a: Seq<Capacity>, c: Capacity)
    ensures
        gpu_caps(Seq::empty()) == 0,
        gpu_caps(a.push(c)) == gpu_caps(a) + gpu_cap(c),
{
    assert(a.push(c).drop_last() =~= a);
}

/// Law: a sweep covers what the workers can search, and at most all nonces.
pub proof fn law_sweeps_cover_what_can_be_searched(total: nat)
    ensures
        0 < total <= 0x1_0000_0000 ==> sweep_size(total) == total,
        total > 0x1_0000_0000 ==> sweep_size(total) == 0x1_0000_0000,
        total == 0 ==> sweep_size(total) == 0x1_0000_0000,
{
}

/// Law: a worker's share is in proportion to its speed, rounded down.
pub proof fn law_shares_are_in_proportion(cap: nat, total: nat)
    requires
        total > 0,
    ensures
        share_of(cap, total) * total <= sweep_size(total) * cap,
        sweep_size(total) * cap < (share_of(cap, total) + 1) * total,
{
    let x = (sweep_size(total) * cap) as int;
    let t = total as int;
    let q = share_of(cap, total) as int;
    assert(q * t <= x && x < (q + 1) * t) by (nonlinear_arith)
        requires
            q == x / t,
            t > 0,
            x >= 0,
    ;
}

/// Law: the parts of a sweep leave no gap. The first worker that is up starts
/// at nonce 0, each further one where the one before ends, and the CPU where
/// the GPUs end; each gets its share.
pub proof fn law_parts_leave_no_gap(g: Seq<Capacity>, rest: nat, total: nat, i: int)
    requires
        total == gpu_caps(g) + rest,
        0 < total,
        0 <= i < g.len(),
        !g[i].dead,
    ensures
        gpu_part(g, i, total) is Some,
        gpu_part(g, i, total)->0.span == share_of(gpu_cap(g[i]), total),
        (forall|j: int| 0 <= j < i ==> (#[trigger] g[j]).dead) ==> gpu_part(g, i, total)->0.start == 0,
        i > 0 && !g[i - 1].dead ==> gpu_part(g, i - 1, total) is Some && gpu_part(g, i, total)->0.start == gpu_part(
            g,
            i - 1,
            total,
        )->0.start + gpu_part(g, i - 1, total)->0.span,
        i == g.len() - 1 ==> cursor_after(g, total) == gpu_part(g, i, total)->0.start + gpu_part(g, i, total)->0.span,
{
    law_shares_fit_the_sweep(g, rest, total);
    lemma_cursor_grows(g, i, total);
    lemma_cursors_ordered(g, i + 1, g.len() as int, total);
    assert(g.take(g.len() as int) =~= g);
    if i > 0 {
        lemma_cursor_grows(g, i - 1, total);
    }
    if forall|j: int| 0 <= j < i ==> (#[trigger] g[j]).dead {
        lemma_dead_start(g, i, total);
    }
}

proof fn lemma_dead_start(g: Seq<Capacity>, i: int, total: nat)
    requires
        0 <= i <= g.len(),
        total > 0,
        forall|j: int| 0 <= j < i ==> (#[trigger] g[j]).dead,
    ensures
        cursor_after(g.take(i), total) == 0,
    decreases i,
{
    if i > 0 {
        lemma_dead_start(g, i - 1, total);
        assert(g[i - 1].dead);
        law_dead_grinders_get_nothing(g, i - 1, total);
    }
}

/// Law: the line that hands out a part holds the job's texts and the numbers,
/// one blank apart, and the numbers read back; a part of no nonces is handed
/// out as one.
pub proof fn law_job_lines_read_back(prevhash: Seq<char>, ntime: Seq<char>, root: Seq<char>, bits: u32, part: Part)
    requires
        !prevhash.contains(' '),
        !ntime.contains(' '),
        !root.contains(' '),
    ensures
        ({
            let p = split_text(job_text(prevhash, ntime, root, bits, part), ' ');
            &&& p.len() == 6
            &&& p[0] == prevhash
            &&& p[1] == ntime
            &&& p[2] == root
            &&& parsed(p[3], 10, u64::MAX as nat) == Some(bits as nat)
            &&& parsed(p[4], 10, u64::MAX as nat) == Some(part.start as nat)
            &&& parsed(p[5], 10, u64::MAX as nat) == Some(if part.span == 0 { 1nat } else { part.span as nat })
        }),
{
    let span: nat = if part.span < 1 { 1 } else { part.span as nat };
    let (b, s, n) = (dec(bits as nat), dec(part.start as nat), dec(span));
    law_numbers_hold_only_digits(bits as nat, 10, ' ');
    law_numbers_hold_only_digits(part.start as nat, 10, ' ');
    law_numbers_hold_only_digits(span, 10, ' ');
    law_numbers_read_back(bits as nat, 10, 0, u64::MAX as nat);
    law_numbers_read_back(part.start as nat, 10, 0, u64::MAX as nat);
    law_numbers_read_back(span, 10, 0, u64::MAX as nat);
    reveal_strlit(" ");
    assert(" "@ =~= seq![' ']);
    let sp = seq![' '];
    let t5 = n;
    let t4 = s + sp + t5;
    let t3 = b + sp + t4;
    let t2 = root + sp + t3;
    let t1 = ntime + sp + t2;
    let t0 = prevhash + sp + t1;
    assert(job_text(prevhash, ntime, root, bits, part) =~= t0);
    law_parts_split_off(prevhash, t1, ' ');
    law_parts_split_off(ntime, t2, ' ');
    law_parts_split_off(root, t3, ' ');
    law_parts_split_off(b, t4, ' ');
    law_parts_split_off(s, t5, ' ');
    law_parts_split_off(n, n, ' ');
}

/// Law: a line of a grinder that is blank says nothing, one that begins with
/// `END ` ends its part and carries what follows, and any other is a nonce.
pub proof fn law_grinder_lines_are_told_apart(line: Seq<char>)
    ensures
        ({
            let t = trimmed(line);
            let end = t.len() >= 4 && t[0] == 'E' && t[1] == 'N' && t[2] == 'D' && t[3] == ' ';
            &&& t.len() == 0 ==> printed(line) == PrintedV::Blank
            &&& end ==> printed(line) == PrintedV::End(t.skip(4))
            &&& t.len() > 0 && !end ==> printed(line) == PrintedV::Nonce(t)
        }),
{
    let t = trimmed(line);
    reveal_strlit("END ");
    assert("END "@.len() == 4);
    if begins_with(t, "END "@) {
        let u = t.subrange(0, 4);
        assert(u[0] == t[0] && u[1] == t[1] && u[2] == t[2] && u[3] == t[3]);
    } else if t.len() >= 4 && t[0] == 'E' && t[1] == 'N' && t[2] == 'D' && t[3] == ' ' {
        assert(t.subrange(0, 4) =~= "END "@);
    }
}

/// Law: a grinder is ready exactly where its first line begins with `READY`;
/// it is known by what follows, or by the name it was started under.
pub proof fn law_ready_lines_name_the_device(line: Seq<char>, name: Seq<char>)
    ensures
        ({
            let t = trimmed(line);
            let ready = t.len() >= 5 && t[0] == 'R' && t[1] == 'E' && t[2] == 'A' && t[3] == 'D' && t[4] == 'Y';
            &&& ready_device(line, name) is Some <==> ready
            &&& ready && trimmed(t.skip(5)).len() > 0 ==> ready_device(line, name)->0 == trimmed(t.skip(5))
            &&& ready && trimmed(t.skip(5)).len() == 0 ==> ready_device(line, name)->0 == name
        }),
{
    let t = trimmed(line);
    reveal_strlit("READY");
    assert("READY"@.len() == 5);
    if begins_with(t, "READY"@) {
        let u = t.subrange(0, 5);
        assert(u[0] == t[0] && u[1] == t[1] && u[2] == t[2] && u[3] == t[3] && u[4] == t[4]);
    } else if t.len() >= 5 && t[0] == 'R' && t[1] == 'E' && t[2] == 'A' && t[3] == 'D' && t[4] == 'Y' {
        assert(t.subrange(0, 5) =~= "READY"@);
    }
}

/// Law: after `n` failures in a row a grinder waits 10 seconds doubled `n - 1`
/// times, and 5 minutes at most.
pub proof fn law_retry_wait_doubles(fails: u32)
    requires
        fails >= 1,
    ensures
        10 * pow2((fails - 1) as nat) <= 300 ==> retry_secs(fails) == 10 * pow2((fails - 1) as nat),
        10 * pow2((fails - 1) as nat) > 300 ==> retry_secs(fails) == 300,
        retry_secs(0) == 10,
{
    lemma2_to64();
    if fails > 6 {
        lemma_pow2_strictly_increases(5, (fails - 1) as nat);
    }
}

/// Law: a grinder is started again exactly where it is down and has waited its
/// time; giving it up takes it down with one failure more, and a run of more
/// than 5 minutes forgets its failures.
pub proof fn law_grinders_come_back_in_time(g: GrinderV, now: u64)
    ensures
        g.due(now) <==> g.dead && g.died_at <= now && now - g.died_at >= retry_secs(g.fails) * 1_000_000_000,
        g.down(now).dead && g.down(now).died_at == now && g.down(now).name == g.name && g.down(now).dev == g.dev,
        g.fails < u32::MAX ==> g.down(now).fails == g.fails + 1,
        g.started_at <= now && now - g.started_at > 300_000_000_000 ==> g.finished(now).fails == 0,
        !(g.started_at <= now && now - g.started_at > 300_000_000_000) ==> g.finished(now) == g,
        g.finished(now).dead == g.dead && g.finished(now).name == g.name && g.finished(now).dev == g.dev,
{
}

/// Law: a new grinder is up, has not failed, and starts its time now; one that
/// goes down keeps its name and device and has failed once more.
pub proof fn law_grinders_start_fresh(dev: u32, name: Seq<char>, g: GrinderV, now: u64)
    ensures
        ({
            let n = GrinderV::started(dev, name, now);
            &&& !n.dead && n.fails == 0 && n.name == name && n.dev == dev && n.started_at == now
        }),
        ({
            let d = g.down(now);
            &&& d.dead && d.died_at == now && d.name == g.name && d.dev == g.dev && d.started_at == g.started_at
            &&& g.fails < 0xffff_ffff ==> d.fails == g.fails + 1
            &&& g.fails == 0xffff_ffff ==> d.fails == g.fails
        }),
{
}

/// Law: a grinder's trouble is told with its name and the wait until it is
/// started again.
pub proof fn law_troubles_name_the_grinder(g: GrinderV, secs: &str)
    ensures
        down_text(g, Trouble::Exited) == "⚠ "@ + g.name + " grinder exited — respawning in "@ + dec(
            retry_secs(g.fails) as nat,
        ) + "s"@,
        down_text(g, Trouble::Silent(secs)) == "⚠ "@ + g.name + " unresponsive for "@ + secs@
            + "s — killed · respawning in "@ + dec(retry_secs(g.fails) as nat) + "s"@,
{
}

/// Law: the CPU searches from where the grinders stop up to the end of the
/// sweep, and nothing where they leave nothing or it does not mine.
pub proof fn law_cpu_ends_the_sweep(g: Seq<Capacity>, threads: usize, total: nat)
    requires
        cursor_after(g, total) <= sweep_size(total),
    ensures
        ({
            let p = cpu_part_of(g, threads, total);
            &&& p is Some <==> threads > 0 && cursor_after(g, total) < sweep_size(total)
            &&& p matches Some(q) ==> q.start == cursor_after(g, total) && q.start + q.span == sweep_size(total)
        }),
{
}

} // verus!
