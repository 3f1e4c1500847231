//! Work units: the 80-byte header that is hashed, and the search for nonces.

use crate::json::{Json, JsonV};
use crate::target::{be_value, hash_le_target, share_target, target_be};
use crate::text::{chars_of, digit_char, digit_value, digits, hex_padded, padded_left, parse_uint, parsed};
use crate::stats::strings;
use vstd::arithmetic::div_mod::lemma_div_denominator;
use vstd::arithmetic::power2::{lemma2_to64, lemma_pow2_adds, lemma_pow2_pos, pow2};
use vstd::prelude::*;

verus! {

// --------------------------------------------------------------- hexadecimal

/// The bytes that pairs of hexadecimal digits spell; nothing where their
/// number is odd or a character is no digit.
pub open spec fn hex_bytes(s: Seq<char>) -> Option<Seq<u8>> {
    if s.len() % 2 == 0 && (forall|i: int| 0 <= i < s.len() ==> digit_value(#[trigger] s[i], 16) is Some) {
        Some(
            Seq::new(
                (s.len() / 2) as nat,
                |i: int| (digit_value(s[2 * i], 16)->0 * 16 + digit_value(s[2 * i + 1], 16)->0) as u8,
            ),
        )
    } else {
        None
    }
}

/// Two lower-case hexadecimal digits for each byte.
pub open spec fn hex_text(b: Seq<u8>) -> Seq<char> {
    Seq::new(
        2 * b.len(),
        |i: int| if i % 2 == 0 { digit_char(b[i / 2] as int / 16) } else { digit_char(b[i / 2] as int % 16) },
    )
}

/// `hex::decode`: pairs of digits of either case to bytes; fails on an odd
/// number of characters and on one that is no digit.
#[verifier::external_body]
fn hex_decode(s: &str) -> (r: Option<Vec<u8>>)
    ensures
        match r {
            Some(v) => hex_bytes(s@) == Some(v@),
            None => hex_bytes(s@) is None,
        },
{
    hex::decode(s).ok()
}

/// `hex::encode`: two lower-case digits for each byte.
#[verifier::external_body]
fn hex_encode(b: &[u8]) -> (r: String)
    ensures
        r@ == hex_text(b@),
{
    hex::encode(b)
}

/// Law: what was written in hexadecimal reads back as the same bytes.
pub proof fn law_hex_reads_back(b: Seq<u8>)
    ensures
        hex_bytes(hex_text(b)) == Some(b),
{
    let s = hex_text(b);
    assert forall|i: int| 0 <= i < s.len() implies digit_value(#[trigger] s[i], 16) is Some by {
        lemma_digit(b[i / 2] as int / 16);
        lemma_digit(b[i / 2] as int % 16);
    }
    assert(hex_bytes(s) is Some);
    assert forall|i: int| 0 <= i < b.len() implies hex_bytes(s)->0[i] == b[i] by {
        lemma_digit(b[i] as int / 16);
        lemma_digit(b[i] as int % 16);
        assert(s[2 * i] == digit_char(b[(2 * i) / 2] as int / 16));
        assert(s[2 * i + 1] == digit_char(b[(2 * i + 1) / 2] as int % 16));
    }
    assert(hex_bytes(s)->0 =~= b);
}

proof fn lemma_digit(d: int)
    requires
        0 <= d < 16,
    ensures
        digit_value(digit_char(d), 16) == Some(d as nat),
{
}

// -------------------------------------------------------------------- hashes

/// The 32-byte BLAKE2b hash of some bytes.
pub uninterp spec fn blake2b256(data: Seq<u8>) -> Seq<u8>;

/// `blake2b_simd::Params::hash` with a hash length of 32 bytes and no key,
/// salt or personalisation: a function of the bytes hashed.
#[verifier::external_body]
fn b2b(data: &[u8]) -> (h: [u8; 32])
    ensures
        h@ == blake2b256(data@),
{
    let h = blake2b_simd::Params::new().hash_length(32).hash(data);
    let mut o = [0u8; 32];
    o.copy_from_slice(h.as_bytes());
    o
}

// -------------------------------------------------------------------- header

/// Cut, or filled up with zeros, to `n` bytes.
pub open spec fn resized(s: Seq<u8>, n: nat) -> Seq<u8> {
    Seq::new(n, |i: int| if i < s.len() { s[i] } else { 0 })
}

/// The bytes of a number, least significant first.
pub open spec fn le_bytes(n: nat, count: nat) -> Seq<u8>
    decreases count,
{
    if count == 0 {
        Seq::empty()
    } else {
        seq![(n % 256) as u8] + le_bytes(n / 256, (count - 1) as nat)
    }
}

/// What a header is made of besides the nonce.
pub struct FieldsV {
    pub prevhash: Seq<u8>,
    pub ntime: Seq<u8>,
    pub root: Seq<u8>,
}

/// The 80 bytes that are hashed: the previous block's hash, the nonce, four
/// zero bytes, the time and the work root.
pub open spec fn header(f: FieldsV, nonce: nat) -> Seq<u8> {
    f.prevhash.take(32) + le_bytes(nonce, 4) + resized(Seq::empty(), 4) + resized(f.ntime, 8) + f.root.take(32)
}

/// The fields that a job's hexadecimal texts give. The hash and the root must
/// be there; a time that cannot be read counts as zero.
pub open spec fn fields(prevhash: Seq<char>, ntime: Seq<char>, root: Seq<char>) -> Option<FieldsV> {
    match (hex_bytes(prevhash), hex_bytes(root)) {
        (Some(p), Some(r)) => if p.len() < 32 || r.len() < 32 {
            None
        } else {
            Some(
                FieldsV {
                    prevhash: p,
                    ntime: match hex_bytes(ntime) {
                        Some(t) => t,
                        None => Seq::empty(),
                    },
                    root: r,
                },
            )
        },
        _ => None,
    }
}

/// The hash of a header.
pub open spec fn pow_hash(f: FieldsV, nonce: nat) -> Seq<u8> {
    blake2b256(header(f, nonce))
}

/// The hash that a nonce gives with a job's texts; nothing where one of them
/// cannot be read.
pub open spec fn nonce_hash_of(prevhash: Seq<char>, ntime: Seq<char>, root: Seq<char>, nonce: Seq<char>) -> Option<
    Seq<u8>,
> {
    match (fields(prevhash, ntime, root), parsed(nonce, 16, 0xffff_ffff)) {
        (Some(f), Some(n)) => Some(pow_hash(f, n)),
        _ => None,
    }
}

/// A job's header fields, decoded.
pub struct Fields {
    prevhash: Vec<u8>,
    ntime: Vec<u8>,
    root: Vec<u8>,
}

impl View for Fields {
    type V = FieldsV;

    closed spec fn view(&self) -> FieldsV {
        FieldsV { prevhash: self.prevhash@, ntime: self.ntime@, root: self.root@ }
    }
}

impl Fields {
    /// The hash and the root have their 32 bytes.
    #[verifier::type_invariant]
    spec fn complete(self) -> bool {
        self.prevhash@.len() >= 32 && self.root@.len() >= 32
    }

    /// Reads a job's texts.
    pub fn decode(prevhash: &str, ntime: &str, root: &str) -> (r: Option<Fields>)
        ensures
            match r {
                Some(f) => fields(prevhash@, ntime@, root@) == Some(f@),
                None => fields(prevhash@, ntime@, root@) is None,
            },
    {
        let p = match hex_decode(prevhash) {
            Some(p) => p,
            None => {
                return None;
            },
        };
        let r = match hex_decode(root) {
            Some(r) => r,
            None => {
                return None;
            },
        };
        if p.len() < 32 || r.len() < 32 {
            return None;
        }
        let t = match hex_decode(ntime) {
            Some(t) => t,
            None => Vec::new(),
        };
        let f = Fields { prevhash: p, ntime: t, root: r };
        assert(f.ntime@ =~= fields(prevhash@, ntime@, root@)->0.ntime);
        Some(f)
    }

    /// The header for a nonce.
    pub fn header_bytes(&self, nonce: u32) -> (r: Vec<u8>)
        ensures
            r@ == header(self@, nonce as nat),
            r@.len() == 80,
    {
        proof {
            use_type_invariant(self);
        }
        let mut out: Vec<u8> = Vec::new();
        push_part(&mut out, &self.prevhash, 32);
        out.push((nonce % 256) as u8);
        out.push((nonce / 256 % 256) as u8);
        out.push((nonce / 65536 % 256) as u8);
        out.push((nonce / 16777216) as u8);
        out.push(0);
        out.push(0);
        out.push(0);
        out.push(0);
        push_part(&mut out, &self.ntime, 8);
        push_part(&mut out, &self.root, 32);
        proof {
            reveal_with_fuel(le_bytes, 5);
            assert(resized(self@.prevhash, 32) =~= self@.prevhash.take(32));
            assert(resized(self@.root, 32) =~= self@.root.take(32));
            assert(nonce / 256 / 256 == nonce / 65536);
            assert(nonce / 256 / 256 / 256 == nonce / 16777216);
            assert(out@ =~= header(self@, nonce as nat));
        }
        out
    }

    /// The hash for a nonce.
    pub fn hash(&self, nonce: u32) -> (h: [u8; 32])
        ensures
            h@ == pow_hash(self@, nonce as nat),
    {
        b2b(self.header_bytes(nonce).as_slice())
    }
}

/// Appends the first `n` bytes, or as many as there are and zeros after them.
fn push_part(out: &mut Vec<u8>, src: &Vec<u8>, n: usize)
    ensures
        final(out)@ == old(out)@ + resized(src@, n as nat),
{
    let ghost before = out@;
    let mut i: usize = 0;
    assert(before + resized(src@, 0) =~= before);
    while i < n
        invariant
            i <= n,
            out@ == before + resized(src@, i as nat),
        decreases n - i,
    {
        let b: u8 = if i < src.len() { src[i] } else { 0 };
        out.push(b);
        assert(before + resized(src@, (i + 1) as nat) =~= (before + resized(src@, i as nat)).push(b));
        i = i + 1;
    }
}

/// The hash that a grinder's nonce gives, recomputed here: the grinders are
/// not taken at their word.
pub fn nonce_hash(prevhash_hex: &str, ntime_hex: &str, work_root_hex: &str, nonce_hex: &str) -> (r: Option<[u8; 32]>)
    ensures
        match r {
            Some(h) => nonce_hash_of(prevhash_hex@, ntime_hex@, work_root_hex@, nonce_hex@) == Some(h@),
            None => nonce_hash_of(prevhash_hex@, ntime_hex@, work_root_hex@, nonce_hex@) is None,
        },
{
    match Fields::decode(prevhash_hex, ntime_hex, work_root_hex) {
        Some(f) => match parse_uint(&chars_of(nonce_hex), 16, 0xffff_ffff) {
            Some(n) => Some(f.hash(n as u32)),
            None => None,
        },
        None => None,
    }
}

// ---------------------------------------------------------------- CPU search

/// Whether a nonce gives a hash within the target.
pub open spec fn wins(f: FieldsV, bits: nat, nonce: nat) -> bool {
    be_value(pow_hash(f, nonce)) <= share_target(bits)
}

/// The winning nonces from `lo` up to `hi`, in order, as grinders print them.
pub open spec fn winners(f: FieldsV, bits: nat, lo: int, hi: int) -> Seq<Seq<char>>
    decreases hi - lo,
{
    if hi <= lo || lo < 0 {
        Seq::empty()
    } else if wins(f, bits, (hi - 1) as nat) {
        winners(f, bits, lo, hi - 1).push(padded_left(digits((hi - 1) as nat, 16), 8, '0'))
    } else {
        winners(f, bits, lo, hi - 1)
    }
}

/// A range of nonces cut off where nonces end.
pub open spec fn up_to_nonces(n: int) -> int {
    if n < 0x1_0000_0000 { n } else { 0x1_0000_0000 }
}

proof fn lemma_winner_is_found(f: FieldsV, bits: nat, lo: int, hi: int, n: nat)
    requires
        0 <= lo <= n < hi,
        be_value(pow_hash(f, n)) <= share_target(bits),
    ensures
        winners(f, bits, lo, hi).contains(padded_left(digits(n, 16), 8, '0')),
    decreases hi - n,
{
    let v = winners(f, bits, lo, hi);
    let w = winners(f, bits, lo, hi - 1);
    if n == hi - 1 {
        assert(v.last() == padded_left(digits(n, 16), 8, '0'));
    } else {
        lemma_winner_is_found(f, bits, lo, hi - 1, n);
        let i = choose|i: int| 0 <= i < w.len() && w[i] == padded_left(digits(n, 16), 8, '0');
        assert(v[i] == w[i]);
    }
}

/// Searches the nonces from `from` up to `to`.
pub fn grind_range(f: &Fields, bits: u32, from: u64, to: u64) -> (r: Vec<String>)
    ensures
        strings(r@) == winners(f@, bits as nat, from as int, up_to_nonces(to as int)),
        forall|n: nat|
            from <= n < to && n < 0x1_0000_0000 && be_value(#[trigger] pow_hash(f@, n)) <= share_target(bits as nat)
                ==> strings(r@).contains(padded_left(digits(n, 16), 8, '0')),
{
    let target = target_be(bits);
    let mut r: Vec<String> = Vec::new();
    let mut n: u64 = from;
    let end: u64 = if to < 0x1_0000_0000 { to } else { 0x1_0000_0000 };
    assert(strings(r@) =~= Seq::<Seq<char>>::empty());
    while n < end
        invariant
            end == up_to_nonces(to as int),
            n <= from || n <= end,
            from <= n,
            be_value(target@) == share_target(bits as nat),
            strings(r@) == winners(f@, bits as nat, from as int, n as int),
        decreases end - n,
    {
        let h = f.hash(n as u32);
        let ghost before = strings(r@);
        if hash_le_target(&h, &target) {
            let s = hex_padded(n, 8);
            r.push(s);
            assert(strings(r@) =~= before.push(s@));
        }
        n = n + 1;
    }
    proof {
        assert forall|k: nat|
            from <= k < to && k < 0x1_0000_0000 && be_value(#[trigger] pow_hash(f@, k)) <= share_target(
                bits as nat,
            ) implies strings(r@).contains(padded_left(digits(k, 16), 8, '0')) by {
            lemma_winner_is_found(f@, bits as nat, from as int, up_to_nonces(to as int), k);
        }
    }
    r
}

/// The share of a range that thread `t` of `threads` searches: equal parts,
/// and the last thread takes what is left over.
pub open spec fn cpu_part(threads: int, nstart: int, span: int, t: int) -> (int, int) {
    let per = span / threads;
    let a = nstart + t * per;
    (a, if t == threads - 1 { nstart + span } else { a + per })
}

/// How many threads search: at least one.
pub open spec fn cpu_workers(threads: usize) -> int {
    if threads == 0 { 1 } else { threads as int }
}

/// The shares of all threads.
pub fn cpu_ranges(threads: usize, nstart: u64, span: u64) -> (r: Vec<(u64, u64)>)
    requires
        nstart + span <= u64::MAX,
    ensures
        r@.len() == cpu_workers(threads),
        forall|t: int|
            0 <= t < r@.len() ==> (r@[t].0 as int, r@[t].1 as int) == #[trigger] cpu_part(
                cpu_workers(threads),
                nstart as int,
                span as int,
                t,
            ),
{
    let n: usize = if threads == 0 { 1 } else { threads };
    let per: u64 = span / (n as u64);
    let mut r: Vec<(u64, u64)> = Vec::new();
    let mut t: usize = 0;
    while t < n
        invariant
            t <= n,
            n >= 1,
            n == cpu_workers(threads),
            nstart + span <= u64::MAX,
            per == span / (n as u64),
            r@.len() == t,
            forall|j: int|
                0 <= j < t ==> (r@[j].0 as int, r@[j].1 as int) == #[trigger] cpu_part(n as int, nstart as int, span as int, j),
        decreases n - t,
    {
        proof {
            assert((t + 1) * per <= span && t * per <= span) by (nonlinear_arith)
                requires
                    t < n,
                    per == span / (n as u64),
                    n >= 1,
            ;
            assert((t + 1) * per == t * per + per) by (nonlinear_arith);
        }
        let a: u64 = nstart + (t as u64) * per;
        let b: u64 = if t == n - 1 { nstart + span } else { a + per };
        r.push((a, b));
        t = t + 1;
    }
    r
}

/// Law: the threads' shares lie side by side and make up the whole range.
pub proof fn law_cpu_parts_tile(threads: int, nstart: int, span: int, t: int)
    requires
        threads >= 1,
        0 <= span,
        0 <= t < threads,
    ensures
        cpu_part(threads, nstart, span, 0).0 == nstart,
        cpu_part(threads, nstart, span, threads - 1).1 == nstart + span,
        cpu_part(threads, nstart, span, t).0 <= cpu_part(threads, nstart, span, t).1,
        t + 1 < threads ==> cpu_part(threads, nstart, span, t).1 == cpu_part(threads, nstart, span, t + 1).0,
        nstart <= cpu_part(threads, nstart, span, t).0,
        cpu_part(threads, nstart, span, t).1 <= nstart + span,
{
    let per = span / threads;
    assert(0 <= per) by (nonlinear_arith)
        requires
            per == span / threads,
            threads >= 1,
            span >= 0,
    ;
    assert(t * per >= 0 && (t + 1) * per <= span) by (nonlinear_arith)
        requires
            0 <= t < threads,
            per == span / threads,
            per >= 0,
            span >= 0,
    ;
    assert((t + 1) * per == t * per + per) by (nonlinear_arith);
    assert(0 * per == 0);
}

/// Law: searching a range in two parts finds what searching it at once finds.
pub proof fn law_winners_of_parts(f: FieldsV, bits: nat, lo: int, mid: int, hi: int)
    requires
        0 <= lo <= mid,
    ensures
        winners(f, bits, lo, up_to_nonces(mid)) + winners(f, bits, mid, up_to_nonces(hi)) == winners(
            f,
            bits,
            lo,
            up_to_nonces(if mid <= hi { hi } else { mid }),
        ),
    decreases hi - mid,
{
    let a = winners(f, bits, lo, up_to_nonces(mid));
    if up_to_nonces(hi) <= mid {
        assert(a + winners(f, bits, mid, up_to_nonces(hi)) =~= a);
    } else if hi > 0x1_0000_0000 {
        lemma_winners_split(f, bits, lo, mid, 0x1_0000_0000);
    } else {
        lemma_winners_split(f, bits, lo, mid, hi);
    }
}

proof fn lemma_winners_split(f: FieldsV, bits: nat, lo: int, mid: int, hi: int)
    requires
        0 <= lo <= mid <= hi,
    ensures
        winners(f, bits, lo, mid) + winners(f, bits, mid, hi) == winners(f, bits, lo, hi),
    decreases hi - mid,
{
    let a = winners(f, bits, lo, mid);
    if mid == hi {
        assert(a + winners(f, bits, mid, hi) =~= a);
    } else {
        lemma_winners_split(f, bits, lo, mid, hi - 1);
        let b = winners(f, bits, mid, hi - 1);
        let w = padded_left(digits((hi - 1) as nat, 16), 8, '0');
        assert(a + b.push(w) =~= (a + b).push(w));
    }
}

/// What a CPU search of `span` nonces from `nstart` finds; nothing where the
/// job cannot be read.
pub open spec fn cpu_finds(f: Option<FieldsV>, bits: nat, nstart: int, span: int) -> Seq<Seq<char>> {
    match f {
        Some(f) => winners(f, bits, nstart, up_to_nonces(nstart + span)),
        None => Seq::empty(),
    }
}

/// Searches `span` nonces from `nstart`, one thread's share after another.
pub fn cpu_grind(
    prevhash_hex: &str,
    ntime_hex: &str,
    work_root_hex: &str,
    bits: u32,
    threads: usize,
    nstart: u64,
    span: u64,
) -> (r: Vec<String>)
    requires
        nstart + span <= u64::MAX,
    ensures
        strings(r@) == cpu_finds(
            fields(prevhash_hex@, ntime_hex@, work_root_hex@),
            bits as nat,
            nstart as int,
            span as int,
        ),
        forall|f: FieldsV, n: nat|
            fields(prevhash_hex@, ntime_hex@, work_root_hex@) == Some(f) && nstart <= n < nstart + span && n
                < 0x1_0000_0000 && be_value(#[trigger] pow_hash(f, n)) <= share_target(bits as nat) ==> strings(
                r@,
            ).contains(padded_left(digits(n, 16), 8, '0')),
{
    let mut r: Vec<String> = Vec::new();
    assert(strings(r@) =~= Seq::<Seq<char>>::empty());
    let f = match Fields::decode(prevhash_hex, ntime_hex, work_root_hex) {
        Some(f) => f,
        None => {
            return r;
        },
    };
    let ranges = cpu_ranges(threads, nstart, span);
    let ghost n = cpu_workers(threads);
    let mut t: usize = 0;
    let ghost mut done: int = nstart as int;
    while t < ranges.len()
        invariant
            t <= ranges.len(),
            ranges@.len() == n,
            n >= 1,
            nstart <= done <= nstart + span,
            t < n ==> done == cpu_part(n, nstart as int, span as int, t as int).0,
            t == n ==> done == nstart + span,
            forall|j: int|
                0 <= j < n ==> (ranges@[j].0 as int, ranges@[j].1 as int) == #[trigger] cpu_part(
                    n,
                    nstart as int,
                    span as int,
                    j,
                ),
            strings(r@) == winners(f@, bits as nat, nstart as int, up_to_nonces(done)),
        decreases ranges.len() - t,
    {
        proof {
            law_cpu_parts_tile(n, nstart as int, span as int, t as int);
            assert(cpu_part(n, nstart as int, span as int, t as int) == (
                ranges@[t as int].0 as int,
                ranges@[t as int].1 as int,
            ));
        }
        let (a, b) = ranges[t];
        let mut more = grind_range(&f, bits, a, b);
        let ghost before = strings(r@);
        let ghost found = strings(more@);
        r.append(&mut more);
        proof {
            assert(strings(r@) =~= before + found);
            law_winners_of_parts(f@, bits as nat, nstart as int, a as int, b as int);
            done = b as int;
        }
        t = t + 1;
    }
    proof {
        assert forall|g: FieldsV, k: nat|
            fields(prevhash_hex@, ntime_hex@, work_root_hex@) == Some(g) && nstart <= k < nstart + span && k
                < 0x1_0000_0000 && be_value(#[trigger] pow_hash(g, k)) <= share_target(bits as nat) implies strings(
            r@,
        ).contains(padded_left(digits(k, 16), 8, '0')) by {
            lemma_winner_is_found(f@, bits as nat, nstart as int, up_to_nonces(nstart + span), k);
        }
    }
    r
}

// ---------------------------------------------------------------- work units

/// One unit of work: what the grinders hash, and what a share of it is
/// submitted with.
#[derive(Debug)]
pub struct WorkUnit {
    pub prevhash: String,
    pub ntime: String,
    pub version: String,
    pub job_id: String,
    pub en2hex: String,
    pub work_root: String,
}

/// A work unit by its texts.
pub struct WorkUnitV {
    pub prevhash: Seq<char>,
    pub ntime: Seq<char>,
    pub version: Seq<char>,
    pub job_id: Seq<char>,
    pub en2hex: Seq<char>,
    pub work_root: Seq<char>,
}

impl View for WorkUnit {
    type V = WorkUnitV;

    open spec fn view(&self) -> WorkUnitV {
        WorkUnitV {
            prevhash: self.prevhash@,
            ntime: self.ntime@,
            version: self.version@,
            job_id: self.job_id@,
            en2hex: self.en2hex@,
            work_root: self.work_root@,
        }
    }
}

/// The items of a job, as trees.
pub open spec fn trees(v: Seq<Json>) -> Seq<JsonV> {
    Seq::new(v.len(), |i: int| v[i]@)
}

/// A text, or the empty one.
pub open spec fn text_or_empty(t: Option<Seq<char>>) -> Seq<char> {
    match t {
        Some(s) => s,
        None => Seq::empty(),
    }
}

/// The bytes of a hexadecimal text; none where it cannot be read.
pub open spec fn bytes_or_empty(s: Seq<char>) -> Seq<u8> {
    match hex_bytes(s) {
        Some(b) => b,
        None => Seq::empty(),
    }
}

/// The miner's part of the extranonce: the counter's low bytes, least
/// significant first, filled up with zeros to the size that the pool asked
/// for, and never empty.
pub open spec fn extranonce2(counter: u64, size: nat) -> Seq<u8> {
    resized(
        le_bytes(counter as nat, if size < 8 { size } else { 8 }),
        if size < 1 { 1 } else { size },
    )
}

/// The bytes whose hash is the work root: a zero byte, the job's coinbase part
/// and twelve bytes of extranonce.
pub open spec fn leaf(coinb1: Seq<u8>, en1: Seq<u8>, en2: Seq<u8>) -> Seq<u8> {
    seq![0u8] + coinb1 + resized(en1 + en2, 12)
}

/// The work unit of a job for a value of the counter.
pub open spec fn unit_of(en1: Seq<char>, job: Seq<JsonV>, counter: u64, size: nat) -> WorkUnitV {
    let en2 = extranonce2(counter, size);
    WorkUnitV {
        prevhash: text_or_empty(job[1].text()),
        ntime: text_or_empty(job[7].text()),
        version: text_or_empty(job[5].text()),
        job_id: text_or_empty(job[0].text()),
        en2hex: hex_text(en2),
        work_root: hex_text(blake2b256(leaf(bytes_or_empty(text_or_empty(job[2].text())), bytes_or_empty(en1), en2))),
    }
}

fn text_of(j: &Json) -> (r: String)
    ensures
        r@ == text_or_empty(j@.text()),
{
    match j.as_str() {
        Some(s) => s.to_owned(),
        None => String::new(),
    }
}

fn bytes_of(s: &str) -> (r: Vec<u8>)
    ensures
        r@ == bytes_or_empty(s@),
{
    match hex_decode(s) {
        Some(v) => v,
        None => {
            let v: Vec<u8> = Vec::new();
            assert(v@ =~= Seq::<u8>::empty());
            v
        },
    }
}

/// The low bytes of a number, least significant first.
fn low_bytes(n: u64, count: usize) -> (r: Vec<u8>)
    ensures
        r@ == le_bytes(n as nat, count as nat),
{
    let mut r: Vec<u8> = Vec::new();
    let mut m: u64 = n;
    let mut i: usize = 0;
    assert(r@ + le_bytes(n as nat, count as nat) =~= le_bytes(n as nat, count as nat));
    while i < count
        invariant
            i <= count,
            r@ + le_bytes(m as nat, (count - i) as nat) == le_bytes(n as nat, count as nat),
        decreases count - i,
    {
        let ghost before = r@;
        let ghost rest = le_bytes((m / 256) as nat, (count - i - 1) as nat);
        r.push((m % 256) as u8);
        assert(before + (seq![(m % 256) as u8] + rest) =~= r@ + rest);
        m = m / 256;
        i = i + 1;
    }
    assert(r@ + Seq::<u8>::empty() =~= r@);
    r
}

/// Builds the work unit of a job.
pub fn work_unit(en1: &str, job: &Vec<Json>, counter: u64, size: usize) -> (r: WorkUnit)
    requires
        job@.len() >= 8,
    ensures
        r@ == unit_of(en1@, trees(job@), counter, size as nat),
{
    let coinb1 = bytes_of(text_of(&job[2]).as_str());
    let cut: usize = if size < 8 { size } else { 8 };
    let low = low_bytes(counter, cut);
    let mut en2: Vec<u8> = Vec::new();
    push_part(&mut en2, &low, if size < 1 { 1 } else { size });
    assert(en2@ =~= extranonce2(counter, size as nat));
    let mut both = bytes_of(en1);
    let ghost en1b = both@;
    both.extend_from_slice(en2.as_slice());
    assert(both@ =~= en1b + en2@);
    let mut bytes: Vec<u8> = Vec::new();
    bytes.push(0);
    bytes.extend_from_slice(coinb1.as_slice());
    push_part(&mut bytes, &both, 12);
    assert(bytes@ =~= leaf(coinb1@, en1b, en2@));
    let root = b2b(bytes.as_slice());
    let root_hex = hex_encode(root.as_slice());
    WorkUnit {
        prevhash: text_of(&job[1]),
        ntime: text_of(&job[7]),
        version: text_of(&job[5]),
        job_id: text_of(&job[0]),
        en2hex: hex_encode(en2.as_slice()),
        work_root: root_hex,
    }
}

/// Law: units that differ only in the counter are searched apart. Their
/// extranonces differ as long as the counter fits in the size that the pool
/// asked for.
pub proof fn law_counters_give_distinct_extranonces(a: u64, b: u64, size: nat)
    requires
        1 <= size,
        a != b,
        size < 8 ==> a < pow2(8 * size) && b < pow2(8 * size),
    ensures
        extranonce2(a, size) != extranonce2(b, size),
{
    let n: nat = if size < 8 { size } else { 8 };
    lemma2_to64();
    lemma_le_bytes_distinct(a as nat, b as nat, n);
    lemma_le_bytes_len(a as nat, n);
    lemma_le_bytes_len(b as nat, n);
    if extranonce2(a, size) == extranonce2(b, size) {
        assert forall|i: int| 0 <= i < n implies le_bytes(a as nat, n)[i] == le_bytes(b as nat, n)[i] by {
            assert(extranonce2(a, size)[i] == extranonce2(b, size)[i]);
        }
        assert(le_bytes(a as nat, n) =~= le_bytes(b as nat, n));
    }
}

proof fn lemma_le_bytes_len(n: nat, count: nat)
    ensures
        le_bytes(n, count).len() == count,
    decreases count,
{
    if count > 0 {
        lemma_le_bytes_len(n / 256, (count - 1) as nat);
    }
}

proof fn lemma_le_bytes_distinct(a: nat, b: nat, count: nat)
    requires
        a != b,
        a < pow2(8 * count),
        b < pow2(8 * count),
    ensures
        le_bytes(a, count) != le_bytes(b, count),
    decreases count,
{
    lemma2_to64();
    if count == 0 {
        assert(pow2(0) == 1);
    } else {
        let k = (count - 1) as nat;
        lemma_pow2_adds(8, 8 * k);
        assert(8 * count == 8 + 8 * k);
        let x = le_bytes(a, count);
        let y = le_bytes(b, count);
        if x == y {
            assert(x[0] == (a % 256) as u8);
            assert(y[0] == (b % 256) as u8);
            assert(x.skip(1) =~= le_bytes(a / 256, k));
            assert(y.skip(1) =~= le_bytes(b / 256, k));
            assert(a % 256 == b % 256);
            assert(a / 256 != b / 256);
            lemma_le_bytes_distinct(a / 256, b / 256, k);
        }
    }
}

/// Law: what the CPU search reports stands up to the check. Each winning nonce
/// reads back, and its hash, computed again, is within the target.
pub proof fn law_finds_pass_the_check(
    prevhash: Seq<char>,
    ntime: Seq<char>,
    root: Seq<char>,
    bits: nat,
    nonce: nat,
)
    requires
        fields(prevhash, ntime, root) is Some,
        nonce < 0x1_0000_0000,
        wins(fields(prevhash, ntime, root)->0, bits, nonce),
    ensures
        ({
            let h = nonce_hash_of(prevhash, ntime, root, padded_left(digits(nonce, 16), 8, '0'));
            h is Some && be_value(h->0) <= share_target(bits)
        }),
{
    crate::text::law_numbers_read_back(nonce, 16, 8, 0xffff_ffff);
}

// -------------------------------------------------------------- layout laws

proof fn lemma_le_bytes_at(n: nat, count: nat, i: int)
    requires
        0 <= i < count,
    ensures
        le_bytes(n, count).len() == count,
        le_bytes(n, count)[i] as int == (n as int / pow2((8 * i) as nat) as int) % 256,
    decreases count,
{
    lemma2_to64();
    lemma_le_bytes_len(n, count);
    lemma_le_bytes_len(n / 256, (count - 1) as nat);
    if i > 0 {
        let e = (8 * (i - 1)) as nat;
        lemma_le_bytes_at(n / 256, (count - 1) as nat, i - 1);
        lemma_pow2_pos(e);
        lemma_pow2_adds(8, e);
        lemma_div_denominator(n as int, 256, pow2(e) as int);
        assert((8 * i) as nat == 8 + e);
    } else {
        assert(n as int / 1 == n);
    }
}

/// Law: the bytes that are hashed hold every byte of the job's coinbase part,
/// behind a zero byte, and then twelve bytes of extranonce: the pool's part,
/// the miner's, and zeros.
pub proof fn law_leaf_holds_the_coinbase(coinb1: Seq<u8>, en1: Seq<u8>, en2: Seq<u8>)
    ensures
        leaf(coinb1, en1, en2).len() == 1 + coinb1.len() + 12,
        leaf(coinb1, en1, en2)[0] == 0,
        forall|i: int| 0 <= i < coinb1.len() ==> leaf(coinb1, en1, en2)[1 + i] == #[trigger] coinb1[i],
        forall|i: int|
            0 <= i < 12 ==> #[trigger] leaf(coinb1, en1, en2)[1 + coinb1.len() + i] == if i < en1.len() {
                en1[i]
            } else if i < en1.len() + en2.len() {
                en2[i - en1.len()]
            } else {
                0
            },
{
}

/// Law: jobs whose coinbase parts differ, in whatever byte, are hashed over
/// different bytes, and so are extranonces that differ within the twelve bytes.
pub proof fn law_leaves_tell_work_apart(a: Seq<u8>, b: Seq<u8>, en1: Seq<u8>, x: Seq<u8>, y: Seq<u8>)
    requires
        a.len() == b.len(),
        x.len() == y.len(),
        a != b || (x != y && en1.len() + x.len() <= 12),
    ensures
        leaf(a, en1, x) != leaf(b, en1, y),
{
    law_leaf_holds_the_coinbase(a, en1, x);
    law_leaf_holds_the_coinbase(b, en1, y);
    let l = leaf(a, en1, x);
    let m = leaf(b, en1, y);
    if l == m {
        assert forall|i: int| 0 <= i < a.len() implies a[i] == b[i] by {
            assert(l[1 + i] == a[i] && m[1 + i] == b[i]);
        }
        assert(a =~= b);
        assert forall|i: int| 0 <= i < x.len() && en1.len() + x.len() <= 12 implies x[i] == y[i] by {
            let k = en1.len() + i;
            assert(l[1 + a.len() + k] == x[i]);
            assert(m[1 + b.len() + k] == y[i]);
        }
        if en1.len() + x.len() <= 12 {
            assert(x =~= y);
        }
    }
}

/// Law: the extranonce that a unit is submitted with spells the counter, its
/// lowest byte first, in as many bytes as the pool asked for.
pub proof fn law_extranonce_spells_the_counter(en1: Seq<char>, job: Seq<JsonV>, counter: u64, size: nat)
    ensures
        ({
            let own = hex_bytes(unit_of(en1, job, counter, size).en2hex);
            &&& own is Some
            &&& own->0.len() == if size == 0 { 1 } else { size }
            &&& forall|i: int|
                0 <= i < own->0.len() ==> #[trigger] own->0[i] as int == if i < 8 && i < size {
                    (counter as int / pow2((8 * i) as nat) as int) % 256
                } else {
                    0
                }
        }),
{
    let e = extranonce2(counter, size);
    law_hex_reads_back(e);
    let n: nat = if size < 8 { size } else { 8 };
    lemma_le_bytes_len(counter as nat, n);
    assert forall|i: int| 0 <= i < e.len() implies #[trigger] e[i] as int == if i < 8 && i < size {
        (counter as int / pow2((8 * i) as nat) as int) % 256
    } else {
        0
    } by {
        if i < n {
            lemma_le_bytes_at(counter as nat, n, i);
        }
    }
}

/// Law: the work root is the hash of a zero byte, all of the job's coinbase
/// part, and twelve bytes of extranonce. A part that is no hexadecimal text
/// counts as empty.
pub proof fn law_work_root_commits_to_the_job(
    en1: Seq<char>,
    job: Seq<JsonV>,
    counter: u64,
    size: nat,
    coinb1: Seq<u8>,
    pool: Seq<u8>,
    own: Seq<u8>,
    hashed: Seq<u8>,
)
    requires
        job.len() >= 8,
        job[2] is Text,
        match hex_bytes(job[2]->Text_0) {
            Some(b) => coinb1 == b,
            None => coinb1.len() == 0,
        },
        match hex_bytes(en1) {
            Some(b) => pool == b,
            None => pool.len() == 0,
        },
        hex_bytes(unit_of(en1, job, counter, size).en2hex) == Some(own),
        hashed.len() == 1 + coinb1.len() + 12,
        hashed[0] == 0,
        forall|i: int| 0 <= i < coinb1.len() ==> hashed[1 + i] == #[trigger] coinb1[i],
        forall|i: int|
            0 <= i < 12 ==> #[trigger] hashed[1 + coinb1.len() + i] == if i < pool.len() {
                pool[i]
            } else if i < pool.len() + own.len() {
                own[i - pool.len()]
            } else {
                0
            },
    ensures
        unit_of(en1, job, counter, size).work_root == hex_text(blake2b256(hashed)),
        hex_bytes(unit_of(en1, job, counter, size).work_root) == Some(blake2b256(hashed)),
{
    let e = extranonce2(counter, size);
    law_hex_reads_back(e);
    assert(e == own);
    assert(coinb1 =~= bytes_or_empty(job[2]->Text_0));
    assert(pool =~= bytes_or_empty(en1));
    let l = leaf(coinb1, pool, own);
    law_leaf_holds_the_coinbase(coinb1, pool, own);
    assert forall|i: int| 0 <= i < l.len() implies l[i] == hashed[i] by {
        if 0 < i <= coinb1.len() {
            assert(hashed[1 + (i - 1)] == coinb1[i - 1]);
        } else if i > 0 {
            let k = i - 1 - coinb1.len();
            assert(hashed[1 + coinb1.len() + k] == l[1 + coinb1.len() + k]);
        }
    }
    assert(l =~= hashed);
    law_hex_reads_back(blake2b256(hashed));
}

/// Law: a unit carries the job's own texts: its id, the previous block, the
/// version and the time.
pub proof fn law_unit_carries_the_job(en1: Seq<char>, job: Seq<JsonV>, counter: u64, size: nat)
    requires
        job.len() >= 8,
    ensures
        ({
            let u = unit_of(en1, job, counter, size);
            &&& job[0] is Text ==> u.job_id == job[0]->Text_0
            &&& job[1] is Text ==> u.prevhash == job[1]->Text_0
            &&& job[5] is Text ==> u.version == job[5]->Text_0
            &&& job[7] is Text ==> u.ntime == job[7]->Text_0
            &&& !(job[0] is Text) ==> u.job_id.len() == 0
            &&& !(job[1] is Text) ==> u.prevhash.len() == 0
            &&& !(job[5] is Text) ==> u.version.len() == 0
            &&& !(job[7] is Text) ==> u.ntime.len() == 0
        }),
{
}

/// Law: units of one job with different counters are submitted with different
/// extranonces, as long as the counters fit in the size that the pool asked
/// for.
pub proof fn law_units_are_submitted_apart(en1: Seq<char>, job: Seq<JsonV>, a: u64, b: u64, size: nat)
    requires
        1 <= size,
        a != b,
        size < 8 ==> a < pow2(8 * size) && b < pow2(8 * size),
    ensures
        unit_of(en1, job, a, size).en2hex != unit_of(en1, job, b, size).en2hex,
{
    law_counters_give_distinct_extranonces(a, b, size);
    law_hex_reads_back(extranonce2(a, size));
    law_hex_reads_back(extranonce2(b, size));
}

/// Law: the header is 80 bytes: the previous block's hash, the nonce with its
/// lowest byte first, four zeros, eight bytes of time, and the work root.
pub proof fn law_header_layout(f: FieldsV, nonce: nat)
    requires
        f.prevhash.len() >= 32,
        f.root.len() >= 32,
    ensures
        header(f, nonce).len() == 80,
        forall|i: int| 0 <= i < 32 ==> header(f, nonce)[i] == #[trigger] f.prevhash[i],
        forall|i: int|
            0 <= i < 4 ==> #[trigger] header(f, nonce)[32 + i] as int == (nonce as int / pow2((8 * i) as nat) as int)
                % 256,
        forall|i: int| 36 <= i < 40 ==> #[trigger] header(f, nonce)[i] == 0,
        forall|i: int|
            0 <= i < 8 ==> #[trigger] header(f, nonce)[40 + i] == if i < f.ntime.len() { f.ntime[i] } else { 0 },
        forall|i: int| 0 <= i < 32 ==> header(f, nonce)[48 + i] == #[trigger] f.root[i],
{
    lemma_le_bytes_len(nonce, 4);
    assert forall|i: int| 0 <= i < 4 implies #[trigger] header(f, nonce)[32 + i] as int == (nonce as int / pow2(
        (8 * i) as nat,
    ) as int) % 256 by {
        lemma_le_bytes_at(nonce, 4, i);
    }
}

/// Law: a nonce's hash is that of the 80 bytes made of the job's hash, the
/// nonce, four zeros, the time and the root. A time that is no hexadecimal
/// text counts as zeros.
pub proof fn law_nonce_hash_covers_the_header(
    prevhash: Seq<char>,
    ntime: Seq<char>,
    root: Seq<char>,
    nonce: Seq<char>,
    p: Seq<u8>,
    t: Seq<u8>,
    r: Seq<u8>,
    n: nat,
    hashed: Seq<u8>,
)
    requires
        hex_bytes(prevhash) == Some(p),
        hex_bytes(root) == Some(r),
        p.len() >= 32,
        r.len() >= 32,
        match hex_bytes(ntime) {
            Some(b) => t == b,
            None => t.len() == 0,
        },
        parsed(nonce, 16, 0xffff_ffff) == Some(n),
        hashed.len() == 80,
        forall|i: int| 0 <= i < 32 ==> hashed[i] == #[trigger] p[i],
        forall|i: int|
            0 <= i < 4 ==> #[trigger] hashed[32 + i] as int == (n as int / pow2((8 * i) as nat) as int) % 256,
        forall|i: int| 36 <= i < 40 ==> #[trigger] hashed[i] == 0,
        forall|i: int| 0 <= i < 8 ==> #[trigger] hashed[40 + i] == if i < t.len() { t[i] } else { 0 },
        forall|i: int| 0 <= i < 32 ==> hashed[48 + i] == #[trigger] r[i],
    ensures
        nonce_hash_of(prevhash, ntime, root, nonce) == Some(blake2b256(hashed)),
{
    let f = fields(prevhash, ntime, root)->0;
    assert(f.ntime =~= t);
    law_header_layout(f, n);
    let h = header(f, n);
    assert forall|i: int| 0 <= i < 80 implies h[i] == hashed[i] by {
        if i < 32 {
            assert(h[i] == p[i]);
        } else if i < 36 {
            assert(h[32 + (i - 32)] as int == hashed[32 + (i - 32)] as int);
        } else if 40 <= i < 48 {
            assert(h[40 + (i - 40)] == hashed[40 + (i - 40)]);
        } else if i >= 48 {
            assert(h[48 + (i - 48)] == r[i - 48]);
        }
    }
    assert(h =~= hashed);
}

/// Law: a nonce cannot be hashed only where the job's hash or root is no
/// hexadecimal text of 32 bytes, or the nonce is no number of 32 bits.
pub proof fn law_nonces_are_hashed(prevhash: Seq<char>, ntime: Seq<char>, root: Seq<char>, nonce: Seq<char>)
    ensures
        nonce_hash_of(prevhash, ntime, root, nonce) is Some <==> {
            &&& hex_bytes(prevhash) is Some && hex_bytes(prevhash)->0.len() >= 32
            &&& hex_bytes(root) is Some && hex_bytes(root)->0.len() >= 32
            &&& parsed(nonce, 16, 0xffff_ffff) is Some
        },
{
}

/// Law: a search misses nothing. Every nonce in the range whose hash is within
/// the share target is reported, as eight hexadecimal digits.
pub proof fn law_search_is_complete(f: FieldsV, bits: nat, lo: int, hi: int, n: nat, text: Seq<char>)
    requires
        0 <= lo <= n < hi,
        n < 0x1_0000_0000,
        be_value(blake2b256(header(f, n))) <= share_target(bits),
        text.len() == 8,
        forall|k: int|
            0 <= k < 8 ==> #[trigger] text[k] == digit_char((n as int / pow2((4 * (7 - k)) as nat) as int) % 16),
    ensures
        winners(f, bits, lo, up_to_nonces(hi)).contains(text),
{
    lemma2_to64();
    crate::text::law_hex_has_its_digits(n, 8);
    assert(text =~= padded_left(digits(n, 16), 8, '0'));
    lemma_winner_is_found(f, bits, lo, up_to_nonces(hi), n);
}

/// Law: a search reports nothing else. What it reports is the text of a nonce
/// in the range whose hash is within the share target, and nonces come in
/// ascending order, each once.
pub proof fn law_search_is_sound(f: FieldsV, bits: nat, lo: int, hi: int, i: int) -> (n: nat)
    requires
        0 <= lo,
        0 <= i < winners(f, bits, lo, up_to_nonces(hi)).len(),
    ensures
        lo <= n < hi,
        n < 0x1_0000_0000,
        be_value(blake2b256(header(f, n))) <= share_target(bits),
        parsed(winners(f, bits, lo, up_to_nonces(hi))[i], 16, 0xffff_ffff) == Some(n),
        winners(f, bits, lo, up_to_nonces(hi))[i].len() == 8,
        forall|j: int|
            0 <= j < i ==> parsed(#[trigger] winners(f, bits, lo, up_to_nonces(hi))[j], 16, 0xffff_ffff) is Some
                && parsed(winners(f, bits, lo, up_to_nonces(hi))[j], 16, 0xffff_ffff)->0 < n,
{
    lemma_sound(f, bits, lo, up_to_nonces(hi), i)
}

proof fn lemma_sound(f: FieldsV, bits: nat, lo: int, hi: int, i: int) -> (n: nat)
    requires
        0 <= lo,
        hi <= 0x1_0000_0000,
        0 <= i < winners(f, bits, lo, hi).len(),
    ensures
        lo <= n < hi,
        be_value(blake2b256(header(f, n))) <= share_target(bits),
        parsed(winners(f, bits, lo, hi)[i], 16, 0xffff_ffff) == Some(n),
        winners(f, bits, lo, hi)[i].len() == 8,
        forall|j: int|
            0 <= j < i ==> parsed(#[trigger] winners(f, bits, lo, hi)[j], 16, 0xffff_ffff) is Some && parsed(
                winners(f, bits, lo, hi)[j],
                16,
                0xffff_ffff,
            )->0 < n,
    decreases hi - lo, i,
{
    let v = winners(f, bits, lo, hi);
    let w = winners(f, bits, lo, hi - 1);
    if i < w.len() {
        assert(v[i] == w[i]);
        let n = lemma_sound(f, bits, lo, hi - 1, i);
        assert forall|j: int| 0 <= j < i implies parsed(#[trigger] v[j], 16, 0xffff_ffff) is Some && parsed(
            v[j],
            16,
            0xffff_ffff,
        )->0 < n by {
            assert(v[j] == w[j]);
        }
        n
    } else {
        let n = (hi - 1) as nat;
        lemma2_to64();
        crate::text::law_hex_has_its_digits(n, 8);
        crate::text::law_numbers_read_back(n, 16, 8, 0xffff_ffff);
        assert forall|j: int| 0 <= j < i implies parsed(#[trigger] v[j], 16, 0xffff_ffff) is Some && parsed(
            v[j],
            16,
            0xffff_ffff,
        )->0 < n by {
            assert(v[j] == w[j]);
            let k = lemma_sound(f, bits, lo, hi - 1, j);
        }
        n
    }
}

/// Law: the CPU searches with as many threads as it is given, and with one where
/// it is given none.
pub proof fn law_threads_search(threads: usize)
    ensures
        threads > 0 ==> cpu_workers(threads) == threads,
        threads == 0 ==> cpu_workers(threads) == 1,
{
}

} // verus!
