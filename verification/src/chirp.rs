//! The CHIRP syndicate: everyone in the coinbase draw.

use crate::double::Double;
use crate::json::{json_value, parse_json, Json, JsonV};
use crate::label::{address_text, clean_address};
use crate::stats::{Stats, StatsV};
use crate::text::same;
use vstd::prelude::*;
use vstd::seq_lib::to_multiset_insert;

verus! {

// ----------------------------------------------------------------- members

/// A miner that the pool lists.
#[derive(Debug)]
pub struct ChirpMember {
    pub addr: String,
    pub days: Double,
    pub power: Double,
    pub weight: Double,
    pub eligible: bool,
    /// When it last sent a share, in seconds since 1970.
    pub last_seen: u64,
}

/// A member by what it holds.
pub struct MemberV {
    pub addr: Seq<char>,
    pub days: Double,
    pub power: Double,
    pub weight: Double,
    pub eligible: bool,
    pub last_seen: u64,
}

impl View for ChirpMember {
    type V = MemberV;

    open spec fn view(&self) -> MemberV {
        MemberV {
            addr: self.addr@,
            days: self.days,
            power: self.power,
            weight: self.weight,
            eligible: self.eligible,
            last_seen: self.last_seen,
        }
    }
}

/// The members of a list.
pub open spec fn members_of(v: Seq<ChirpMember>) -> Seq<MemberV> {
    Seq::new(v.len(), |i: int| v[i]@)
}

/// Zero as a double.
pub open spec fn zero() -> Double {
    Double { bits: 0 }
}

/// Seven as a double.
pub open spec fn seven() -> Double {
    Double { bits: 0x401c_0000_0000_0000 }
}

/// A number that a value holds, or another.
pub open spec fn double_or(v: Option<Double>, d: Double) -> Double {
    match v {
        Some(x) => x,
        None => d,
    }
}

/// A count that a value holds, or another.
pub open spec fn uint_or(v: Option<u64>, n: u64) -> u64 {
    match v {
        Some(x) => x,
        None => n,
    }
}

/// A miner as the pool describes it. Of its address only letters and digits
/// are kept.
pub open spec fn member_of(m: JsonV) -> MemberV {
    MemberV {
        addr: address_text(crate::work::text_or_empty(m.field_text("address"@))),
        days: double_or(m.field_double("days"@), zero()),
        power: double_or(m.field_double("power"@), zero()),
        weight: double_or(m.field_double("weight"@), zero()),
        eligible: m.field_truth("eligible"@) == Some(true),
        last_seen: uint_or(m.field_uint("last_seen"@), 0),
    }
}

fn number_or(v: Option<Double>, d: Double) -> (r: Double)
    ensures
        r == double_or(v, d),
{
    match v {
        Some(x) => x,
        None => d,
    }
}

fn count_or(v: Option<u64>, n: u64) -> (r: u64)
    ensures
        r == uint_or(v, n),
{
    match v {
        Some(x) => x,
        None => n,
    }
}

fn read_member(m: &Json) -> (r: ChirpMember)
    ensures
        r@ == member_of(m@),
{
    let none = Double { bits: 0 };
    let addr = match m.field_str("address") {
        Some(s) => clean_address(s),
        None => {
            let e = String::new();
            assert(e@ =~= Seq::<char>::empty());
            clean_address(e.as_str())
        },
    };
    let eligible = match m.field_bool("eligible") {
        Some(b) => b,
        None => false,
    };
    ChirpMember {
        addr,
        days: number_or(m.field_as_double("days"), none),
        power: number_or(m.field_as_double("power"), none),
        weight: number_or(m.field_as_double("weight"), none),
        eligible,
        last_seen: count_or(m.field_u64("last_seen"), 0),
    }
}

// ------------------------------------------------------------------- order

/// Whether a member stands before another: eligible ones first, and among them
/// the heavier, then the one with the longer tenure; among the rest the one with
/// the longer tenure, then the heavier.
pub open spec fn precedes(a: MemberV, b: MemberV) -> bool {
    if a.eligible != b.eligible {
        a.eligible
    } else if a.eligible {
        ahead(a.weight, b.weight, a.days, b.days)
    } else {
        ahead(a.days, b.days, a.weight, b.weight)
    }
}

/// Whether a number is above another, or level with it and the next one above.
pub open spec fn ahead(a: Double, b: Double, a2: Double, b2: Double) -> bool {
    if b.spec_below(a) {
        true
    } else if a.spec_below(b) {
        false
    } else {
        b2.spec_below(a2)
    }
}

fn is_ahead(a: Double, b: Double, a2: Double, b2: Double) -> (r: bool)
    ensures
        r == ahead(a, b, a2, b2),
{
    if b.below(a) {
        true
    } else if a.below(b) {
        false
    } else {
        b2.below(a2)
    }
}

fn comes_first(a: &ChirpMember, b: &ChirpMember) -> (r: bool)
    ensures
        r == precedes(a@, b@),
{
    if a.eligible != b.eligible {
        a.eligible
    } else if a.eligible {
        is_ahead(a.weight, b.weight, a.days, b.days)
    } else {
        is_ahead(a.days, b.days, a.weight, b.weight)
    }
}

/// Where a member goes in a list: behind the last one that it does not stand
/// before.
pub open spec fn place_for(s: Seq<MemberV>, x: MemberV) -> int
    decreases s.len(),
{
    if s.len() == 0 || !precedes(x, s.last()) { s.len() as int } else { place_for(s.drop_last(), x) }
}

/// The members in order. Those of the same standing stay in the order in which
/// the pool lists them.
pub open spec fn arranged(s: Seq<MemberV>) -> Seq<MemberV>
    decreases s.len(),
{
    if s.len() == 0 {
        s
    } else {
        let t = arranged(s.drop_last());
        t.insert(place_for(t, s.last()), s.last())
    }
}

proof fn lemma_place_for(s: Seq<MemberV>, x: MemberV)
    ensures
        0 <= place_for(s, x) <= s.len(),
        place_for(s, x) > 0 ==> !precedes(x, s[place_for(s, x) - 1]),
        forall|i: int| place_for(s, x) <= i < s.len() ==> precedes(x, #[trigger] s[i]),
    decreases s.len(),
{
    if s.len() > 0 && precedes(x, s.last()) {
        lemma_place_for(s.drop_last(), x);
        assert forall|i: int| place_for(s, x) <= i < s.len() implies precedes(x, #[trigger] s[i]) by {
            if i < s.len() - 1 {
                assert(precedes(x, s.drop_last()[i]));
            }
        }
    }
}

proof fn lemma_arranged_len(s: Seq<MemberV>)
    ensures
        arranged(s).len() == s.len(),
    decreases s.len(),
{
    if s.len() > 0 {
        lemma_arranged_len(s.drop_last());
        lemma_place_for(arranged(s.drop_last()), s.last());
    }
}

/// Puts members in order.
pub fn arrange(v: Vec<ChirpMember>) -> (r: Vec<ChirpMember>)
    ensures
        members_of(r@) == arranged(members_of(v@)),
{
    let ghost all = members_of(v@);
    let mut rest = v;
    let mut queue: Vec<ChirpMember> = Vec::new();
    while rest.len() > 0
        invariant
            rest@.len() <= all.len(),
            members_of(rest@) == all.take(rest@.len() as int),
            queue@.len() == all.len() - rest@.len(),
            forall|i: int| 0 <= i < queue@.len() ==> (#[trigger] queue@[i])@ == all[all.len() - 1 - i],
        decreases rest@.len(),
    {
        let ghost before = rest@;
        match rest.pop() {
            Some(m) => {
                proof {
                    assert(m@ == members_of(before)[before.len() - 1]);
                    assert(members_of(rest@) =~= all.take(rest@.len() as int));
                }
                queue.push(m);
            },
            None => {},
        }
    }
    let mut out: Vec<ChirpMember> = Vec::new();
    let ghost mut n: int = 0;
    assert(members_of(out@) =~= arranged(all.take(0)));
    while queue.len() > 0
        invariant
            0 <= n <= all.len(),
            queue@.len() == all.len() - n,
            forall|i: int| 0 <= i < queue@.len() ==> (#[trigger] queue@[i])@ == all[all.len() - 1 - i],
            members_of(out@) == arranged(all.take(n)),
        decreases queue@.len(),
    {
        let ghost t = members_of(out@);
        match queue.pop() {
            Some(m) => {
                assert(m@ == all[n]);
                let mut i: usize = out.len();
                assert(t.take(i as int) =~= t);
                while i > 0 && comes_first(&m, &out[i - 1])
                    invariant
                        i <= out@.len(),
                        t == members_of(out@),
                        place_for(t, m@) == place_for(t.take(i as int), m@),
                    decreases i,
                {
                    assert(t.take(i as int).last() == out@[i - 1]@);
                    i = i - 1;
                    assert(t.take(i + 1).drop_last() =~= t.take(i as int));
                }
                if i > 0 {
                    assert(t.take(i as int).last() == out@[i - 1]@);
                }
                let ghost x = m@;
                out.insert(i, m);
                proof {
                    assert(members_of(out@) =~= t.insert(i as int, x));
                    assert(all.take(n + 1).drop_last() =~= all.take(n));
                    n = n + 1;
                }
            },
            None => {},
        }
    }
    assert(all.take(n) =~= all);
    out
}

/// Whether a list of members is free of what is not a number.
pub open spec fn all_numbers(s: Seq<MemberV>) -> bool {
    forall|i: int| 0 <= i < s.len() ==> !(#[trigger] s[i]).weight.nan() && !s[i].days.nan()
}

/// Law: putting the members in order loses and adds none.
pub proof fn law_arranging_keeps_the_members(s: Seq<MemberV>)
    ensures
        arranged(s).to_multiset() == s.to_multiset(),
    decreases s.len(),
{
    if s.len() > 0 {
        let t = arranged(s.drop_last());
        law_arranging_keeps_the_members(s.drop_last());
        lemma_place_for(t, s.last());
        to_multiset_insert(t, place_for(t, s.last()), s.last());
        vstd::seq_lib::to_multiset_build(s.drop_last(), s.last());
        assert(s.drop_last().push(s.last()) =~= s);
    }
}

proof fn lemma_arranged_numbers(s: Seq<MemberV>)
    requires
        all_numbers(s),
    ensures
        all_numbers(arranged(s)),
    decreases s.len(),
{
    if s.len() > 0 {
        let t = arranged(s.drop_last());
        let x = s.last();
        assert forall|i: int| 0 <= i < s.drop_last().len() implies !(#[trigger] s.drop_last()[i]).weight.nan()
            && !s.drop_last()[i].days.nan() by {
            assert(!s[i].weight.nan());
        }
        lemma_arranged_numbers(s.drop_last());
        lemma_place_for(t, x);
        let k = place_for(t, x);
        let u = t.insert(k, x);
        assert(!s[s.len() - 1].weight.nan());
        assert forall|i: int| 0 <= i < u.len() implies !(#[trigger] u[i]).weight.nan() && !u[i].days.nan() by {
            if i < k {
                assert(u[i] == t[i]);
            } else if i > k {
                assert(u[i] == t[i - 1]);
            }
        }
    }
}

/// Law: the members stand in order: the eligible by weight, then the rest by
/// tenure. No one stands before someone that it should follow.
pub proof fn law_members_stand_in_order(s: Seq<MemberV>, i: int, j: int)
    requires
        all_numbers(s),
        0 <= i < j < s.len(),
    ensures
        !precedes(arranged(s)[j], arranged(s)[i]),
    decreases s.len(),
{
    let d = s.drop_last();
    let x = s.last();
    assert forall|n: int| 0 <= n < d.len() implies !(#[trigger] d[n]).weight.nan() && !d[n].days.nan() by {
        assert(!s[n].weight.nan());
    }
    assert(!s[s.len() - 1].weight.nan());
    let t = arranged(d);
    lemma_arranged_len(d);
    lemma_arranged_numbers(d);
    lemma_place_for(t, x);
    let k = place_for(t, x);
    let u = arranged(s);
    assert(u == t.insert(k, x));
    if i == k {
        assert(u[j] == t[j - 1]);
        assert(precedes(x, t[j - 1]));
    } else if j == k {
        assert(u[i] == t[i]);
        assert(!precedes(x, t[k - 1]));
        if i < k - 1 {
            law_members_stand_in_order(d, i, k - 1);
            assert(!t[i].weight.nan() && !t[k - 1].weight.nan());
        }
    } else {
        let a = if i < k { i } else { i - 1 };
        let b = if j < k { j } else { j - 1 };
        assert(u[i] == t[a] && u[j] == t[b]);
        law_members_stand_in_order(d, a, b);
    }
}

// -------------------------------------------------------------------- info

/// What the pool says of the syndicate.
#[derive(Debug)]
pub struct ChirpInfo {
    /// In order.
    pub members: Vec<ChirpMember>,
    pub candidates: u64,
    pub workers: u64,
    pub blocks: u64,
    pub hashrate_ths: Double,
    pub min_days: Double,
    pub min_power: Double,
    pub reward_sats: u64,
    pub height: u64,
    pub fee_bps: u64,
    /// When it was read, in seconds since 1970.
    pub fetched: u64,
}

/// The syndicate by what is known of it.
pub struct ChirpInfoV {
    pub members: Seq<MemberV>,
    pub candidates: u64,
    pub workers: u64,
    pub blocks: u64,
    pub hashrate_ths: Double,
    pub min_days: Double,
    pub min_power: Double,
    pub reward_sats: u64,
    pub height: u64,
    pub fee_bps: u64,
    pub fetched: u64,
}

impl View for ChirpInfo {
    type V = ChirpInfoV;

    open spec fn view(&self) -> ChirpInfoV {
        ChirpInfoV {
            members: members_of(self.members@),
            candidates: self.candidates,
            workers: self.workers,
            blocks: self.blocks,
            hashrate_ths: self.hashrate_ths,
            min_days: self.min_days,
            min_power: self.min_power,
            reward_sats: self.reward_sats,
            height: self.height,
            fee_bps: self.fee_bps,
            fetched: self.fetched,
        }
    }
}

/// How many members are eligible.
pub open spec fn eligible_count(s: Seq<MemberV>) -> nat
    decreases s.len(),
{
    if s.len() == 0 {
        0
    } else {
        eligible_count(s.drop_last()) + if s.last().eligible { 1nat } else { 0 }
    }
}

/// The syndicate before the pool's own numbers are known: a week's tenure is
/// asked for, and nothing else is said.
pub open spec fn bare_info(members: Seq<MemberV>, now: u64) -> ChirpInfoV {
    ChirpInfoV {
        members,
        candidates: 0,
        workers: 0,
        blocks: 0,
        hashrate_ths: zero(),
        min_days: seven(),
        min_power: zero(),
        reward_sats: 0,
        height: 0,
        fee_bps: 0,
        fetched: now,
    }
}

/// With the pool's numbers; without them the eligible members are counted.
pub open spec fn with_pool(i: ChirpInfoV, pool: Option<JsonV>) -> ChirpInfoV {
    match pool {
        Some(p) => ChirpInfoV {
            candidates: uint_or(p.field_uint("candidates"@), 0),
            workers: uint_or(p.field_uint("workers"@), 0),
            blocks: uint_or(p.field_uint("blocks"@), 0),
            hashrate_ths: double_or(p.field_double("hashrate"@), zero()),
            min_days: double_or(p.field_double("min_days"@), seven()),
            min_power: double_or(p.field_double("min_power"@), zero()),
            ..i
        },
        None => ChirpInfoV { candidates: eligible_count(i.members) as u64, ..i },
    }
}

/// With the last coinbase.
pub open spec fn with_coinbase(i: ChirpInfoV, coinbase: Option<JsonV>) -> ChirpInfoV {
    match coinbase {
        Some(c) => ChirpInfoV {
            reward_sats: uint_or(c.field_uint("reward_sats"@), 0),
            height: uint_or(c.field_uint("height"@), 0),
            fee_bps: uint_or(c.field_uint("fee_bps"@), 90),
            ..i
        },
        None => i,
    }
}

/// What a reply says, if one came and is JSON.
pub open spec fn reply(text: Option<Vec<u8>>) -> Option<JsonV> {
    match text {
        Some(t) => json_value(t@),
        None => None,
    }
}

/// Reads a reply.
pub fn read_reply(text: &Option<Vec<u8>>) -> (r: Option<Json>)
    ensures
        match r {
            Some(j) => reply(*text) == Some(j@),
            None => reply(*text) is None,
        },
{
    match text {
        Some(t) => parse_json(t.as_slice()),
        None => None,
    }
}

/// The members that a tree lists, in order; nothing where it is no list.
pub open spec fn listed_members(v: JsonV) -> Option<Seq<MemberV>> {
    match v.list() {
        Some(l) => Some(arranged(Seq::new(l.len(), |i: int| member_of(l[i])))),
        None => None,
    }
}

/// Reads the members that a tree lists.
pub fn members_from(v: &Json) -> (r: Option<Vec<ChirpMember>>)
    ensures
        match r {
            Some(m) => listed_members(v@) == Some(members_of(m@)),
            None => listed_members(v@) is None,
        },
{
    match v {
        Json::List(l) => {
            let mut out: Vec<ChirpMember> = Vec::new();
            let mut i: usize = 0;
            while i < l.len()
                invariant
                    i <= l@.len(),
                    out@.len() == i,
                    forall|j: int| 0 <= j < i ==> (#[trigger] out@[j])@ == member_of(l@[j]@),
                decreases l@.len() - i,
            {
                out.push(read_member(&l[i]));
                i = i + 1;
            }
            proof {
                let t = v@->List_0;
                assert(members_of(out@) =~= Seq::new(t.len(), |i: int| member_of(t[i])));
            }
            Some(arrange(out))
        },
        _ => None,
    }
}

/// The members that the pool's reply lists.
pub open spec fn members_in(text: Option<Vec<u8>>) -> Option<Seq<MemberV>> {
    match reply(text) {
        Some(v) => listed_members(v),
        None => None,
    }
}

/// Reads the members from the pool's reply.
pub fn read_members(text: &Option<Vec<u8>>) -> (r: Option<Vec<ChirpMember>>)
    ensures
        match r {
            Some(m) => members_in(*text) == Some(members_of(m@)),
            None => members_in(*text) is None,
        },
{
    match read_reply(text) {
        Some(v) => members_from(&v),
        None => None,
    }
}

fn count_eligible(v: &Vec<ChirpMember>) -> (r: u64)
    ensures
        r == eligible_count(members_of(v@)) as u64,
        eligible_count(members_of(v@)) <= v@.len(),
{
    let ghost all = members_of(v@);
    let mut n: u64 = 0;
    let mut i: usize = 0;
    assert(all.take(0).len() == 0);
    while i < v.len()
        invariant
            i <= v@.len(),
            all == members_of(v@),
            n == eligible_count(all.take(i as int)),
            n <= i,
        decreases v@.len() - i,
    {
        assert(all.take(i + 1).drop_last() =~= all.take(i as int));
        if v[i].eligible {
            n = n + 1;
        }
        i = i + 1;
    }
    assert(all.take(i as int) =~= all);
    n
}

/// Puts together what the pool says of the syndicate.
pub fn info_from(
    members: Vec<ChirpMember>,
    pool: &Option<Json>,
    coinbase: &Option<Json>,
    now: u64,
) -> (r: ChirpInfo)
    ensures
        r@ == with_coinbase(
            with_pool(
                bare_info(members_of(members@), now),
                match pool {
                    Some(p) => Some(p@),
                    None => None,
                },
            ),
            match coinbase {
                Some(c) => Some(c@),
                None => None,
            },
        ),
{
    let none = Double { bits: 0 };
    let week = Double { bits: 0x401c_0000_0000_0000 };
    let mut i = ChirpInfo {
        members,
        candidates: 0,
        workers: 0,
        blocks: 0,
        hashrate_ths: none,
        min_days: week,
        min_power: none,
        reward_sats: 0,
        height: 0,
        fee_bps: 0,
        fetched: now,
    };
    match pool {
        Some(p) => {
            i.candidates = count_or(p.field_u64("candidates"), 0);
            i.workers = count_or(p.field_u64("workers"), 0);
            i.blocks = count_or(p.field_u64("blocks"), 0);
            i.hashrate_ths = number_or(p.field_as_double("hashrate"), none);
            i.min_days = number_or(p.field_as_double("min_days"), week);
            i.min_power = number_or(p.field_as_double("min_power"), none);
        },
        None => {
            i.candidates = count_eligible(&i.members);
        },
    }
    match coinbase {
        Some(c) => {
            i.reward_sats = count_or(c.field_u64("reward_sats"), 0);
            i.height = count_or(c.field_u64("height"), 0);
            i.fee_bps = count_or(c.field_u64("fee_bps"), 90);
        },
        None => {},
    }
    i
}

/// Reads what the pool says of the syndicate.
pub fn read_info(
    members: Vec<ChirpMember>,
    pool: &Option<Vec<u8>>,
    coinbase: &Option<Vec<u8>>,
    now: u64,
) -> (r: ChirpInfo)
    ensures
        r@ == with_coinbase(
            with_pool(bare_info(members_of(members@), now), reply(*pool)),
            reply(*coinbase),
        ),
{
    let p = read_reply(pool);
    let c = read_reply(coinbase);
    info_from(members, &p, &c, now)
}

/// Where an address stands in a list of members: its first place, or -1. The
/// empty address stands nowhere.
pub open spec fn place_of_addr(s: Seq<MemberV>, addr: Seq<char>) -> int
    decreases s.len(),
{
    if s.len() == 0 || addr.len() == 0 {
        -1
    } else if place_of_addr(s.drop_last(), addr) >= 0 {
        place_of_addr(s.drop_last(), addr)
    } else if s.last().addr == addr {
        s.len() - 1
    } else {
        -1
    }
}

impl ChirpInfo {
    /// The member with an address.
    pub fn me(&self, addr: &str) -> (r: Option<&ChirpMember>)
        ensures
            match r {
                Some(m) => place_of_addr(self@.members, addr@) >= 0 && m@ == self@.members[place_of_addr(
                    self@.members,
                    addr@,
                )],
                None => place_of_addr(self@.members, addr@) == -1,
            },
    {
        let ghost all = self@.members;
        if crate::text::chars_of(addr).len() == 0 {
            return None;
        }
        let mut i: usize = 0;
        assert(all.take(0).len() == 0);
        while i < self.members.len()
            invariant
                i <= self.members@.len(),
                all == members_of(self.members@),
                addr@.len() > 0,
                place_of_addr(all.take(i as int), addr@) == -1,
            decreases self.members@.len() - i,
        {
            assert(all.take(i + 1).drop_last() =~= all.take(i as int));
            if same(self.members[i].addr.as_str(), addr) {
                proof {
                    lemma_first_place(all, addr@, i as int);
                }
                return Some(&self.members[i]);
            }
            i = i + 1;
        }
        assert(all.take(i as int) =~= all);
        None
    }

    /// The weights that count: those of the eligible members, in order.
    pub fn eligible_weights(&self) -> (r: Vec<Double>)
        ensures
            r@ == weights_of(self@.members),
    {
        let ghost all = self@.members;
        let mut r: Vec<Double> = Vec::new();
        let mut i: usize = 0;
        assert(all.take(0).len() == 0);
        while i < self.members.len()
            invariant
                i <= self.members@.len(),
                all == members_of(self.members@),
                r@ == weights_of(all.take(i as int)),
            decreases self.members@.len() - i,
        {
            assert(all.take(i + 1).drop_last() =~= all.take(i as int));
            if self.members[i].eligible {
                r.push(self.members[i].weight);
            }
            i = i + 1;
        }
        assert(all.take(i as int) =~= all);
        r
    }

    /// The weight that an address takes part in the draw with; nothing where it
    /// is not eligible.
    pub fn my_weight(&self, addr: &str) -> (r: Option<Double>)
        ensures
            r == weight_in_draw(self@.members, addr@),
    {
        match self.me(addr) {
            Some(m) => if m.eligible { Some(m.weight) } else { None },
            None => None,
        }
    }
}

/// The weights of the eligible members.
pub open spec fn weights_of(s: Seq<MemberV>) -> Seq<Double>
    decreases s.len(),
{
    if s.len() == 0 {
        Seq::empty()
    } else if s.last().eligible {
        weights_of(s.drop_last()).push(s.last().weight)
    } else {
        weights_of(s.drop_last())
    }
}

/// The weight that an address takes part in the draw with.
pub open spec fn weight_in_draw(s: Seq<MemberV>, addr: Seq<char>) -> Option<Double> {
    let i = place_of_addr(s, addr);
    if i >= 0 && s[i].eligible { Some(s[i].weight) } else { None }
}

proof fn lemma_first_place(s: Seq<MemberV>, addr: Seq<char>, i: int)
    requires
        0 <= i < s.len(),
        addr.len() > 0,
        s[i].addr == addr,
        place_of_addr(s.take(i), addr) == -1,
    ensures
        place_of_addr(s, addr) == i,
    decreases s.len(),
{
    if i == s.len() - 1 {
        assert(s.take(i) =~= s.drop_last());
    } else {
        let d = s.drop_last();
        assert(d.take(i) =~= s.take(i));
        lemma_first_place(d, addr, i);
    }
}

/// Law: whoever takes part in the draw has a weight that counts.
pub proof fn law_drawn_weights_count(s: Seq<MemberV>, addr: Seq<char>)
    ensures
        weight_in_draw(s, addr) is Some ==> weights_of(s).contains(weight_in_draw(s, addr)->0),
    decreases s.len(),
{
    if s.len() > 0 && weight_in_draw(s, addr) is Some {
        let d = s.drop_last();
        let w = weights_of(s);
        if place_of_addr(d, addr) >= 0 {
            law_drawn_weights_count(d, addr);
            lemma_place_bound(d, addr);
            let v = weights_of(d);
            let k = choose|k: int| 0 <= k < v.len() && v[k] == weight_in_draw(s, addr)->0;
            assert(w[k] == v[k]);
        } else {
            assert(w[w.len() - 1] == s.last().weight);
        }
    }
}

proof fn lemma_place_bound(s: Seq<MemberV>, addr: Seq<char>)
    ensures
        -1 <= place_of_addr(s, addr) < s.len(),
    decreases s.len(),
{
    if s.len() > 0 {
        lemma_place_bound(s.drop_last(), addr);
    }
}

// ------------------------------------------------------------------ standing

/// Where the user stands with the syndicate.
#[derive(Clone, Copy, Debug, PartialEq, Eq, Structural)]
pub struct Standing {
    pub listed: bool,
    pub eligible: bool,
    /// Listed, and without a share for more than an hour.
    pub stale: bool,
}

/// How long ago something was, in seconds; not at all if it lies ahead.
pub open spec fn age(seen: u64, now: u64) -> int {
    if now >= seen { now - seen } else { 0 }
}

/// How long ago something was, in seconds.
pub fn age_of(seen: u64, now: u64) -> (r: u64)
    ensures
        r == age(seen, now),
{
    if now >= seen { now - seen } else { 0 }
}

/// Where an address stands.
pub open spec fn standing(s: Seq<MemberV>, addr: Seq<char>, now: u64) -> Standing {
    let i = place_of_addr(s, addr);
    if i >= 0 {
        Standing { listed: true, eligible: s[i].eligible, stale: age(s[i].last_seen, now) > 3600 }
    } else {
        Standing { listed: false, eligible: false, stale: false }
    }
}

/// What has changed for the user since the last look.
#[derive(Clone, Copy, Debug, PartialEq, Eq, Structural)]
pub enum Change {
    InTheDraw,
    OnTheList,
    Dropped,
    EligibilityLost,
    FallingOut,
}

/// What has changed between two looks. The first look changes nothing.
pub open spec fn change(prev: Option<Standing>, cur: Standing) -> Option<Change> {
    match prev {
        Some(p) => if p == cur {
            None
        } else if !p.eligible && cur.listed && cur.eligible {
            Some(Change::InTheDraw)
        } else if !p.listed && cur.listed && !cur.eligible {
            Some(Change::OnTheList)
        } else if p.listed && !cur.listed {
            Some(Change::Dropped)
        } else if p.eligible && cur.listed && !cur.eligible {
            Some(Change::EligibilityLost)
        } else if !p.stale && cur.listed && cur.stale {
            Some(Change::FallingOut)
        } else {
            None
        },
        None => None,
    }
}

/// The numbers in the alerts, as shown to the user: the share of a block in
/// percent, the tenure, and the tenure that is asked for, both in days.
pub struct Shown<'a> {
    pub pct: &'a str,
    pub days: &'a str,
    pub min_days: &'a str,
}

/// After the user was told of a change.
pub open spec fn told(st: StatsV, c: Option<Change>, shown: Shown) -> StatsV {
    match c {
        Some(Change::InTheDraw) => st.alerted(
            "CHIRP · you're IN the coinbase draw"@,
            "your slice of every block: "@ + shown.pct@ + "%"@,
        ),
        Some(Change::OnTheList) => st.alerted(
            "CHIRP · you're on the list"@,
            shown.days@ + " of "@ + shown.min_days@ + " days to the coinbase draw — keep mining"@,
        ),
        Some(Change::Dropped) => st.alerted(
            "CHIRP · dropped off the list"@,
            "the pool no longer lists your address — reconnect and mine to re-enter"@,
        ),
        Some(Change::EligibilityLost) => st.alerted(
            "CHIRP · eligibility lost"@,
            "tenure "@ + shown.days@ + " d · check your power / connection"@,
        ),
        Some(Change::FallingOut) => st.alerted(
            "CHIRP · falling out"@,
            "no shares from you for 1h+ — you drop off the list 24h after your last share"@,
        ),
        None => st,
    }
}

impl ChirpInfo {
    /// Where an address stands.
    pub fn standing(&self, addr: &str, now: u64) -> (r: Standing)
        ensures
            r == standing(self@.members, addr@, now),
    {
        match self.me(addr) {
            Some(m) => Standing { listed: true, eligible: m.eligible, stale: age_of(m.last_seen, now) > 3600 },
            None => Standing { listed: false, eligible: false, stale: false },
        }
    }
}

/// Tells what has changed between two looks.
pub fn changed(prev: Option<Standing>, cur: Standing) -> (r: Option<Change>)
    ensures
        r == change(prev, cur),
{
    match prev {
        Some(p) => if p == cur {
            None
        } else if !p.eligible && cur.listed && cur.eligible {
            Some(Change::InTheDraw)
        } else if !p.listed && cur.listed && !cur.eligible {
            Some(Change::OnTheList)
        } else if p.listed && !cur.listed {
            Some(Change::Dropped)
        } else if p.eligible && cur.listed && !cur.eligible {
            Some(Change::EligibilityLost)
        } else if !p.stale && cur.listed && cur.stale {
            Some(Change::FallingOut)
        } else {
            None
        },
        None => None,
    }
}

/// Tells the user of a change.
pub fn tell(stats: &mut Stats, c: Option<Change>, shown: Shown)
    ensures
        final(stats)@ == told(old(stats)@, c, shown),
{
    match c {
        Some(Change::InTheDraw) => {
            let mut body = "your slice of every block: ".to_owned();
            body.append(shown.pct);
            body.append("%");
            stats.alert("CHIRP · you're IN the coinbase draw", body.as_str());
        },
        Some(Change::OnTheList) => {
            let mut body = shown.days.to_owned();
            body.append(" of ");
            body.append(shown.min_days);
            body.append(" days to the coinbase draw — keep mining");
            stats.alert("CHIRP · you're on the list", body.as_str());
        },
        Some(Change::Dropped) => {
            stats.alert(
                "CHIRP · dropped off the list",
                "the pool no longer lists your address — reconnect and mine to re-enter",
            );
        },
        Some(Change::EligibilityLost) => {
            let mut body = "tenure ".to_owned();
            body.append(shown.days);
            body.append(" d · check your power / connection");
            stats.alert("CHIRP · eligibility lost", body.as_str());
        },
        Some(Change::FallingOut) => {
            stats.alert(
                "CHIRP · falling out",
                "no shares from you for 1h+ — you drop off the list 24h after your last share",
            );
        },
        None => {},
    }
}

/// Law: the user is told when they enter the draw, whatever happened before,
/// and when they leave it; nothing is said while nothing changes.
pub proof fn law_entering_and_leaving_is_told(p: Standing, cur: Standing)
    requires
        cur.eligible ==> cur.listed,
        p.eligible ==> p.listed,
    ensures
        !p.eligible && cur.eligible ==> change(Some(p), cur) == Some(Change::InTheDraw),
        p.eligible && !cur.eligible ==> change(Some(p), cur) == Some(Change::Dropped) || change(Some(p), cur) == Some(
            Change::EligibilityLost,
        ),
        p == cur ==> change(Some(p), cur) is None,
{
}

// -------------------------------------------------------------------- status

/// How a member is doing.
#[derive(Clone, Copy, Debug, PartialEq, Eq, Structural)]
pub enum Status {
    /// Its tenure is too short.
    Waiting,
    /// Its power is too low.
    Weak,
    /// Not eligible for another reason.
    Pending,
    /// Will be dropped in so many hours.
    Dropping(u64),
    /// Without a share for so many seconds.
    Offline(u64),
    Eligible,
}

/// How a member is doing.
pub open spec fn status_of(m: MemberV, min_days: Double, min_power: Double, now: u64) -> Status {
    let a = age(m.last_seen, now);
    if !m.eligible {
        if m.days.spec_below(min_days) {
            Status::Waiting
        } else if m.power.spec_below(min_power) {
            Status::Weak
        } else {
            Status::Pending
        }
    } else if a > 20 * 3600 {
        Status::Dropping(if a / 3600 >= 24 { 0 } else { (24 - a / 3600) as u64 })
    } else if a > 3600 {
        Status::Offline(a as u64)
    } else {
        Status::Eligible
    }
}

impl ChirpMember {
    /// How the member is doing.
    pub fn status(&self, min_days: Double, min_power: Double, now: u64) -> (r: Status)
        ensures
            r == status_of(self@, min_days, min_power, now),
    {
        let a: u64 = age_of(self.last_seen, now);
        if !self.eligible {
            if self.days.below(min_days) {
                Status::Waiting
            } else if self.power.below(min_power) {
                Status::Weak
            } else {
                Status::Pending
            }
        } else if a > 20 * 3600 {
            Status::Dropping(if a / 3600 >= 24 { 0 } else { 24 - a / 3600 })
        } else if a > 3600 {
            Status::Offline(a)
        } else {
            Status::Eligible
        }
    }
}

// --------------------------------------------------------------------- laws

/// Law: a member's numbers are those that the pool gives, and 0 where it gives
/// none; it is eligible only where the pool says so in so many words.
pub proof fn law_members_are_read_as_given(m: JsonV)
    ensures
        m.field("days"@) is Some && m.field("days"@)->0 is Real ==> member_of(m).days == m.field("days"@)->0->Real_0,
        m.field("power"@) is Some && m.field("power"@)->0 is Real ==> member_of(m).power == m.field(
            "power"@,
        )->0->Real_0,
        m.field("weight"@) is Some && m.field("weight"@)->0 is Real ==> member_of(m).weight == m.field(
            "weight"@,
        )->0->Real_0,
        m.field("days"@) is None ==> member_of(m).days.bits == 0,
        m.field("power"@) is None ==> member_of(m).power.bits == 0,
        m.field("weight"@) is None ==> member_of(m).weight.bits == 0,
        member_of(m).eligible <==> m.field("eligible"@) == Some(JsonV::Bool(true)),
        m.field("last_seen"@) is Some && m.field("last_seen"@)->0 is Uint ==> member_of(m).last_seen == m.field(
            "last_seen"@,
        )->0->Uint_0,
        m.field("last_seen"@) is None ==> member_of(m).last_seen == 0,
        m.field("address"@) is Some && m.field("address"@)->0 is Text ==> member_of(m).addr == address_text(
            m.field("address"@)->0->Text_0,
        ),
        m.field("address"@) is None ==> member_of(m).addr.len() == 0,
{
    if m.field("address"@) is None {
        crate::label::law_plain_names_stay(Seq::empty());
    }
}

/// Law: every miner that the pool lists is a member, once for each time it is
/// listed.
pub proof fn law_every_listed_miner_is_a_member(l: Seq<JsonV>, i: int)
    requires
        0 <= i < l.len(),
    ensures
        listed_members(JsonV::List(l)) is Some,
        listed_members(JsonV::List(l))->0.len() == l.len(),
        listed_members(JsonV::List(l))->0.contains(member_of(l[i])),
        listed_members(JsonV::List(l))->0.to_multiset() == Seq::new(l.len(), |k: int| member_of(l[k])).to_multiset(),
{
    let s = Seq::new(l.len(), |k: int| member_of(l[k]));
    let r = listed_members(JsonV::List(l))->0;
    law_arranging_keeps_the_members(s);
    lemma_arranged_len(s);
    assert(s[i] == member_of(l[i]));
    assert(s.contains(s[i]));
    s.to_multiset_ensures();
    r.to_multiset_ensures();
    assert(s.to_multiset().count(s[i]) > 0);
    assert(r.to_multiset().count(s[i]) > 0);
}

/// Law: the eligible stand first. Among them no one stands behind a lighter
/// one, nor, of equal weight, behind one with a shorter tenure; among the rest
/// no one stands behind one with a shorter tenure.
pub proof fn law_eligible_members_stand_first(s: Seq<MemberV>, i: int, j: int)
    requires
        all_numbers(s),
        0 <= i < j < s.len(),
    ensures
        ({
            let (a, b) = (arranged(s)[i], arranged(s)[j]);
            &&& b.eligible ==> a.eligible
            &&& a.eligible && b.eligible ==> a.weight.units() >= b.weight.units()
            &&& a.eligible && b.eligible && a.weight.units() == b.weight.units() ==> a.days.units() >= b.days.units()
            &&& !a.eligible && !b.eligible ==> a.days.units() >= b.days.units()
            &&& !a.eligible && !b.eligible && a.days.units() == b.days.units() ==> a.weight.units()
                >= b.weight.units()
        }),
{
    law_members_stand_in_order(s, i, j);
    lemma_arranged_numbers(s);
    lemma_arranged_len(s);
    assert(!arranged(s)[i].weight.nan() && !arranged(s)[j].weight.nan());
}

/// Law: an address stands at its first place in the list; one that is not
/// listed, and the empty one, stand nowhere.
pub proof fn law_addresses_are_found(s: Seq<MemberV>, addr: Seq<char>)
    ensures
        -1 <= place_of_addr(s, addr) < s.len(),
        place_of_addr(s, addr) >= 0 ==> addr.len() > 0 && s[place_of_addr(s, addr)].addr == addr,
        addr.len() > 0 ==> forall|i: int|
            0 <= i < s.len() && (place_of_addr(s, addr) < 0 || i < place_of_addr(s, addr)) ==> (#[trigger] s[i]).addr
                != addr,
    decreases s.len(),
{
    if s.len() > 0 && addr.len() > 0 {
        let d = s.drop_last();
        law_addresses_are_found(d, addr);
        let k = place_of_addr(s, addr);
        assert forall|i: int| 0 <= i < s.len() && (k < 0 || i < k) implies (#[trigger] s[i]).addr != addr by {
            if i < d.len() {
                assert(d[i].addr != addr);
            }
        }
    }
}

/// Law: the user is listed exactly where a member has their address; eligible
/// as that member is; and stale where its last share is over an hour old.
pub proof fn law_standing_is_the_members(s: Seq<MemberV>, addr: Seq<char>, now: u64, i: int)
    requires
        addr.len() > 0,
        0 <= i < s.len(),
        s[i].addr == addr,
        forall|k: int| 0 <= k < i ==> (#[trigger] s[k]).addr != addr,
    ensures
        standing(s, addr, now).listed,
        standing(s, addr, now).eligible == s[i].eligible,
        standing(s, addr, now).stale <==> s[i].last_seen <= now && now - s[i].last_seen > 3600,
{
    law_addresses_are_found(s, addr);
}

/// Law: whoever is not listed is neither eligible nor stale.
pub proof fn law_strangers_have_no_standing(s: Seq<MemberV>, addr: Seq<char>, now: u64)
    requires
        addr.len() == 0 || forall|k: int| 0 <= k < s.len() ==> (#[trigger] s[k]).addr != addr,
    ensures
        !standing(s, addr, now).listed,
        !standing(s, addr, now).eligible,
        !standing(s, addr, now).stale,
{
    law_addresses_are_found(s, addr);
}

/// Law: each change of standing is told for what it is.
pub proof fn law_changes_are_told_apart(p: Standing, cur: Standing)
    requires
        cur.eligible ==> cur.listed,
        p.eligible ==> p.listed,
        cur.stale ==> cur.listed,
        p.stale ==> p.listed,
    ensures
        change(Some(p), cur) == Some(Change::InTheDraw) <==> !p.eligible && cur.eligible,
        change(Some(p), cur) == Some(Change::OnTheList) <==> !p.listed && cur.listed && !cur.eligible,
        change(Some(p), cur) == Some(Change::Dropped) <==> p.listed && !cur.listed,
        change(Some(p), cur) == Some(Change::EligibilityLost) <==> p.eligible && cur.listed && !cur.eligible,
        change(Some(p), cur) == Some(Change::FallingOut) <==> p.listed && cur.listed && p.eligible == cur.eligible
            && !p.stale && cur.stale,
        change(None, cur) is None,
{
}

/// Law: every change is told with one alert under its own title, and nothing
/// is told where nothing changed.
pub proof fn law_changes_are_alerts(st: StatsV, c: Option<Change>, shown: Shown)
    ensures
        c is None ==> told(st, c, shown) == st,
        c is Some ==> told(st, c, shown).outbox.len() == st.outbox.len() + 1,
        c == Some(Change::InTheDraw) ==> told(st, c, shown).outbox.last().title == "CHIRP · you're IN the coinbase draw"@,
        c == Some(Change::OnTheList) ==> told(st, c, shown).outbox.last().title == "CHIRP · you're on the list"@,
        c == Some(Change::Dropped) ==> told(st, c, shown).outbox.last().title == "CHIRP · dropped off the list"@,
        c == Some(Change::EligibilityLost) ==> told(st, c, shown).outbox.last().title == "CHIRP · eligibility lost"@,
        c == Some(Change::FallingOut) ==> told(st, c, shown).outbox.last().title == "CHIRP · falling out"@,
        c == Some(Change::InTheDraw) ==> told(st, c, shown).outbox.last().body == "your slice of every block: "@
            + shown.pct@ + "%"@,
        told(st, c, shown).accepted == st.accepted && told(st, c, shown).blocks == st.blocks,
{
}

/// Law: how a member is doing. An eligible one without a share for an hour is
/// offline, after 20 hours it will be dropped, 24 hours after its last share;
/// another one lacks tenure, else power, else only waits.
pub proof fn law_members_status(m: MemberV, min_days: Double, min_power: Double, now: u64)
    ensures
        ({
            let age: int = if m.last_seen <= now { now - m.last_seen } else { 0 };
            let s = status_of(m, min_days, min_power, now);
            &&& m.eligible && age <= 3600 ==> s == Status::Eligible
            &&& m.eligible && 3600 < age <= 72_000 ==> s == Status::Offline(age as u64)
            &&& m.eligible && 72_000 < age < 86_400 ==> s is Dropping && s->Dropping_0 == 24 - age / 3600
            &&& m.eligible && age >= 86_400 ==> s == Status::Dropping(0)
            &&& !m.eligible && !m.days.nan() && !min_days.nan() && m.days.units() < min_days.units() ==> s
                == Status::Waiting
            &&& !m.eligible && !m.days.nan() && !min_days.nan() && m.days.units() >= min_days.units() && !m.power.nan()
                && !min_power.nan() ==> s == if m.power.units() < min_power.units() {
                Status::Weak
            } else {
                Status::Pending
            }
        }),
{
}

/// Law: the weights that count are those of the eligible members, in order, and
/// as many as there are eligible members.
pub proof fn law_eligible_weights_count(s: Seq<MemberV>, m: MemberV)
    ensures
        weights_of(Seq::empty()).len() == 0,
        weights_of(s).len() == eligible_count(s),
        m.eligible ==> weights_of(s.push(m)) == weights_of(s).push(m.weight) && eligible_count(s.push(m))
            == eligible_count(s) + 1,
        !m.eligible ==> weights_of(s.push(m)) == weights_of(s) && eligible_count(s.push(m)) == eligible_count(s),
    decreases s.len(),
{
    assert(s.push(m).drop_last() =~= s);
    if s.len() > 0 {
        law_eligible_weights_count(s.drop_last(), s.last());
        assert(s.drop_last().push(s.last()) =~= s);
    }
}

/// Law: the syndicate's numbers are those of the pool's replies. Without them
/// the eligible members are counted, and a tenure of seven days is asked for.
pub proof fn law_syndicate_is_read_as_given(i: ChirpInfoV, pool: JsonV, coinbase: JsonV, now: u64)
    ensures
        ({
            let a = with_pool(i, Some(pool));
            &&& a.candidates == match pool.field("candidates"@) {
                Some(JsonV::Uint(n)) => n,
                _ => 0,
            }
            &&& a.workers == match pool.field("workers"@) {
                Some(JsonV::Uint(n)) => n,
                _ => 0,
            }
            &&& a.blocks == match pool.field("blocks"@) {
                Some(JsonV::Uint(n)) => n,
                _ => 0,
            }
            &&& pool.field("hashrate"@) is Some && pool.field("hashrate"@)->0 is Real ==> a.hashrate_ths
                == pool.field("hashrate"@)->0->Real_0
            &&& pool.field("min_days"@) is Some && pool.field("min_days"@)->0 is Real ==> a.min_days == pool.field(
                "min_days"@,
            )->0->Real_0
            &&& pool.field("min_power"@) is Some && pool.field("min_power"@)->0 is Real ==> a.min_power
                == pool.field("min_power"@)->0->Real_0
            &&& a.members == i.members && a.fetched == i.fetched && a.reward_sats == i.reward_sats && a.height
                == i.height && a.fee_bps == i.fee_bps
        }),
        ({
            let b = with_coinbase(i, Some(coinbase));
            &&& b.reward_sats == match coinbase.field("reward_sats"@) {
                Some(JsonV::Uint(n)) => n,
                _ => 0,
            }
            &&& b.height == match coinbase.field("height"@) {
                Some(JsonV::Uint(n)) => n,
                _ => 0,
            }
            &&& b.fee_bps == match coinbase.field("fee_bps"@) {
                Some(JsonV::Uint(n)) => n,
                _ => 90,
            }
            &&& b.members == i.members && b.candidates == i.candidates && b.workers == i.workers && b.blocks == i.blocks
                && b.hashrate_ths == i.hashrate_ths && b.min_days == i.min_days && b.min_power == i.min_power
        }),
        eligible_count(i.members) <= u64::MAX ==> with_pool(i, None).candidates == eligible_count(i.members),
        with_coinbase(i, None) == i,
        bare_info(i.members, now).members == i.members,
        bare_info(i.members, now).min_days.bits == 0x401c_0000_0000_0000,
        bare_info(i.members, now).fetched == now,
{
}

/// Law: what no reply tells is zero.
pub proof fn law_unknown_numbers_are_zero(members: Seq<MemberV>, now: u64)
    ensures
        ({
            let i = bare_info(members, now);
            &&& i.candidates == 0 && i.workers == 0 && i.blocks == 0 && i.reward_sats == 0 && i.height == 0 && i.fee_bps
                == 0
            &&& i.hashrate_ths.bits == 0 && i.min_power.bits == 0
            &&& with_pool(i, None).workers == 0 && with_pool(i, None).blocks == 0
        }),
{
}

} // verus!
