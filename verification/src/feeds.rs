//! What the pool's other pages say: the CAROUSEL rotation, the network, the
//! balance, and newer versions.

use crate::chirp::{double_or, read_reply, reply, uint_or, zero};
use crate::config::VERSION;
use crate::double::Double;
use crate::json::{Json, JsonV};
use crate::label::{after, clean_label, control, is_newer, label, law_clean_label_is_printable, version};
use crate::stats::strings;
use crate::work::text_or_empty;
use vstd::prelude::*;

verus! {

// ---------------------------------------------------------------- carousel

/// The rotation of suppliers' templates.
#[derive(Debug)]
pub struct CarouselInfo {
    pub suppliers: Vec<String>,
    /// Whose template is mined now.
    pub current: String,
    /// Whose templates were mined, the newest last.
    pub recent: Vec<String>,
    pub miners: u64,
    /// In hashes per second.
    pub hashrate: Double,
    pub live: bool,
    /// When it was read, in seconds since 1970.
    pub fetched: u64,
}

/// The rotation by what is known of it.
pub struct CarouselV {
    pub suppliers: Seq<Seq<char>>,
    pub current: Seq<char>,
    pub recent: Seq<Seq<char>>,
    pub miners: u64,
    pub hashrate: Double,
    pub live: bool,
    pub fetched: u64,
}

impl View for CarouselInfo {
    type V = CarouselV;

    open spec fn view(&self) -> CarouselV {
        CarouselV {
            suppliers: strings(self.suppliers@),
            current: self.current@,
            recent: strings(self.recent@),
            miners: self.miners,
            hashrate: self.hashrate,
            live: self.live,
            fetched: self.fetched,
        }
    }
}

/// The name that an entry gives: the entry itself, or the first item of it.
pub open spec fn entry_name(e: JsonV) -> Option<Seq<char>> {
    match e.text() {
        Some(t) => Some(t),
        None => match e.item(0) {
            Some(f) => f.text(),
            None => None,
        },
    }
}

/// The names that entries give, cleaned up; entries without one are left out.
pub open spec fn names_in(l: Seq<JsonV>) -> Seq<Seq<char>>
    decreases l.len(),
{
    if l.len() == 0 {
        Seq::empty()
    } else {
        match entry_name(l.last()) {
            Some(t) => names_in(l.drop_last()).push(label(t)),
            None => names_in(l.drop_last()),
        }
    }
}

/// The names under a key.
pub open spec fn names_under(v: JsonV, key: Seq<char>) -> Seq<Seq<char>> {
    match v.field(key) {
        Some(x) => match x.list() {
            Some(l) => names_in(l),
            None => Seq::empty(),
        },
        None => Seq::empty(),
    }
}

/// The rotation as the pool describes it.
pub open spec fn carousel_of(v: JsonV, now: u64) -> CarouselV {
    CarouselV {
        suppliers: names_under(v, "suppliers"@),
        current: label(text_or_empty(v.field_text("current"@))),
        recent: names_under(v, "recent"@),
        miners: uint_or(v.field_uint("miners"@), 0),
        hashrate: double_or(v.field_double("hashrate"@), zero()),
        live: v.field_truth("live"@) == Some(true),
        fetched: now,
    }
}

/// Whether a name can be drawn: short, and without control characters.
pub open spec fn drawable(s: Seq<char>) -> bool {
    s.len() <= 40 && forall|i: int| 0 <= i < s.len() ==> !control(#[trigger] s[i])
}

/// Law: whatever third parties type, the rotation's names can be drawn.
pub proof fn law_rotation_can_be_drawn(v: JsonV, now: u64)
    ensures
        drawable(carousel_of(v, now).current),
        forall|i: int|
            0 <= i < carousel_of(v, now).suppliers.len() ==> drawable(#[trigger] carousel_of(v, now).suppliers[i]),
        forall|i: int|
            0 <= i < carousel_of(v, now).recent.len() ==> drawable(#[trigger] carousel_of(v, now).recent[i]),
{
    law_clean_label_is_printable(text_or_empty(v.field_text("current"@)));
    lemma_names_under_are_drawable(v, "suppliers"@);
    lemma_names_under_are_drawable(v, "recent"@);
}

proof fn lemma_names_under_are_drawable(v: JsonV, key: Seq<char>)
    ensures
        forall|i: int| 0 <= i < names_under(v, key).len() ==> drawable(#[trigger] names_under(v, key)[i]),
{
    match v.field(key) {
        Some(x) => match x.list() {
            Some(l) => lemma_names_are_drawable(l),
            None => {},
        },
        None => {},
    }
}

proof fn lemma_names_are_drawable(l: Seq<JsonV>)
    ensures
        forall|i: int| 0 <= i < names_in(l).len() ==> drawable(#[trigger] names_in(l)[i]),
    decreases l.len(),
{
    if l.len() > 0 {
        lemma_names_are_drawable(l.drop_last());
        match entry_name(l.last()) {
            Some(t) => {
                law_clean_label_is_printable(t);
                let before = names_in(l.drop_last());
                assert forall|i: int| 0 <= i < names_in(l).len() implies drawable(#[trigger] names_in(l)[i]) by {
                    if i < before.len() {
                        assert(names_in(l)[i] == before[i]);
                    }
                }
            },
            None => {},
        }
    }
}

fn read_name(e: &Json) -> (r: Option<String>)
    ensures
        match r {
            Some(s) => entry_name(e@) is Some && s@ == label(entry_name(e@)->0),
            None => entry_name(e@) is None,
        },
{
    match e.as_str() {
        Some(t) => Some(clean_label(t)),
        None => match e.at(0) {
            Some(f) => match f.as_str() {
                Some(t) => Some(clean_label(t)),
                None => None,
            },
            None => None,
        },
    }
}

fn read_names(v: &Json, key: &str) -> (r: Vec<String>)
    ensures
        strings(r@) == names_under(v@, key@),
{
    let mut r: Vec<String> = Vec::new();
    assert(strings(r@) =~= Seq::<Seq<char>>::empty());
    match v.get(key) {
        Some(x) => match x {
            Json::List(l) => {
                let ghost t = x@->List_0;
                let mut i: usize = 0;
                assert(t.take(0).len() == 0);
                while i < l.len()
                    invariant
                        i <= l@.len(),
                        t.len() == l@.len(),
                        forall|j: int| 0 <= j < l@.len() ==> #[trigger] t[j] == l@[j]@,
                        strings(r@) == names_in(t.take(i as int)),
                    decreases l@.len() - i,
                {
                    assert(t.take(i + 1).drop_last() =~= t.take(i as int));
                    assert(t.take(i + 1).last() == l@[i as int]@);
                    let ghost before = strings(r@);
                    match read_name(&l[i]) {
                        Some(s) => {
                            r.push(s);
                            assert(strings(r@) =~= before.push(s@));
                        },
                        None => {},
                    }
                    i = i + 1;
                }
                assert(t.take(i as int) =~= t);
            },
            _ => {},
        },
        None => {},
    }
    r
}

/// Reads the rotation from a tree.
pub fn carousel_from(v: &Json, now: u64) -> (r: CarouselInfo)
    ensures
        r@ == carousel_of(v@, now),
{
    let current = match v.field_str("current") {
        Some(t) => clean_label(t),
        None => {
            let e = String::new();
            assert(e@ =~= Seq::<char>::empty());
            clean_label(e.as_str())
        },
    };
    let miners: u64 = match v.field_u64("miners") {
        Some(n) => n,
        None => 0,
    };
    let hashrate = match v.field_as_double("hashrate") {
        Some(d) => d,
        None => Double { bits: 0 },
    };
    let live = match v.field_bool("live") {
        Some(b) => b,
        None => false,
    };
    CarouselInfo {
        suppliers: read_names(v, "suppliers"),
        current,
        recent: read_names(v, "recent"),
        miners,
        hashrate,
        live,
        fetched: now,
    }
}

/// Reads the rotation from the pool's reply.
pub fn read_carousel(text: &Option<Vec<u8>>, now: u64) -> (r: Option<CarouselInfo>)
    ensures
        match r {
            Some(c) => reply(*text) is Some && c@ == carousel_of(reply(*text)->0, now),
            None => reply(*text) is None,
        },
{
    match read_reply(text) {
        Some(v) => Some(carousel_from(&v, now)),
        None => None,
    }
}

// ----------------------------------------------------------------- network

/// What the pool says of a network.
#[derive(Debug)]
pub struct NetStats {
    pub miners: u64,
    /// In gigahashes per second.
    pub ghs: Double,
    pub height: u64,
    /// Whether the chain uses BLAKE2b, where that is known.
    pub blake2b_active: Option<bool>,
    pub activation_height: u64,
    pub blocks_until: u64,
    /// The newest version of the miner.
    pub latest: String,
}

/// A network by what is known of it.
pub struct NetStatsV {
    pub miners: u64,
    pub ghs: Double,
    pub height: u64,
    pub blake2b_active: Option<bool>,
    pub activation_height: u64,
    pub blocks_until: u64,
    pub latest: Seq<char>,
}

impl View for NetStats {
    type V = NetStatsV;

    open spec fn view(&self) -> NetStatsV {
        NetStatsV {
            miners: self.miners,
            ghs: self.ghs,
            height: self.height,
            blake2b_active: self.blake2b_active,
            activation_height: self.activation_height,
            blocks_until: self.blocks_until,
            latest: self.latest@,
        }
    }
}

/// A network as the pool describes it; nothing unless the pool says that it is
/// well.
pub open spec fn net_stats_of(v: JsonV) -> Option<NetStatsV> {
    if v.field_truth("ok"@) == Some(true) {
        Some(
            NetStatsV {
                miners: uint_or(v.field_uint("miners"@), 0),
                ghs: double_or(v.field_double("network_hashrate_ghs"@), zero()),
                height: uint_or(v.field_uint("block_height"@), 0),
                blake2b_active: v.field_truth("blake2b_active"@),
                activation_height: uint_or(v.field_uint("activation_height"@), 0),
                blocks_until: uint_or(v.field_uint("blocks_until_activation"@), 0),
                latest: text_or_empty(v.field_text("miner_latest"@)),
            },
        )
    } else {
        None
    }
}

fn is_ok(v: &Json) -> (r: bool)
    ensures
        r == (v@.field_truth("ok"@) == Some(true)),
{
    match v.field_bool("ok") {
        Some(b) => b,
        None => false,
    }
}

fn uint_at(v: &Json, key: &str) -> (r: u64)
    ensures
        r == uint_or(v@.field_uint(key@), 0),
{
    match v.field_u64(key) {
        Some(n) => n,
        None => 0,
    }
}

/// Reads a network's numbers from a tree.
pub fn net_stats_from(v: &Json) -> (r: Option<NetStats>)
    ensures
        match r {
            Some(n) => net_stats_of(v@) == Some(n@),
            None => net_stats_of(v@) is None,
        },
{
    if !is_ok(v) {
        return None;
    }
    let latest = match v.field_str("miner_latest") {
        Some(t) => t.to_owned(),
        None => String::new(),
    };
    let ghs = match v.field_as_double("network_hashrate_ghs") {
        Some(d) => d,
        None => Double { bits: 0 },
    };
    let n = NetStats {
        miners: uint_at(v, "miners"),
        ghs,
        height: uint_at(v, "block_height"),
        blake2b_active: v.field_bool("blake2b_active"),
        activation_height: uint_at(v, "activation_height"),
        blocks_until: uint_at(v, "blocks_until_activation"),
        latest,
    };
    assert(n@.latest =~= net_stats_of(v@)->0.latest);
    Some(n)
}

/// What a reply says of a network.
pub open spec fn net_stats_in(text: Option<Vec<u8>>) -> Option<NetStatsV> {
    match reply(text) {
        Some(v) => net_stats_of(v),
        None => None,
    }
}

/// Reads a network's numbers from the pool's reply.
pub fn read_net_stats(text: &Option<Vec<u8>>) -> (r: Option<NetStats>)
    ensures
        match r {
            Some(n) => net_stats_in(*text) == Some(n@),
            None => net_stats_in(*text) is None,
        },
{
    match read_reply(text) {
        Some(v) => net_stats_from(&v),
        None => None,
    }
}

/// Whether a published version is newer than this one; unknown where none is
/// published.
pub fn update_of(latest: &str) -> (r: Option<bool>)
    ensures
        r == if latest@.len() == 0 {
            None::<bool>
        } else {
            Some(after(version(latest@), version(VERSION@)))
        },
{
    if crate::text::chars_of(latest).len() == 0 {
        None
    } else {
        Some(is_newer(latest, VERSION))
    }
}

// ----------------------------------------------------------------- balance

/// The balance that a tree gives, in BTC; nothing unless the pool says that it
/// is well.
pub open spec fn balance_of(v: JsonV) -> Option<Double> {
    if v.field_truth("ok"@) == Some(true) { v.field_double("balance_btc"@) } else { None }
}

/// Reads a balance from a tree.
pub fn balance_from(v: &Json) -> (r: Option<Double>)
    ensures
        r == balance_of(v@),
{
    if is_ok(v) { v.field_as_double("balance_btc") } else { None }
}

/// Reads a balance from the pool's reply.
pub fn read_balance(text: &Option<Vec<u8>>) -> (r: Option<Double>)
    ensures
        r == match reply(*text) {
            Some(v) => balance_of(v),
            None => None::<Double>,
        },
{
    match read_reply(text) {
        Some(v) => balance_from(&v),
        None => None,
    }
}

// --------------------------------------------------------------------- laws

/// Law: a network's numbers are those of a reply that says it is well, and 0
/// where it names none; any other reply says nothing.
pub proof fn law_network_is_read_as_given(v: JsonV)
    ensures
        net_stats_of(v) is Some <==> v.field("ok"@) == Some(JsonV::Bool(true)),
        net_stats_of(v) is Some ==> {
            let n = net_stats_of(v)->0;
            &&& n.miners == match v.field("miners"@) {
                Some(JsonV::Uint(x)) => x,
                _ => 0,
            }
            &&& n.height == match v.field("block_height"@) {
                Some(JsonV::Uint(x)) => x,
                _ => 0,
            }
            &&& n.activation_height == match v.field("activation_height"@) {
                Some(JsonV::Uint(x)) => x,
                _ => 0,
            }
            &&& n.blocks_until == match v.field("blocks_until_activation"@) {
                Some(JsonV::Uint(x)) => x,
                _ => 0,
            }
            &&& n.blake2b_active == match v.field("blake2b_active"@) {
                Some(JsonV::Bool(b)) => Some(b),
                _ => None::<bool>,
            }
            &&& n.latest == match v.field("miner_latest"@) {
                Some(JsonV::Text(t)) => t,
                _ => Seq::<char>::empty(),
            }
            &&& v.field("network_hashrate_ghs"@) is Some && v.field("network_hashrate_ghs"@)->0 is Real ==> n.ghs
                == v.field("network_hashrate_ghs"@)->0->Real_0
            &&& v.field("network_hashrate_ghs"@) is None ==> n.ghs.bits == 0
        },
{
}

/// Law: the balance is that of a reply that says it is well.
pub proof fn law_balance_is_read_as_given(v: JsonV)
    ensures
        v.field("ok"@) != Some(JsonV::Bool(true)) ==> balance_of(v) is None,
        v.field("ok"@) == Some(JsonV::Bool(true)) && v.field("balance_btc"@) is None ==> balance_of(v) is None,
        v.field("ok"@) == Some(JsonV::Bool(true)) && v.field("balance_btc"@) is Some && v.field(
            "balance_btc"@,
        )->0 is Real ==> balance_of(v) == Some(v.field("balance_btc"@)->0->Real_0),
{
}

/// Law: the rotation names its suppliers in the pool's order, one for each entry
/// that gives a name, and the rest of it as the pool gives it.
pub proof fn law_rotation_is_read_as_given(v: JsonV, now: u64, l: Seq<JsonV>, e: JsonV)
    ensures
        carousel_of(v, now).fetched == now,
        carousel_of(v, now).live <==> v.field("live"@) == Some(JsonV::Bool(true)),
        carousel_of(v, now).miners == match v.field("miners"@) {
            Some(JsonV::Uint(x)) => x,
            _ => 0,
        },
        v.field("current"@) is Some && v.field("current"@)->0 is Text ==> carousel_of(v, now).current == label(
            v.field("current"@)->0->Text_0,
        ),
        v.field("hashrate"@) is Some && v.field("hashrate"@)->0 is Real ==> carousel_of(v, now).hashrate == v.field(
            "hashrate"@,
        )->0->Real_0,
        v.field("suppliers"@) == Some(JsonV::List(l)) ==> carousel_of(v, now).suppliers == names_in(l),
        v.field("recent"@) == Some(JsonV::List(l)) ==> carousel_of(v, now).recent == names_in(l),
        names_in(Seq::empty()).len() == 0,
        e is Text ==> names_in(l.push(e)) == names_in(l).push(label(e->Text_0)),
        e is List && e->List_0.len() > 0 && e->List_0[0] is Text ==> names_in(l.push(e)) == names_in(l).push(
            label(e->List_0[0]->Text_0),
        ),
        e is Null || e is Uint || e is Bool || e is Object ==> names_in(l.push(e)) == names_in(l),
{
    assert(l.push(e).drop_last() =~= l);
}

} // verus!
