//! The statistics that the local API shows.

use crate::chirp::{place_of_addr, ChirpInfo};
use crate::config::{PoolMode, VERSION};
use crate::double::Double;
use crate::feeds::CarouselInfo;
use crate::json::{last_entry, Json, JsonV};
use crate::stats::{Stats, StatsV};
use vstd::prelude::*;

verus! {

// ------------------------------------------------------------------ objects

/// The object with these entries; the last one with a key counts.
pub open spec fn object_map(v: Seq<(Seq<char>, JsonV)>) -> Map<Seq<char>, JsonV>
    decreases v.len(),
{
    if v.len() == 0 { Map::empty() } else { object_map(v.drop_last()).insert(v.last().0, v.last().1) }
}

/// The object with these entries.
pub open spec fn object(v: Seq<(Seq<char>, JsonV)>) -> JsonV {
    JsonV::Object(object_map(v))
}

/// The entries of a list.
pub open spec fn entries(v: Seq<(String, Json)>) -> Seq<(Seq<char>, JsonV)> {
    Seq::new(v.len(), |i: int| (v[i].0@, v[i].1@))
}

proof fn lemma_object_map(v: Seq<(String, Json)>, key: Seq<char>)
    ensures
        -1 <= last_entry(v, key) < v.len(),
        object_map(entries(v)).contains_key(key) == (last_entry(v, key) >= 0),
        last_entry(v, key) >= 0 ==> object_map(entries(v))[key] == v[last_entry(v, key)].1@,
    decreases v.len(),
{
    if v.len() > 0 {
        lemma_object_map(v.drop_last(), key);
        assert(entries(v).drop_last() =~= entries(v.drop_last()));
    }
}

/// Makes an object.
pub fn make_object(v: Vec<(String, Json)>) -> (r: Json)
    ensures
        r@ == object(entries(v@)),
{
    proof {
        let m = Json::Object(v).tree()->Object_0;
        assert forall|k: Seq<char>| #[trigger] m.contains_key(k) == object_map(entries(v@)).contains_key(k) && (
        m.contains_key(k) ==> m[k] == object_map(entries(v@))[k]) by {
            lemma_object_map(v@, k);
        }
        assert(m =~= object_map(entries(v@)));
    }
    Json::Object(v)
}

fn entry(v: &mut Vec<(String, Json)>, key: &str, j: Json)
    ensures
        entries(final(v)@) == entries(old(v)@).push((key@, j@)),
{
    let ghost before = entries(v@);
    v.push((key.to_owned(), j));
    assert(entries(v@) =~= before.push((key@, j@)));
}

/// A number as the API shows it: null where it is infinite or no number.
pub open spec fn number(d: Double) -> JsonV {
    if d.magnitude() < 0x7ff0_0000_0000_0000 { JsonV::Real(d) } else { JsonV::Null }
}

fn show_number(d: Double) -> (r: Json)
    ensures
        r@ == number(d),
{
    let magnitude: u64 = if d.bits >= 0x8000_0000_0000_0000 { d.bits - 0x8000_0000_0000_0000 } else { d.bits };
    if magnitude < 0x7ff0_0000_0000_0000 { Json::Real(d) } else { Json::Null }
}

/// A number, or null.
pub open spec fn real_or_null(d: Option<Double>) -> JsonV {
    match d {
        Some(d) => number(d),
        None => JsonV::Null,
    }
}

fn real_or_none(d: Option<Double>) -> (r: Json)
    ensures
        r@ == real_or_null(d),
{
    match d {
        Some(d) => show_number(d),
        None => Json::Null,
    }
}

/// A truth value, or null.
pub open spec fn bool_or_null(b: Option<bool>) -> JsonV {
    match b {
        Some(b) => JsonV::Bool(b),
        None => JsonV::Null,
    }
}

fn bool_or_none(b: Option<bool>) -> (r: Json)
    ensures
        r@ == bool_or_null(b),
{
    match b {
        Some(b) => Json::Bool(b),
        None => Json::Null,
    }
}

// ----------------------------------------------------------------- snapshot

/// A worker at the moment.
pub struct WorkerNow {
    pub name: String,
    pub ghs: Double,
    pub offline: bool,
}

/// The workers by their names. One without a rate has none yet, and one that is
/// not known to be offline is not.
pub fn workers_now(names: &Vec<String>, ghs: &Vec<Double>, dead: &Vec<bool>) -> (r: Vec<WorkerNow>)
    ensures
        r@.len() == names@.len(),
        forall|i: int|
            0 <= i < r@.len() ==> {
                &&& (#[trigger] r@[i]).name@ == names@[i]@
                &&& r@[i].ghs == if i < ghs@.len() { ghs@[i] } else { Double { bits: 0 } }
                &&& r@[i].offline == (i < dead@.len() && dead@[i])
            },
{
    let mut r: Vec<WorkerNow> = Vec::new();
    let mut i: usize = 0;
    while i < names.len()
        invariant
            i <= names@.len(),
            r@.len() == i,
            forall|j: int|
                0 <= j < i ==> {
                    &&& (#[trigger] r@[j]).name@ == names@[j]@
                    &&& r@[j].ghs == if j < ghs@.len() { ghs@[j] } else { Double { bits: 0 } }
                    &&& r@[j].offline == (j < dead@.len() && dead@[j])
                },
        decreases names@.len() - i,
    {
        let rate = if i < ghs.len() { ghs[i] } else { Double { bits: 0 } };
        let offline = i < dead.len() && dead[i];
        r.push(WorkerNow { name: names[i].clone(), ghs: rate, offline });
        i = i + 1;
    }
    r
}

/// What the miner knows at the moment, besides its counts.
pub struct Snapshot {
    pub ts: u64,
    pub uptime: u64,
    pub pool: String,
    pub mode: PoolMode,
    pub network: String,
    pub worker: String,
    pub active: Option<bool>,
    pub hashrate: Double,
    pub workers: Vec<WorkerNow>,
    pub best_diff: Double,
    pub balance: Option<Double>,
    pub net_ok: bool,
    pub net_miners: u64,
    pub net_ghs: Double,
    pub net_height: u64,
    pub chirp: Option<ChirpInfo>,
    /// The user's share of a CHIRP block in percent, what it is expected to
    /// bring in BTC a day, and the last reward in BTC.
    pub slice_pct: Option<Double>,
    pub expected: Option<Double>,
    pub reward: Double,
    pub carousel: Option<CarouselInfo>,
    /// The rotation's hashrate in terahashes per second.
    pub carousel_ths: Double,
}

/// A worker as the API shows it.
pub open spec fn worker_tree(w: WorkerNow) -> JsonV {
    object(
        seq![
            ("name"@, JsonV::Text(w.name@)),
            ("ghs"@, number(w.ghs)),
            ("offline"@, JsonV::Bool(w.offline)),
        ],
    )
}

/// The workers as the API shows them.
pub open spec fn workers_tree(w: Seq<WorkerNow>) -> JsonV {
    JsonV::List(Seq::new(w.len(), |i: int| worker_tree(w[i])))
}

/// The syndicate as the API shows it; null where it is not known.
pub open spec fn chirp_tree(s: Snapshot, addr: Seq<char>) -> JsonV {
    match s.chirp {
        Some(c) => {
            let i = place_of_addr(c@.members, addr);
            object(
                seq![
                    ("listed"@, JsonV::Bool(i >= 0)),
                    ("eligible"@, JsonV::Bool(i >= 0 && c@.members[i].eligible)),
                    ("slice_pct"@, real_or_null(s.slice_pct)),
                    ("tenure_days"@, if i >= 0 { number(c@.members[i].days) } else { JsonV::Null }),
                    ("candidates"@, JsonV::Uint(c@.candidates)),
                    ("workers"@, JsonV::Uint(c@.workers)),
                    ("hashrate_ths"@, number(c@.hashrate_ths)),
                    ("blocks"@, JsonV::Uint(c@.blocks)),
                    ("reward_btc"@, number(s.reward)),
                    ("expected_btc_day"@, real_or_null(s.expected)),
                ],
            )
        },
        None => JsonV::Null,
    }
}

/// The rotation as the API shows it; null where it is not known.
pub open spec fn carousel_tree(s: Snapshot) -> JsonV {
    match s.carousel {
        Some(k) => object(
            seq![
                ("current"@, JsonV::Text(k@.current)),
                ("suppliers"@, JsonV::List(Seq::new(k@.suppliers.len(), |i: int| JsonV::Text(k@.suppliers[i])))),
                ("miners"@, JsonV::Uint(k@.miners)),
                ("hashrate_ths"@, number(s.carousel_ths)),
            ],
        ),
        None => JsonV::Null,
    }
}

/// The network as the API shows it.
pub open spec fn net_tree(s: Snapshot) -> JsonV {
    object(
        seq![
            ("ok"@, JsonV::Bool(s.net_ok)),
            ("miners"@, JsonV::Uint(s.net_miners)),
            ("hashrate_ghs"@, number(s.net_ghs)),
            ("height"@, JsonV::Uint(s.net_height)),
        ],
    )
}

/// A mode's name.
pub open spec fn mode_label(m: PoolMode) -> Seq<char> {
    match m {
        PoolMode::Lotto => "LOTTO"@,
        PoolMode::Chirp => "CHIRP"@,
        PoolMode::Carousel => "CAROUSEL"@,
        PoolMode::Custom => "CUSTOM"@,
    }
}

/// The entries of the statistics.
pub open spec fn stats_entries(s: Snapshot, st: StatsV) -> Seq<(Seq<char>, JsonV)> {
    seq![
        ("version"@, JsonV::Text(VERSION@)),
        ("ts"@, JsonV::Uint(s.ts)),
        ("uptime_s"@, JsonV::Uint(s.uptime)),
        ("pool"@, JsonV::Text(s.pool@)),
        ("mode"@, JsonV::Text(mode_label(s.mode))),
        ("network"@, JsonV::Text(s.network@)),
        ("address"@, JsonV::Text(st.addr)),
        ("worker"@, JsonV::Text(s.worker@)),
        ("connected"@, JsonV::Bool(st.connected)),
        ("paused"@, JsonV::Bool(st.paused)),
        ("blake2b_active"@, bool_or_null(s.active)),
        ("hashrate_ghs"@, number(s.hashrate)),
        ("workers"@, workers_tree(s.workers@)),
        ("blocks"@, JsonV::Uint(st.blocks)),
        ("shares_accepted"@, JsonV::Uint(st.accepted)),
        ("shares_rejected"@, JsonV::Uint(st.rejected)),
        ("donation_blocks"@, JsonV::Uint(st.donated)),
        ("difficulty"@, number(st.diff)),
        ("best_share_diff"@, number(s.best_diff)),
        ("balance_btc"@, real_or_null(s.balance)),
        ("net"@, net_tree(s)),
        ("chirp"@, chirp_tree(s, st.addr)),
        ("carousel"@, carousel_tree(s)),
        ("alerts_sent"@, JsonV::Uint(st.alerts_sent)),
    ]
}

/// The statistics as the API shows them.
pub open spec fn stats_tree(s: Snapshot, st: StatsV) -> JsonV {
    object(stats_entries(s, st))
}

fn show_worker(w: &WorkerNow) -> (r: Json)
    ensures
        r@ == worker_tree(*w),
{
    let mut v: Vec<(String, Json)> = Vec::new();
    assert(entries(v@) =~= Seq::empty());
    entry(&mut v, "name", Json::Text(w.name.clone()));
    entry(&mut v, "ghs", show_number(w.ghs));
    entry(&mut v, "offline", Json::Bool(w.offline));
    assert(entries(v@) =~= seq![
        ("name"@, JsonV::Text(w.name@)),
        ("ghs"@, number(w.ghs)),
        ("offline"@, JsonV::Bool(w.offline)),
    ]);
    make_object(v)
}

fn show_workers(w: &Vec<WorkerNow>) -> (r: Json)
    ensures
        r@ == workers_tree(w@),
{
    let mut out: Vec<Json> = Vec::new();
    let mut i: usize = 0;
    while i < w.len()
        invariant
            i <= w@.len(),
            out@.len() == i,
            forall|j: int| 0 <= j < i ==> (#[trigger] out@[j])@ == worker_tree(w@[j]),
        decreases w@.len() - i,
    {
        out.push(show_worker(&w[i]));
        i = i + 1;
    }
    let r = Json::List(out);
    assert(r@->List_0 =~= workers_tree(w@)->List_0);
    r
}

fn show_names(v: &Vec<String>) -> (r: Json)
    ensures
        r@ == JsonV::List(Seq::new(v@.len(), |i: int| JsonV::Text(v@[i]@))),
{
    let mut out: Vec<Json> = Vec::new();
    let mut i: usize = 0;
    while i < v.len()
        invariant
            i <= v@.len(),
            out@.len() == i,
            forall|j: int| 0 <= j < i ==> (#[trigger] out@[j])@ == JsonV::Text(v@[j]@),
        decreases v@.len() - i,
    {
        out.push(Json::Text(v[i].clone()));
        i = i + 1;
    }
    let r = Json::List(out);
    assert(r@->List_0 =~= Seq::new(v@.len(), |i: int| JsonV::Text(v@[i]@)));
    r
}

fn show_chirp(s: &Snapshot, addr: &str) -> (r: Json)
    ensures
        r@ == chirp_tree(*s, addr@),
{
    match &s.chirp {
        Some(c) => {
            let (listed, eligible, tenure) = match c.me(addr) {
                Some(m) => (true, m.eligible, Some(m.days)),
                None => (false, false, None),
            };
            let mut v: Vec<(String, Json)> = Vec::new();
            assert(entries(v@) =~= Seq::empty());
            entry(&mut v, "listed", Json::Bool(listed));
            entry(&mut v, "eligible", Json::Bool(eligible));
            entry(&mut v, "slice_pct", real_or_none(s.slice_pct));
            entry(&mut v, "tenure_days", real_or_none(tenure));
            entry(&mut v, "candidates", Json::Uint(c.candidates));
            entry(&mut v, "workers", Json::Uint(c.workers));
            entry(&mut v, "hashrate_ths", show_number(c.hashrate_ths));
            entry(&mut v, "blocks", Json::Uint(c.blocks));
            entry(&mut v, "reward_btc", show_number(s.reward));
            entry(&mut v, "expected_btc_day", real_or_none(s.expected));
            proof {
                let i = place_of_addr(c@.members, addr@);
                assert(entries(v@) =~= seq![
                    ("listed"@, JsonV::Bool(i >= 0)),
                    ("eligible"@, JsonV::Bool(i >= 0 && c@.members[i].eligible)),
                    ("slice_pct"@, real_or_null(s.slice_pct)),
                    ("tenure_days"@, if i >= 0 { number(c@.members[i].days) } else { JsonV::Null }),
                    ("candidates"@, JsonV::Uint(c@.candidates)),
                    ("workers"@, JsonV::Uint(c@.workers)),
                    ("hashrate_ths"@, number(c@.hashrate_ths)),
                    ("blocks"@, JsonV::Uint(c@.blocks)),
                    ("reward_btc"@, number(s.reward)),
                    ("expected_btc_day"@, real_or_null(s.expected)),
                ]);
            }
            make_object(v)
        },
        None => Json::Null,
    }
}

fn show_carousel(s: &Snapshot) -> (r: Json)
    ensures
        r@ == carousel_tree(*s),
{
    match &s.carousel {
        Some(k) => {
            let names = show_names(&k.suppliers);
            assert(names@->List_0 =~= Seq::new(k@.suppliers.len(), |i: int| JsonV::Text(k@.suppliers[i])));
            let mut v: Vec<(String, Json)> = Vec::new();
            assert(entries(v@) =~= Seq::empty());
            entry(&mut v, "current", Json::Text(k.current.clone()));
            entry(&mut v, "suppliers", names);
            entry(&mut v, "miners", Json::Uint(k.miners));
            entry(&mut v, "hashrate_ths", show_number(s.carousel_ths));
            assert(entries(v@) =~= seq![
                ("current"@, JsonV::Text(k@.current)),
                ("suppliers"@, JsonV::List(Seq::new(k@.suppliers.len(), |i: int| JsonV::Text(k@.suppliers[i])))),
                ("miners"@, JsonV::Uint(k@.miners)),
                ("hashrate_ths"@, number(s.carousel_ths)),
            ]);
            make_object(v)
        },
        None => Json::Null,
    }
}

fn show_net(s: &Snapshot) -> (r: Json)
    ensures
        r@ == net_tree(*s),
{
    let mut v: Vec<(String, Json)> = Vec::new();
    assert(entries(v@) =~= Seq::empty());
    entry(&mut v, "ok", Json::Bool(s.net_ok));
    entry(&mut v, "miners", Json::Uint(s.net_miners));
    entry(&mut v, "hashrate_ghs", show_number(s.net_ghs));
    entry(&mut v, "height", Json::Uint(s.net_height));
    assert(entries(v@) =~= seq![
        ("ok"@, JsonV::Bool(s.net_ok)),
        ("miners"@, JsonV::Uint(s.net_miners)),
        ("hashrate_ghs"@, number(s.net_ghs)),
        ("height"@, JsonV::Uint(s.net_height)),
    ]);
    make_object(v)
}

/// The statistics as the API shows them.
pub fn stats_json(s: &Snapshot, st: &Stats) -> (r: Json)
    ensures
        r@ == stats_tree(*s, st@),
{
    let mut v: Vec<(String, Json)> = Vec::new();
    assert(entries(v@) =~= Seq::empty());
    entry(&mut v, "version", Json::Text(VERSION.to_owned()));
    entry(&mut v, "ts", Json::Uint(s.ts));
    entry(&mut v, "uptime_s", Json::Uint(s.uptime));
    entry(&mut v, "pool", Json::Text(s.pool.clone()));
    entry(&mut v, "mode", Json::Text(s.mode.label().to_owned()));
    entry(&mut v, "network", Json::Text(s.network.clone()));
    entry(&mut v, "address", Json::Text(st.addr.clone()));
    entry(&mut v, "worker", Json::Text(s.worker.clone()));
    entry(&mut v, "connected", Json::Bool(st.connected));
    entry(&mut v, "paused", Json::Bool(st.paused));
    entry(&mut v, "blake2b_active", bool_or_none(s.active));
    entry(&mut v, "hashrate_ghs", show_number(s.hashrate));
    entry(&mut v, "workers", show_workers(&s.workers));
    entry(&mut v, "blocks", Json::Uint(st.blocks));
    entry(&mut v, "shares_accepted", Json::Uint(st.accepted));
    entry(&mut v, "shares_rejected", Json::Uint(st.rejected));
    entry(&mut v, "donation_blocks", Json::Uint(st.donated));
    entry(&mut v, "difficulty", show_number(st.diff));
    entry(&mut v, "best_share_diff", show_number(s.best_diff));
    entry(&mut v, "balance_btc", real_or_none(s.balance));
    entry(&mut v, "net", show_net(s));
    entry(&mut v, "chirp", show_chirp(s, st.addr.as_str()));
    entry(&mut v, "carousel", show_carousel(s));
    entry(&mut v, "alerts_sent", Json::Uint(st.alerts_sent));
    assert(entries(v@) =~= seq![
        ("version"@, JsonV::Text(VERSION@)),
        ("ts"@, JsonV::Uint(s.ts)),
        ("uptime_s"@, JsonV::Uint(s.uptime)),
        ("pool"@, JsonV::Text(s.pool@)),
        ("mode"@, JsonV::Text(mode_label(s.mode))),
        ("network"@, JsonV::Text(s.network@)),
        ("address"@, JsonV::Text(st@.addr)),
        ("worker"@, JsonV::Text(s.worker@)),
        ("connected"@, JsonV::Bool(st@.connected)),
        ("paused"@, JsonV::Bool(st@.paused)),
        ("blake2b_active"@, bool_or_null(s.active)),
        ("hashrate_ghs"@, number(s.hashrate)),
        ("workers"@, workers_tree(s.workers@)),
        ("blocks"@, JsonV::Uint(st@.blocks)),
        ("shares_accepted"@, JsonV::Uint(st@.accepted)),
        ("shares_rejected"@, JsonV::Uint(st@.rejected)),
        ("donation_blocks"@, JsonV::Uint(st@.donated)),
        ("difficulty"@, number(st@.diff)),
        ("best_share_diff"@, number(s.best_diff)),
        ("balance_btc"@, real_or_null(s.balance)),
        ("net"@, net_tree(*s)),
        ("chirp"@, chirp_tree(*s, st@.addr)),
        ("carousel"@, carousel_tree(*s)),
        ("alerts_sent"@, JsonV::Uint(st@.alerts_sent)),
    ]);
    make_object(v)
}

// --------------------------------------------------------------------- laws

/// Law: an object shows, under each key, the last entry with that key, and no
/// other key.
pub proof fn law_entries_are_shown(v: Seq<(Seq<char>, JsonV)>, i: int, key: Seq<char>)
    ensures
        0 <= i < v.len() && v[i].0 == key && (forall|j: int| i < j < v.len() ==> (#[trigger] v[j]).0 != key) ==> object(
            v,
        ).field(key) == Some(v[i].1),
        (forall|j: int| 0 <= j < v.len() ==> (#[trigger] v[j]).0 != key) ==> object(v).field(key) is None,
    decreases v.len(),
{
    if v.len() > 0 {
        let d = v.drop_last();
        law_entries_are_shown(d, i, key);
        assert forall|j: int| 0 <= j < d.len() implies d[j] == #[trigger] v[j] by {}
        if 0 <= i < v.len() - 1 && v[i].0 == key && (forall|j: int| i < j < v.len() ==> (#[trigger] v[j]).0 != key) {
            assert(v[v.len() - 1].0 != key);
            assert forall|j: int| i < j < d.len() implies (#[trigger] d[j]).0 != key by {
                assert(v[j].0 != key);
            }
        }
        if forall|j: int| 0 <= j < v.len() ==> (#[trigger] v[j]).0 != key {
            assert(v[v.len() - 1].0 != key);
            assert forall|j: int| 0 <= j < d.len() implies (#[trigger] d[j]).0 != key by {
                assert(v[j].0 != key);
            }
        }
    }
}

/// Law: a number is shown as it is, unless it is infinite or no number.
pub proof fn law_numbers_are_shown(d: Double)
    ensures
        d.magnitude() < 0x7ff0_0000_0000_0000 ==> number(d) == JsonV::Real(d),
        d.nan() ==> number(d) == JsonV::Null,
        real_or_null(Some(d)) == number(d),
        real_or_null(None) == JsonV::Null,
{
}

/// The keys of the statistics, told apart by length and letters.
#[verifier::spinoff_prover]
proof fn lemma_stats_keys()
    ensures
        "version"@.len() == 7 && "version"@[0] == 'v',
        "ts"@.len() == 2,
        "uptime_s"@.len() == 8 && "uptime_s"@[0] == 'u',
        "pool"@.len() == 4 && "pool"@[0] == 'p',
        "mode"@.len() == 4 && "mode"@[0] == 'm',
        "network"@.len() == 7 && "network"@[0] == 'n',
        "address"@.len() == 7 && "address"@[0] == 'a',
        "worker"@.len() == 6 && "worker"@[0] == 'w',
        "connected"@.len() == 9,
        "paused"@.len() == 6 && "paused"@[0] == 'p',
        "blake2b_active"@.len() == 14,
        "hashrate_ghs"@.len() == 12,
        "workers"@.len() == 7 && "workers"@[0] == 'w',
        "blocks"@.len() == 6 && "blocks"@[0] == 'b',
        "shares_accepted"@.len() == 15 && "shares_accepted"@[0] == 's' && "shares_accepted"@[7] == 'a',
        "shares_rejected"@.len() == 15 && "shares_rejected"@[0] == 's' && "shares_rejected"@[7] == 'r',
        "donation_blocks"@.len() == 15 && "donation_blocks"@[0] == 'd',
        "difficulty"@.len() == 10,
        "best_share_diff"@.len() == 15 && "best_share_diff"@[0] == 'b',
        "balance_btc"@.len() == 11 && "balance_btc"@[0] == 'b',
        "net"@.len() == 3,
        "chirp"@.len() == 5,
        "carousel"@.len() == 8 && "carousel"@[0] == 'c',
        "alerts_sent"@.len() == 11 && "alerts_sent"@[0] == 'a',
{
    reveal_strlit("version");
    reveal_strlit("ts");
    reveal_strlit("uptime_s");
    reveal_strlit("pool");
    reveal_strlit("mode");
    reveal_strlit("network");
    reveal_strlit("address");
    reveal_strlit("worker");
    reveal_strlit("connected");
    reveal_strlit("paused");
    reveal_strlit("blake2b_active");
    reveal_strlit("hashrate_ghs");
    reveal_strlit("workers");
    reveal_strlit("blocks");
    reveal_strlit("shares_accepted");
    reveal_strlit("shares_rejected");
    reveal_strlit("donation_blocks");
    reveal_strlit("difficulty");
    reveal_strlit("best_share_diff");
    reveal_strlit("balance_btc");
    reveal_strlit("net");
    reveal_strlit("chirp");
    reveal_strlit("carousel");
    reveal_strlit("alerts_sent");
}

/// Law: the statistics show the counts, the pool, the address, the state and
/// the rates under their own keys.
#[verifier::spinoff_prover]
#[verifier::rlimit(60)]
pub proof fn law_statistics_show_the_counts(s: Snapshot, st: StatsV)
    ensures
        ({
            let t = stats_tree(s, st);
            &&& t.field("shares_accepted"@) == Some(JsonV::Uint(st.accepted))
            &&& t.field("shares_rejected"@) == Some(JsonV::Uint(st.rejected))
            &&& t.field("blocks"@) == Some(JsonV::Uint(st.blocks))
            &&& t.field("donation_blocks"@) == Some(JsonV::Uint(st.donated))
            &&& t.field("alerts_sent"@) == Some(JsonV::Uint(st.alerts_sent))
            &&& t.field("connected"@) == Some(JsonV::Bool(st.connected))
            &&& t.field("paused"@) == Some(JsonV::Bool(st.paused))
            &&& t.field("address"@) == Some(JsonV::Text(st.addr))
            &&& t.field("mode"@) == Some(JsonV::Text(mode_label(s.mode)))
            &&& t.field("pool"@) == Some(JsonV::Text(s.pool@))
            &&& t.field("network"@) == Some(JsonV::Text(s.network@))
            &&& t.field("worker"@) == Some(JsonV::Text(s.worker@))
            &&& t.field("uptime_s"@) == Some(JsonV::Uint(s.uptime))
            &&& t.field("ts"@) == Some(JsonV::Uint(s.ts))
            &&& t.field("hashrate_ghs"@) == Some(number(s.hashrate))
            &&& t.field("difficulty"@) == Some(number(st.diff))
            &&& t.field("best_share_diff"@) == Some(number(s.best_diff))
            &&& t.field("balance_btc"@) == Some(real_or_null(s.balance))
            &&& t.field("blake2b_active"@) == Some(bool_or_null(s.active))
            &&& t.field("workers"@) == Some(workers_tree(s.workers@))
            &&& t.field("net"@) == Some(net_tree(s))
            &&& t.field("chirp"@) == Some(chirp_tree(s, st.addr))
            &&& t.field("carousel"@) == Some(carousel_tree(s))
        }),
{
    lemma_stats_keys();
    let v = stats_entries(s, st);
    assert forall|j: int| 0 < j < v.len() implies (#[trigger] v[j]).0 != "version"@ by {}
    law_entries_are_shown(v, 0, "version"@);
    assert forall|j: int| 1 < j < v.len() implies (#[trigger] v[j]).0 != "ts"@ by {}
    law_entries_are_shown(v, 1, "ts"@);
    assert forall|j: int| 2 < j < v.len() implies (#[trigger] v[j]).0 != "uptime_s"@ by {}
    law_entries_are_shown(v, 2, "uptime_s"@);
    assert forall|j: int| 3 < j < v.len() implies (#[trigger] v[j]).0 != "pool"@ by {}
    law_entries_are_shown(v, 3, "pool"@);
    assert forall|j: int| 4 < j < v.len() implies (#[trigger] v[j]).0 != "mode"@ by {}
    law_entries_are_shown(v, 4, "mode"@);
    assert forall|j: int| 5 < j < v.len() implies (#[trigger] v[j]).0 != "network"@ by {}
    law_entries_are_shown(v, 5, "network"@);
    assert forall|j: int| 6 < j < v.len() implies (#[trigger] v[j]).0 != "address"@ by {}
    law_entries_are_shown(v, 6, "address"@);
    assert forall|j: int| 7 < j < v.len() implies (#[trigger] v[j]).0 != "worker"@ by {}
    law_entries_are_shown(v, 7, "worker"@);
    assert forall|j: int| 8 < j < v.len() implies (#[trigger] v[j]).0 != "connected"@ by {}
    law_entries_are_shown(v, 8, "connected"@);
    assert forall|j: int| 9 < j < v.len() implies (#[trigger] v[j]).0 != "paused"@ by {}
    law_entries_are_shown(v, 9, "paused"@);
    assert forall|j: int| 10 < j < v.len() implies (#[trigger] v[j]).0 != "blake2b_active"@ by {}
    law_entries_are_shown(v, 10, "blake2b_active"@);
    assert forall|j: int| 11 < j < v.len() implies (#[trigger] v[j]).0 != "hashrate_ghs"@ by {}
    law_entries_are_shown(v, 11, "hashrate_ghs"@);
    assert forall|j: int| 12 < j < v.len() implies (#[trigger] v[j]).0 != "workers"@ by {}
    law_entries_are_shown(v, 12, "workers"@);
    assert forall|j: int| 13 < j < v.len() implies (#[trigger] v[j]).0 != "blocks"@ by {}
    law_entries_are_shown(v, 13, "blocks"@);
    assert forall|j: int| 14 < j < v.len() implies (#[trigger] v[j]).0 != "shares_accepted"@ by {}
    law_entries_are_shown(v, 14, "shares_accepted"@);
    assert forall|j: int| 15 < j < v.len() implies (#[trigger] v[j]).0 != "shares_rejected"@ by {}
    law_entries_are_shown(v, 15, "shares_rejected"@);
    assert forall|j: int| 16 < j < v.len() implies (#[trigger] v[j]).0 != "donation_blocks"@ by {}
    law_entries_are_shown(v, 16, "donation_blocks"@);
    assert forall|j: int| 17 < j < v.len() implies (#[trigger] v[j]).0 != "difficulty"@ by {}
    law_entries_are_shown(v, 17, "difficulty"@);
    assert forall|j: int| 18 < j < v.len() implies (#[trigger] v[j]).0 != "best_share_diff"@ by {}
    law_entries_are_shown(v, 18, "best_share_diff"@);
    assert forall|j: int| 19 < j < v.len() implies (#[trigger] v[j]).0 != "balance_btc"@ by {}
    law_entries_are_shown(v, 19, "balance_btc"@);
    assert forall|j: int| 20 < j < v.len() implies (#[trigger] v[j]).0 != "net"@ by {}
    law_entries_are_shown(v, 20, "net"@);
    assert forall|j: int| 21 < j < v.len() implies (#[trigger] v[j]).0 != "chirp"@ by {}
    law_entries_are_shown(v, 21, "chirp"@);
    assert forall|j: int| 22 < j < v.len() implies (#[trigger] v[j]).0 != "carousel"@ by {}
    law_entries_are_shown(v, 22, "carousel"@);
    law_entries_are_shown(v, 23, "alerts_sent"@);
}

/// Law: every worker is shown in its place, with its name, its rate and whether
/// it is down.
pub proof fn law_workers_are_listed(w: Seq<WorkerNow>, i: int)
    requires
        0 <= i < w.len(),
    ensures
        workers_tree(w) is List && workers_tree(w)->List_0.len() == w.len(),
        workers_tree(w).item(i) is Some,
        workers_tree(w).item(i)->0.field("name"@) == Some(JsonV::Text(w[i].name@)),
        workers_tree(w).item(i)->0.field("ghs"@) == Some(number(w[i].ghs)),
        workers_tree(w).item(i)->0.field("offline"@) == Some(JsonV::Bool(w[i].offline)),
{
    reveal_strlit("name");
    reveal_strlit("ghs");
    reveal_strlit("offline");
    assert("name"@.len() == 4);
    assert("ghs"@.len() == 3);
    assert("offline"@.len() == 7);
    let v = seq![
        ("name"@, JsonV::Text(w[i].name@)),
        ("ghs"@, number(w[i].ghs)),
        ("offline"@, JsonV::Bool(w[i].offline)),
    ];
    assert forall|j: int| 0 < j < v.len() implies (#[trigger] v[j]).0 != "name"@ by {}
    law_entries_are_shown(v, 0, "name"@);
    assert forall|j: int| 1 < j < v.len() implies (#[trigger] v[j]).0 != "ghs"@ by {}
    law_entries_are_shown(v, 1, "ghs"@);
    law_entries_are_shown(v, 2, "offline"@);
}

/// Law: the network's numbers are shown under their own keys.
pub proof fn law_network_is_shown(s: Snapshot)
    ensures
        net_tree(s).field("ok"@) == Some(JsonV::Bool(s.net_ok)),
        net_tree(s).field("miners"@) == Some(JsonV::Uint(s.net_miners)),
        net_tree(s).field("hashrate_ghs"@) == Some(number(s.net_ghs)),
        net_tree(s).field("height"@) == Some(JsonV::Uint(s.net_height)),
{
    reveal_strlit("ok");
    reveal_strlit("miners");
    reveal_strlit("hashrate_ghs");
    reveal_strlit("height");
    assert("ok"@.len() == 2);
    assert("miners"@.len() == 6 && "miners"@[0] == 'm');
    assert("hashrate_ghs"@.len() == 12);
    assert("height"@.len() == 6 && "height"@[0] == 'h');
    let v = seq![
        ("ok"@, JsonV::Bool(s.net_ok)),
        ("miners"@, JsonV::Uint(s.net_miners)),
        ("hashrate_ghs"@, number(s.net_ghs)),
        ("height"@, JsonV::Uint(s.net_height)),
    ];
    assert forall|j: int| 0 < j < v.len() implies (#[trigger] v[j]).0 != "ok"@ by {}
    law_entries_are_shown(v, 0, "ok"@);
    assert forall|j: int| 1 < j < v.len() implies (#[trigger] v[j]).0 != "miners"@ by {}
    law_entries_are_shown(v, 1, "miners"@);
    assert forall|j: int| 2 < j < v.len() implies (#[trigger] v[j]).0 != "hashrate_ghs"@ by {}
    law_entries_are_shown(v, 2, "hashrate_ghs"@);
    law_entries_are_shown(v, 3, "height"@);
}

/// Law: the rotation is shown as it is, and null where it is not known.
pub proof fn law_rotation_is_shown(s: Snapshot)
    ensures
        s.carousel is None ==> carousel_tree(s) == JsonV::Null,
        s.carousel matches Some(k) ==> {
            let t = carousel_tree(s);
            &&& t.field("current"@) == Some(JsonV::Text(k@.current))
            &&& t.field("miners"@) == Some(JsonV::Uint(k@.miners))
            &&& t.field("hashrate_ths"@) == Some(number(s.carousel_ths))
            &&& t.field("suppliers"@) matches Some(JsonV::List(l)) && l.len() == k@.suppliers.len() && forall|i: int|
                0 <= i < l.len() ==> #[trigger] l[i] == JsonV::Text(k@.suppliers[i])
        },
{
    reveal_strlit("current");
    reveal_strlit("suppliers");
    reveal_strlit("miners");
    reveal_strlit("hashrate_ths");
    assert("current"@.len() == 7);
    assert("suppliers"@.len() == 9);
    assert("miners"@.len() == 6);
    assert("hashrate_ths"@.len() == 12);
    if let Some(k) = s.carousel {
        let v = seq![
            ("current"@, JsonV::Text(k@.current)),
            ("suppliers"@, JsonV::List(Seq::new(k@.suppliers.len(), |i: int| JsonV::Text(k@.suppliers[i])))),
            ("miners"@, JsonV::Uint(k@.miners)),
            ("hashrate_ths"@, number(s.carousel_ths)),
        ];
        assert forall|j: int| 0 < j < v.len() implies (#[trigger] v[j]).0 != "current"@ by {}
        law_entries_are_shown(v, 0, "current"@);
        assert forall|j: int| 1 < j < v.len() implies (#[trigger] v[j]).0 != "suppliers"@ by {}
        law_entries_are_shown(v, 1, "suppliers"@);
        assert forall|j: int| 2 < j < v.len() implies (#[trigger] v[j]).0 != "miners"@ by {}
        law_entries_are_shown(v, 2, "miners"@);
        law_entries_are_shown(v, 3, "hashrate_ths"@);
    }
}

/// Law: the syndicate is shown as it is, and the user by the entry with their
/// address; one without an entry is not listed.
#[verifier::spinoff_prover]
pub proof fn law_syndicate_is_shown(s: Snapshot, addr: Seq<char>, i: int)
    ensures
        s.chirp is None ==> chirp_tree(s, addr) == JsonV::Null,
        s.chirp matches Some(c) ==> {
            let t = chirp_tree(s, addr);
            &&& t.field("candidates"@) == Some(JsonV::Uint(c@.candidates))
            &&& t.field("workers"@) == Some(JsonV::Uint(c@.workers))
            &&& t.field("hashrate_ths"@) == Some(number(c@.hashrate_ths))
            &&& t.field("blocks"@) == Some(JsonV::Uint(c@.blocks))
            &&& t.field("slice_pct"@) == Some(real_or_null(s.slice_pct))
            &&& t.field("reward_btc"@) == Some(number(s.reward))
            &&& t.field("expected_btc_day"@) == Some(real_or_null(s.expected))
            &&& place_of_addr(c@.members, addr) < 0 ==> t.field("listed"@) == Some(JsonV::Bool(false)) && t.field(
                "eligible"@,
            ) == Some(JsonV::Bool(false)) && t.field("tenure_days"@) == Some(JsonV::Null)
            &&& place_of_addr(c@.members, addr) == i && i >= 0 ==> t.field("listed"@) == Some(JsonV::Bool(true))
                && t.field("eligible"@) == Some(JsonV::Bool(c@.members[i].eligible)) && t.field("tenure_days"@)
                == Some(number(c@.members[i].days))
        },
{
    reveal_strlit("listed");
    reveal_strlit("eligible");
    reveal_strlit("slice_pct");
    reveal_strlit("tenure_days");
    reveal_strlit("candidates");
    reveal_strlit("workers");
    reveal_strlit("hashrate_ths");
    reveal_strlit("blocks");
    reveal_strlit("reward_btc");
    reveal_strlit("expected_btc_day");
    assert("listed"@.len() == 6 && "listed"@[0] == 'l');
    assert("eligible"@.len() == 8);
    assert("slice_pct"@.len() == 9);
    assert("tenure_days"@.len() == 11);
    assert("candidates"@.len() == 10 && "candidates"@[0] == 'c');
    assert("workers"@.len() == 7);
    assert("hashrate_ths"@.len() == 12);
    assert("blocks"@.len() == 6 && "blocks"@[0] == 'b');
    assert("reward_btc"@.len() == 10 && "reward_btc"@[0] == 'r');
    assert("expected_btc_day"@.len() == 16);
    if let Some(c) = s.chirp {
        let p = place_of_addr(c@.members, addr);
        let v = seq![
            ("listed"@, JsonV::Bool(p >= 0)),
            ("eligible"@, JsonV::Bool(p >= 0 && c@.members[p].eligible)),
            ("slice_pct"@, real_or_null(s.slice_pct)),
            ("tenure_days"@, if p >= 0 { number(c@.members[p].days) } else { JsonV::Null }),
            ("candidates"@, JsonV::Uint(c@.candidates)),
            ("workers"@, JsonV::Uint(c@.workers)),
            ("hashrate_ths"@, number(c@.hashrate_ths)),
            ("blocks"@, JsonV::Uint(c@.blocks)),
            ("reward_btc"@, number(s.reward)),
            ("expected_btc_day"@, real_or_null(s.expected)),
        ];
        assert forall|j: int| 0 < j < v.len() implies (#[trigger] v[j]).0 != "listed"@ by {}
        law_entries_are_shown(v, 0, "listed"@);
        assert forall|j: int| 1 < j < v.len() implies (#[trigger] v[j]).0 != "eligible"@ by {}
        law_entries_are_shown(v, 1, "eligible"@);
        assert forall|j: int| 2 < j < v.len() implies (#[trigger] v[j]).0 != "slice_pct"@ by {}
        law_entries_are_shown(v, 2, "slice_pct"@);
        assert forall|j: int| 3 < j < v.len() implies (#[trigger] v[j]).0 != "tenure_days"@ by {}
        law_entries_are_shown(v, 3, "tenure_days"@);
        assert forall|j: int| 4 < j < v.len() implies (#[trigger] v[j]).0 != "candidates"@ by {}
        law_entries_are_shown(v, 4, "candidates"@);
        assert forall|j: int| 5 < j < v.len() implies (#[trigger] v[j]).0 != "workers"@ by {}
        law_entries_are_shown(v, 5, "workers"@);
        assert forall|j: int| 6 < j < v.len() implies (#[trigger] v[j]).0 != "hashrate_ths"@ by {}
        law_entries_are_shown(v, 6, "hashrate_ths"@);
        assert forall|j: int| 7 < j < v.len() implies (#[trigger] v[j]).0 != "blocks"@ by {}
        law_entries_are_shown(v, 7, "blocks"@);
        assert forall|j: int| 8 < j < v.len() implies (#[trigger] v[j]).0 != "reward_btc"@ by {}
        law_entries_are_shown(v, 8, "reward_btc"@);
        law_entries_are_shown(v, 9, "expected_btc_day"@);
    }
}

} // verus!
