//! The MINE tab: header, tiles, workers and log.

use crate::api::mode_label;
use crate::chirp::{place_of_addr, ChirpInfo, ChirpInfoV};
use crate::config::PoolMode;
use crate::feeds::{CarouselInfo, CarouselV};
use crate::grinder::SECOND;
use crate::paint::{
    add_row, badge, bold, dim, ink, mode_ink, no_rows, raw, rows, tiles, Card, CardV, Ink, Look, PieceV, Row, Tile,
    TileV,
};
use crate::session::{passed, since};
use crate::stats::{strings, Stats, StatsV};
use crate::text::{
    cat2, cat3, cat4, cat5, contains, contains_text, dec, dec_text, pad_left, pad_right, padded_left, padded_right, same,
};
use vstd::prelude::*;

verus! {

// ------------------------------------------------------------------- header

/// The user's place in the syndicate, with the numbers as they are shown: the
/// share in percent, the tenure, and the tenure that is asked for.
pub struct ChirpTexts {
    pub pct: String,
    pub days: String,
    pub min_days: String,
}

/// What the header shows, besides the counts.
pub struct HeaderIn {
    pub mode: PoolMode,
    pub network: String,
    pub endpoint: String,
    pub worker: String,
    /// Whether the chain uses BLAKE2b, where that is known.
    pub active: Option<bool>,
    pub activation_height: u64,
    pub blocks_until: u64,
    /// A newer version, if there is one.
    pub update: Option<String>,
    /// The balance in BTC, where it is known, and the donation in percent, if
    /// any, as shown.
    pub balance: Option<String>,
    pub donation: Option<String>,
    /// When the engine last ran, if it has.
    pub last_tick: Option<u64>,
}

/// Whether the engine has stopped though it should mine: for 20 seconds it has
/// not run.
pub open spec fn engine_stalled(h: HeaderIn, st: StatsV, now: u64) -> bool {
    st.connected && !st.paused && h.active != Some(false) && h.last_tick is Some && passed(h.last_tick->0, now) > 20
        * SECOND
}

/// The state that the header shows.
pub open spec fn state_dot(h: HeaderIn, st: StatsV, now: u64) -> PieceV {
    if st.paused {
        bold("⏸ PAUSED"@, Ink::Yellow)
    } else if h.active == Some(false) {
        bold("⏳ WAITING · SHA-256d"@, Ink::Amber)
    } else if engine_stalled(h, st, now) {
        bold("⚠ ENGINE STALLED"@, Ink::Red)
    } else if st.connected {
        ink("● LIVE"@, Ink::Green)
    } else {
        ink("● OFFLINE"@, Ink::Red)
    }
}

/// The badge of a network.
pub open spec fn network_badge(network: Seq<char>) -> PieceV {
    if network == "mainnet"@ {
        badge(" MAINNET "@, (Look { ink: Ink::Black, bold: true, on: Ink::Green }))
    } else if network == "testnet4"@ {
        badge(" TESTNET4 "@, (Look { ink: Ink::Black, bold: true, on: Ink::Yellow }))
    } else {
        badge(" REGTEST "@, (Look { ink: Ink::Black, bold: true, on: Ink::Amber }))
    }
}

/// A mode's sign.
pub open spec fn mode_icon(m: PoolMode) -> Seq<char> {
    match m {
        PoolMode::Lotto => "🎰"@,
        PoolMode::Chirp => "🌌"@,
        PoolMode::Carousel => "🎠"@,
        PoolMode::Custom => "⛏"@,
    }
}

/// The header's first line: mode, network, state and pool; whether the chain
/// is not ready yet; and whether there is a newer version.
pub open spec fn header_first(h: HeaderIn, st: StatsV, now: u64) -> Seq<PieceV> {
    let l = seq![
        bold(mode_icon(h.mode) + " "@ + mode_label(h.mode) + " BLAKE2b"@, mode_ink(h.mode)),
        raw("  "@),
        network_badge(h.network@),
        raw("  "@),
        state_dot(h, st, now),
        dim("   "@ + h.endpoint@),
    ];
    let l2 = if h.active == Some(false) {
        l.push(
            ink(
                "   ⛔ BLAKE2b @ "@ + dec(h.activation_height as nat) + " ("@ + dec(h.blocks_until as nat)
                    + " to go) — not mining, saving power"@,
                Ink::Amber,
            ),
        )
    } else {
        l
    };
    match h.update {
        Some(v) => l2.push(bold("   ⬆ v"@ + v@ + " — git pull && ./build.sh"@, Ink::Pink)),
        None => l2,
    }
}

/// The user's address, worker and balance.
pub open spec fn address_row(h: HeaderIn, st: StatsV) -> Seq<PieceV> {
    seq![
        dim("your address  "@),
        ink(st.addr, Ink::Cyan),
        dim(if h.worker@.len() == 0 { Seq::empty() } else { "."@ + h.worker@ }),
        ink(
            match h.balance {
                Some(b) => "   balance "@ + b@ + " BTC"@,
                None => "   balance —"@,
            },
            Ink::Green,
        ),
        raw("   "@),
    ]
}

/// What the syndicate pays the user.
pub open spec fn chirp_payout(c: Option<ChirpInfoV>, addr: Seq<char>, t: ChirpTexts) -> PieceV {
    match c {
        None => dim("weighted split · loading the coinbase draw…"@),
        Some(c) => {
            let i = place_of_addr(c.members, addr);
            if i < 0 {
                ink("not in the coinbase draw yet · mine here to enter"@, Ink::Amber)
            } else if c.members[i].eligible {
                bold("your slice of every block  "@ + t.pct@ + "%"@, Ink::Purple)
            } else {
                ink("joining the draw · "@ + t.days@ + " of "@ + t.min_days@ + " days"@, Ink::Amber)
            }
        },
    }
}

/// A mode's payout in few words.
pub open spec fn short_payout(m: PoolMode) -> Seq<char> {
    match m {
        PoolMode::Lotto => "keep 99.1% · fee 0.9%"@,
        PoolMode::Chirp => "weighted split · fee 0.9%"@,
        PoolMode::Carousel => "keep 96% · supplier 3% · fee 1%"@,
        PoolMode::Custom => "operator's rules"@,
    }
}

/// Who gets paid, and what is donated.
pub open spec fn payout_pieces(
    h: HeaderIn,
    c: Option<ChirpInfoV>,
    addr: Seq<char>,
    t: ChirpTexts,
) -> Seq<PieceV> {
    let p = match h.mode {
        PoolMode::Chirp => seq![chirp_payout(c, addr, t), dim(" · fee 0.9%"@)],
        PoolMode::Custom => seq![dim(short_payout(h.mode))],
        _ => seq![ink(short_payout(h.mode), Ink::Pink)],
    };
    match h.donation {
        Some(d) => p.push(ink(" · donation "@ + d@ + "% → PyBLØCK"@, Ink::Amber)),
        None => p,
    }
}

/// Whether a screen is so narrow that the payout gets a line of its own.
pub open spec fn is_narrow(width: u16) -> bool {
    width < 132
}

/// How many rows the header takes.
pub fn header_rows(width: u16) -> (r: u16)
    ensures
        r == if is_narrow(width) { 5u16 } else { 4u16 },
{
    if width < 132 { 5 } else { 4 }
}

/// A mode in a few words.
pub open spec fn mode_tagline(m: PoolMode) -> Seq<char> {
    match m {
        PoolMode::Lotto => "solo lottery"@,
        PoolMode::Chirp => "syndicate · weighted split"@,
        PoolMode::Carousel => "rotating clean templates"@,
        PoolMode::Custom => "custom stratum"@,
    }
}

/// The header.
pub open spec fn header_card(
    h: HeaderIn,
    st: StatsV,
    c: Option<ChirpInfoV>,
    t: ChirpTexts,
    width: u16,
    now: u64,
) -> CardV {
    let first = header_first(h, st, now);
    let addr = address_row(h, st);
    let pay = payout_pieces(h, c, st.addr, t);
    CardV {
        title: "⛏ Bitcoin BLAKE2b · "@ + mode_tagline(h.mode),
        accent: mode_ink(h.mode),
        lines: if is_narrow(width) {
            seq![first, addr, seq![dim("payout        "@)] + pay]
        } else {
            seq![first, addr + pay]
        },
    }
}

/// What is known of the syndicate, if anything.
pub open spec fn info_of(c: Option<ChirpInfo>) -> Option<ChirpInfoV> {
    match c {
        Some(c) => Some(c@),
        None => None,
    }
}

/// Whether the engine has stopped though it should mine.
pub fn stalled(h: &HeaderIn, st: &Stats, now: u64) -> (r: bool)
    ensures
        r == engine_stalled(*h, st@, now),
{
    let gated = match h.active {
        Some(false) => true,
        _ => false,
    };
    let late = match h.last_tick {
        Some(t) => since(t, now) > 20 * SECOND,
        None => false,
    };
    st.connected && !st.paused && !gated && late
}

fn first_row(h: &HeaderIn, st: &Stats, now: u64) -> (r: Row)
    ensures
        r@ == header_first(*h, st@, now),
{
    let gated = match h.active {
        Some(false) => true,
        _ => false,
    };
    let mut r = Row::new();
    r.add_bold(cat4(h.mode.icon(), " ", h.mode.label(), " BLAKE2b").as_str(), h.mode.accent());
    r.add_raw("  ");
    if same(h.network.as_str(), "mainnet") {
        r.add_look(" MAINNET ", Look { ink: Ink::Black, bold: true, on: Ink::Green });
    } else if same(h.network.as_str(), "testnet4") {
        r.add_look(" TESTNET4 ", Look { ink: Ink::Black, bold: true, on: Ink::Yellow });
    } else {
        r.add_look(" REGTEST ", Look { ink: Ink::Black, bold: true, on: Ink::Amber });
    }
    r.add_raw("  ");
    if st.paused {
        r.add_bold("⏸ PAUSED", Ink::Yellow);
    } else if gated {
        r.add_bold("⏳ WAITING · SHA-256d", Ink::Amber);
    } else if stalled(h, st, now) {
        r.add_bold("⚠ ENGINE STALLED", Ink::Red);
    } else if st.connected {
        r.add_ink("● LIVE", Ink::Green);
    } else {
        r.add_ink("● OFFLINE", Ink::Red);
    }
    r.add_dim(cat2("   ", h.endpoint.as_str()).as_str());
    assert(r@ =~= seq![
        bold(mode_icon(h.mode) + " "@ + mode_label(h.mode) + " BLAKE2b"@, mode_ink(h.mode)),
        raw("  "@),
        network_badge(h.network@),
        raw("  "@),
        state_dot(*h, st@, now),
        dim("   "@ + h.endpoint@),
    ]);
    if gated {
        let height = dec_text(h.activation_height);
        let left = dec_text(h.blocks_until);
        r.add_ink(
            cat5("   ⛔ BLAKE2b @ ", height.as_str(), " (", left.as_str(), " to go) — not mining, saving power").as_str(),
            Ink::Amber,
        );
    }
    match &h.update {
        Some(v) => {
            r.add_bold(cat3("   ⬆ v", v.as_str(), " — git pull && ./build.sh").as_str(), Ink::Pink);
        },
        None => {},
    }
    r
}

fn addr_row(h: &HeaderIn, st: &Stats) -> (r: Row)
    ensures
        r@ == address_row(*h, st@),
{
    let mut r = Row::new();
    r.add_dim("your address  ");
    r.add_ink(st.addr.as_str(), Ink::Cyan);
    if h.worker.as_str().is_empty() {
        let e = String::new();
        assert(e@ =~= Seq::<char>::empty());
        r.add_dim(e.as_str());
    } else {
        r.add_dim(cat2(".", h.worker.as_str()).as_str());
    }
    match &h.balance {
        Some(b) => {
            r.add_ink(cat3("   balance ", b.as_str(), " BTC").as_str(), Ink::Green);
        },
        None => {
            r.add_ink("   balance —", Ink::Green);
        },
    }
    r.add_raw("   ");
    assert(r@ =~= address_row(*h, st@));
    r
}

fn add_chirp_payout(r: &mut Row, c: &Option<ChirpInfo>, addr: &str, t: &ChirpTexts)
    ensures
        final(r)@ == old(r)@.push(chirp_payout(info_of(*c), addr@, *t)),
{
    match c {
        None => {
            r.add_dim("weighted split · loading the coinbase draw…");
        },
        Some(c) => match c.me(addr) {
            Some(m) => {
                if m.eligible {
                    r.add_bold(cat3("your slice of every block  ", t.pct.as_str(), "%").as_str(), Ink::Purple);
                } else {
                    r.add_ink(
                        cat5("joining the draw · ", t.days.as_str(), " of ", t.min_days.as_str(), " days").as_str(),
                        Ink::Amber,
                    );
                }
            },
            None => {
                r.add_ink("not in the coinbase draw yet · mine here to enter", Ink::Amber);
            },
        },
    }
}

fn payout_row(h: &HeaderIn, c: &Option<ChirpInfo>, addr: &str, t: &ChirpTexts) -> (r: Row)
    ensures
        r@ == payout_pieces(*h, info_of(*c), addr@, *t),
{
    let mut r = Row::new();
    match h.mode {
        PoolMode::Chirp => {
            add_chirp_payout(&mut r, c, addr, t);
            r.add_dim(" · fee 0.9%");
            assert(r@ =~= seq![chirp_payout(info_of(*c), addr@, *t), dim(" · fee 0.9%"@)]);
        },
        PoolMode::Custom => {
            r.add_dim(h.mode.payout_short());
            assert(r@ =~= seq![dim(short_payout(h.mode))]);
        },
        _ => {
            r.add_ink(h.mode.payout_short(), Ink::Pink);
            assert(r@ =~= seq![ink(short_payout(h.mode), Ink::Pink)]);
        },
    }
    match &h.donation {
        Some(d) => {
            r.add_ink(cat3(" · donation ", d.as_str(), "% → PyBLØCK").as_str(), Ink::Amber);
        },
        None => {},
    }
    r
}

/// Draws the header.
pub fn header(h: &HeaderIn, st: &Stats, c: &Option<ChirpInfo>, t: &ChirpTexts, width: u16, now: u64) -> (r: Card)
    ensures
        r@ == header_card(*h, st@, info_of(*c), *t, width, now),
{
    let mut lines = no_rows();
    add_row(&mut lines, first_row(h, st, now));
    let mut addr = addr_row(h, st);
    let pay = payout_row(h, c, st.addr.as_str(), t);
    if header_rows(width) == 5 {
        add_row(&mut lines, addr);
        let mut last = Row::new();
        last.add_dim("payout        ");
        assert(last@ =~= seq![dim("payout        "@)]);
        last.extend(pay);
        add_row(&mut lines, last);
    } else {
        addr.extend(pay);
        add_row(&mut lines, addr);
    }
    let ghost want = header_card(*h, st@, info_of(*c), *t, width, now);
    assert(rows(lines@) =~= want.lines);
    Card { title: cat2("⛏ Bitcoin BLAKE2b · ", h.mode.tagline()), accent: h.mode.accent(), lines }
}

/// Law: a paused miner is never shown as live, nor is one that waits for the
/// chain or whose engine has stopped.
pub proof fn law_live_means_mining(h: HeaderIn, st: StatsV, now: u64)
    ensures
        state_dot(h, st, now) == ink("● LIVE"@, Ink::Green) ==> st.connected && !st.paused && h.active != Some(false)
            && !engine_stalled(h, st, now),
{
    reveal_strlit("● LIVE");
    reveal_strlit("● OFFLINE");
}

// -------------------------------------------------------------------- tiles

/// The user's tiles. `rate`, `diff` and `best` are the hashrate, the
/// difficulty and the best difficulty as shown.
pub open spec fn your_tiles(
    st: StatsV,
    rate: Seq<char>,
    workers: nat,
    diff: Seq<char>,
    best: Seq<char>,
) -> Seq<TileV> {
    seq![
        TileV {
            title: "YOUR HASHRATE"@,
            value: seq![bold(rate, Ink::Green), dim(" GH/s"@)],
            sub: dec(workers) + " worker(s)"@,
            accent: Ink::Muted,
        },
        TileV {
            title: "BLOCKS FOUND"@,
            value: seq![bold(dec(st.blocks as nat), Ink::Green)],
            sub: dec(st.accepted as nat) + " shares acc · "@ + dec(st.rejected as nat) + " rej · "@ + dec(
                st.donated as nat,
            ) + " don"@,
            accent: Ink::Muted,
        },
        TileV {
            title: "DIFFICULTY"@,
            value: seq![bold("bits "@ + dec(st.bits as nat), Ink::Yellow)],
            sub: "diff "@ + diff + " · best "@ + best,
            accent: Ink::Muted,
        },
    ]
}

/// Makes a tile whose value is one bold text.
pub fn bold_tile(title: &str, value: &str, c: Ink, sub: String, accent: Ink) -> (r: Tile)
    ensures
        r@ == (TileV { title: title@, value: seq![bold(value@, c)], sub: sub@, accent }),
{
    let mut v = Row::new();
    v.add_bold(value, c);
    assert(v@ =~= seq![bold(value@, c)]);
    Tile { title: title.to_owned(), value: v, sub, accent }
}

/// Makes a tile whose value is a bold text and a unit.
pub fn unit_tile(title: &str, value: &str, c: Ink, unit: &str, sub: String, accent: Ink) -> (r: Tile)
    ensures
        r@ == (TileV { title: title@, value: seq![bold(value@, c), dim(unit@)], sub: sub@, accent }),
{
    let mut v = Row::new();
    v.add_bold(value, c);
    v.add_dim(unit);
    assert(v@ =~= seq![bold(value@, c), dim(unit@)]);
    Tile { title: title.to_owned(), value: v, sub, accent }
}

/// Draws the user's tiles.
pub fn show_your_tiles(st: &Stats, rate: &str, workers: usize, diff: &str, best: &str) -> (r: Vec<Tile>)
    ensures
        tiles(r@) == your_tiles(st@, rate@, workers as nat, diff@, best@),
{
    let mut r: Vec<Tile> = Vec::new();
    r.push(
        unit_tile(
            "YOUR HASHRATE",
            rate,
            Ink::Green,
            " GH/s",
            cat2(dec_text(workers as u64).as_str(), " worker(s)"),
            Ink::Muted,
        ),
    );
    let mut sub = cat5(
        dec_text(st.accepted).as_str(),
        " shares acc · ",
        dec_text(st.rejected).as_str(),
        " rej · ",
        dec_text(st.donated).as_str(),
    );
    sub.append(" don");
    r.push(bold_tile("BLOCKS FOUND", dec_text(st.blocks).as_str(), Ink::Green, sub, Ink::Muted));
    r.push(
        bold_tile(
            "DIFFICULTY",
            cat2("bits ", dec_text(st.bits as u64).as_str()).as_str(),
            Ink::Yellow,
            cat4("diff ", diff, " · best ", best),
            Ink::Muted,
        ),
    );
    assert(tiles(r@) =~= your_tiles(st@, rate@, workers as nat, diff@, best@));
    r
}

/// The numbers of the network's tiles, as shown.
pub struct NetTexts {
    /// The hashrate of the syndicate, of the rotation, or of the network.
    pub rate: String,
    /// The last reward in BTC, if there was one, and the user's cut of it, if
    /// they have one.
    pub reward: Option<String>,
    pub cut: Option<String>,
    /// How many miners are online, and the height, where they are known.
    pub miners: Option<u64>,
    pub height: u64,
}

/// A dash.
pub open spec fn dash() -> Seq<char> {
    "—"@
}

/// A text, or a dash.
pub open spec fn text_or_dash(t: Option<String>) -> Seq<char> {
    match t {
        Some(s) => s@,
        None => dash(),
    }
}

/// The syndicate's tiles.
pub open spec fn chirp_tiles(c: ChirpInfoV, t: NetTexts) -> Seq<TileV> {
    seq![
        TileV {
            title: "◈ IN THE COINBASE"@,
            value: seq![bold(dec(c.candidates as nat), Ink::Purple)],
            sub: "eligible miners · "@ + dec(c.workers as nat) + " workers"@,
            accent: Ink::Purple,
        },
        TileV {
            title: "◈ SYNDICATE HASHRATE"@,
            value: seq![bold(t.rate@, Ink::Purple)],
            sub: dec(c.blocks as nat) + " blocks found together"@,
            accent: Ink::Purple,
        },
        TileV {
            title: "◈ LAST BLOCK REWARD"@,
            value: seq![bold(text_or_dash(t.reward), Ink::Purple), dim(" BTC"@)],
            sub: match t.cut {
                Some(s) => "your cut ≈ "@ + s@ + " BTC"@,
                None => "split by weight among eligible miners"@,
            },
            accent: Ink::Purple,
        },
    ]
}

/// The rotation's tiles.
pub open spec fn carousel_tiles(k: CarouselV, t: NetTexts) -> Seq<TileV> {
    seq![
        TileV {
            title: "◈ SUPPLIERS"@,
            value: seq![bold(dec(k.suppliers.len()), Ink::White)],
            sub: "clean templates in rotation"@,
            accent: Ink::White,
        },
        TileV {
            title: "◈ CAROUSEL HASHRATE"@,
            value: seq![bold(t.rate@, Ink::White)],
            sub: dec(k.miners as nat) + " miners on the rotation"@,
            accent: Ink::White,
        },
        TileV {
            title: "◈ NOW MINING"@,
            value: seq![bold(if k.current.len() == 0 { dash() } else { k.current }, Ink::White)],
            sub: "this supplier's template · rotates every cycle"@,
            accent: Ink::White,
        },
    ]
}

/// The network's tiles.
pub open spec fn plain_tiles(mode: PoolMode, t: NetTexts) -> Seq<TileV> {
    let known = t.miners is Some;
    seq![
        TileV {
            title: "◈ MINERS ONLINE"@,
            value: seq![bold(if known { dec(t.miners->0 as nat) } else { dash() }, Ink::Cyan)],
            sub: "using pyblockMiner"@,
            accent: Ink::Cyan,
        },
        TileV {
            title: "◈ NETWORK HASHRATE"@,
            value: seq![bold(if known { t.rate@ } else { dash() }, Ink::Cyan)],
            sub: "all pyblockMiner users"@,
            accent: Ink::Cyan,
        },
        TileV {
            title: "◈ POOL HEIGHT"@,
            value: seq![bold(if known { dec(t.height as nat) } else { dash() }, Ink::Cyan)],
            sub: match mode {
                PoolMode::Chirp => "syndicate data loading…"@,
                PoolMode::Carousel => "rotation data loading…"@,
                _ => "PyBLØCK LOTTO network"@,
            },
            accent: Ink::Cyan,
        },
    ]
}

/// What is known of the rotation, if anything.
pub open spec fn rotation_of(k: Option<CarouselInfo>) -> Option<CarouselV> {
    match k {
        Some(k) => Some(k@),
        None => None,
    }
}

/// The network's tiles, by mode: the syndicate's, the rotation's, or the
/// network's own while there is nothing else to show.
pub open spec fn net_tiles(
    mode: PoolMode,
    c: Option<ChirpInfoV>,
    k: Option<CarouselV>,
    t: NetTexts,
) -> Seq<TileV> {
    if mode == PoolMode::Chirp && c is Some {
        chirp_tiles(c->0, t)
    } else if mode == PoolMode::Carousel && k is Some {
        carousel_tiles(k->0, t)
    } else {
        plain_tiles(mode, t)
    }
}

fn show_chirp_tiles(c: &ChirpInfo, t: &NetTexts) -> (r: Vec<Tile>)
    ensures
        tiles(r@) == chirp_tiles(c@, *t),
{
    let mut r: Vec<Tile> = Vec::new();
    r.push(
        bold_tile(
            "◈ IN THE COINBASE",
            dec_text(c.candidates).as_str(),
            Ink::Purple,
            cat3("eligible miners · ", dec_text(c.workers).as_str(), " workers"),
            Ink::Purple,
        ),
    );
    r.push(
        bold_tile(
            "◈ SYNDICATE HASHRATE",
            t.rate.as_str(),
            Ink::Purple,
            cat2(dec_text(c.blocks).as_str(), " blocks found together"),
            Ink::Purple,
        ),
    );
    let reward = match &t.reward {
        Some(s) => s.clone(),
        None => "—".to_owned(),
    };
    let cut = match &t.cut {
        Some(s) => cat3("your cut ≈ ", s.as_str(), " BTC"),
        None => "split by weight among eligible miners".to_owned(),
    };
    r.push(unit_tile("◈ LAST BLOCK REWARD", reward.as_str(), Ink::Purple, " BTC", cut, Ink::Purple));
    assert(tiles(r@) =~= chirp_tiles(c@, *t));
    r
}

fn show_carousel_tiles(k: &CarouselInfo, t: &NetTexts) -> (r: Vec<Tile>)
    ensures
        tiles(r@) == carousel_tiles(k@, *t),
{
    let mut r: Vec<Tile> = Vec::new();
    r.push(
        bold_tile(
            "◈ SUPPLIERS",
            dec_text(k.suppliers.len() as u64).as_str(),
            Ink::White,
            "clean templates in rotation".to_owned(),
            Ink::White,
        ),
    );
    r.push(
        bold_tile(
            "◈ CAROUSEL HASHRATE",
            t.rate.as_str(),
            Ink::White,
            cat2(dec_text(k.miners).as_str(), " miners on the rotation"),
            Ink::White,
        ),
    );
    let cur = if k.current.as_str().is_empty() { "—".to_owned() } else { k.current.clone() };
    r.push(
        bold_tile(
            "◈ NOW MINING",
            cur.as_str(),
            Ink::White,
            "this supplier's template · rotates every cycle".to_owned(),
            Ink::White,
        ),
    );
    assert(tiles(r@) =~= carousel_tiles(k@, *t));
    r
}

fn show_plain_tiles(mode: PoolMode, t: &NetTexts) -> (r: Vec<Tile>)
    ensures
        tiles(r@) == plain_tiles(mode, *t),
{
    let (miners, rate, height) = match t.miners {
        Some(n) => (dec_text(n), t.rate.clone(), dec_text(t.height)),
        None => ("—".to_owned(), "—".to_owned(), "—".to_owned()),
    };
    let sub = match mode {
        PoolMode::Chirp => "syndicate data loading…".to_owned(),
        PoolMode::Carousel => "rotation data loading…".to_owned(),
        _ => "PyBLØCK LOTTO network".to_owned(),
    };
    let mut r: Vec<Tile> = Vec::new();
    r.push(bold_tile("◈ MINERS ONLINE", miners.as_str(), Ink::Cyan, "using pyblockMiner".to_owned(), Ink::Cyan));
    r.push(
        bold_tile("◈ NETWORK HASHRATE", rate.as_str(), Ink::Cyan, "all pyblockMiner users".to_owned(), Ink::Cyan),
    );
    r.push(bold_tile("◈ POOL HEIGHT", height.as_str(), Ink::Cyan, sub, Ink::Cyan));
    assert(tiles(r@) =~= plain_tiles(mode, *t));
    r
}

/// Draws the network's tiles.
pub fn show_net_tiles(
    mode: PoolMode,
    c: &Option<ChirpInfo>,
    k: &Option<CarouselInfo>,
    t: &NetTexts,
) -> (r: Vec<Tile>)
    ensures
        tiles(r@) == net_tiles(mode, info_of(*c), rotation_of(*k), *t),
{
    match (mode, c, k) {
        (PoolMode::Chirp, Some(c), _) => show_chirp_tiles(c, t),
        (PoolMode::Carousel, _, Some(k)) => show_carousel_tiles(k, t),
        _ => show_plain_tiles(mode, t),
    }
}

// ------------------------------------------------------------------ workers

/// A worker's name; a numbered one where it is not known.
pub open spec fn name_or(names: Seq<Seq<char>>, i: int, other: Seq<char>) -> Seq<char> {
    if 0 <= i < names.len() { names[i] } else { other + dec(i as nat) }
}

/// A worker's line: its number, its name, and its rate as shown or that it is
/// down.
pub open spec fn worker_row(
    names: Seq<Seq<char>>,
    rates: Seq<Seq<char>>,
    dead: Seq<bool>,
    i: int,
) -> Seq<PieceV> {
    let down = i < dead.len() && dead[i];
    let head = seq![
        dim("  "@ + padded_left(dec(i as nat), 2, ' ') + "  "@),
        ink(padded_right(name_or(names, i, "GPU "@), 28), if down { Ink::Muted } else { Ink::White }),
    ];
    if down {
        head.push(ink("○ offline · auto-respawning"@, Ink::Red))
    } else {
        head.push(bold(padded_left(rates[i], 7, ' '), Ink::Green)).push(dim(" GH/s"@))
    }
}

/// The workers' lines.
pub open spec fn worker_rows(names: Seq<Seq<char>>, rates: Seq<Seq<char>>, dead: Seq<bool>) -> Seq<Seq<PieceV>> {
    if rates.len() == 0 {
        seq![seq![dim("  warming up…"@)]]
    } else {
        Seq::new(rates.len(), |i: int| worker_row(names, rates, dead, i))
    }
}

/// A worker's name.
pub fn worker_label(names: &Vec<String>, i: usize, other: &str) -> (r: String)
    ensures
        r@ == name_or(strings(names@), i as int, other@),
{
    if i < names.len() {
        names[i].clone()
    } else {
        cat2(other, dec_text(i as u64).as_str())
    }
}

fn show_worker_row(names: &Vec<String>, rates: &Vec<String>, dead: &Vec<bool>, i: usize) -> (r: Row)
    requires
        i < rates@.len(),
    ensures
        r@ == worker_row(strings(names@), strings(rates@), dead@, i as int),
{
    let down = i < dead.len() && dead[i];
    let mut r = Row::new();
    let number = pad_left(dec_text(i as u64).as_str(), 2, ' ');
    r.add_dim(cat3("  ", number.as_str(), "  ").as_str());
    let name = worker_label(names, i, "GPU ");
    r.add_ink(pad_right(name.as_str(), 28).as_str(), if down { Ink::Muted } else { Ink::White });
    if down {
        r.add_ink("○ offline · auto-respawning", Ink::Red);
    } else {
        r.add_bold(pad_left(rates[i].as_str(), 7, ' ').as_str(), Ink::Green);
        r.add_dim(" GH/s");
    }
    assert(r@ =~= worker_row(strings(names@), strings(rates@), dead@, i as int));
    r
}

/// Draws the workers.
pub fn show_workers(names: &Vec<String>, rates: &Vec<String>, dead: &Vec<bool>) -> (r: Vec<Row>)
    ensures
        rows(r@) == worker_rows(strings(names@), strings(rates@), dead@),
{
    let mut r = no_rows();
    let mut i: usize = 0;
    while i < rates.len()
        invariant
            i <= rates@.len(),
            rows(r@) == Seq::new(i as nat, |j: int| worker_row(strings(names@), strings(rates@), dead@, j)),
        decreases rates@.len() - i,
    {
        let row = show_worker_row(names, rates, dead, i);
        add_row(&mut r, row);
        i = i + 1;
        assert(rows(r@) =~= Seq::new(i as nat, |j: int| worker_row(strings(names@), strings(rates@), dead@, j)));
    }
    if rates.len() == 0 {
        let mut w = Row::new();
        w.add_dim("  warming up…");
        assert(w@ =~= seq![dim("  warming up…"@)]);
        add_row(&mut r, w);
    }
    assert(rows(r@) =~= worker_rows(strings(names@), strings(rates@), dead@));
    r
}

// ---------------------------------------------------------------------- log

/// The colour of a log line.
pub open spec fn log_ink(l: Seq<char>) -> Ink {
    if contains_text(l, "BLOCK FOUND"@) {
        Ink::Green
    } else if contains_text(l, "donation"@) || contains_text(l, "rejected"@) || contains_text(l, "stale"@)
        || contains_text(l, "switching"@) {
        Ink::Amber
    } else {
        Ink::Muted
    }
}

/// The last log lines that fit in a box of a height.
pub open spec fn log_rows(log: Seq<Seq<char>>, height: u16) -> Seq<Seq<PieceV>> {
    let n: nat = if height < 2 { 0 } else { (height - 2) as nat };
    let shown = if log.len() <= n { log } else { log.skip(log.len() - n) };
    Seq::new(shown.len(), |i: int| seq![ink("  "@ + shown[i], log_ink(shown[i]))])
}

/// Draws the log.
pub fn show_log(st: &Stats, height: u16) -> (r: Vec<Row>)
    ensures
        rows(r@) == log_rows(st@.log, height),
{
    let n: usize = if height < 2 { 0 } else { (height - 2) as usize };
    let from: usize = if st.log.len() <= n { 0 } else { st.log.len() - n };
    let ghost want = log_rows(st@.log, height);
    let mut r = no_rows();
    let mut i: usize = from;
    while i < st.log.len()
        invariant
            from <= i <= st.log@.len(),
            want.len() == st.log@.len() - from,
            from == if st.log@.len() <= n { 0 } else { st.log@.len() - n },
            n == if height < 2 { 0int } else { height - 2 },
            want == log_rows(st@.log, height),
            rows(r@) == want.take(i - from),
        decreases st.log@.len() - i,
    {
        let l = st.log[i].as_str();
        let c = if contains(l, "BLOCK FOUND") {
            Ink::Green
        } else if contains(l, "donation") || contains(l, "rejected") || contains(l, "stale") || contains(l, "switching") {
            Ink::Amber
        } else {
            Ink::Muted
        };
        let mut row = Row::new();
        row.add_ink(cat2("  ", l).as_str(), c);
        assert(row@ =~= want[i - from]) by {
            assert(st@.log[i as int] == l@);
        }
        add_row(&mut r, row);
        i = i + 1;
        assert(rows(r@) =~= want.take(i - from));
    }
    assert(want.take(i - from) =~= want);
    r
}

// ------------------------------------------------------------------- layout

/// How many rows the workers' box takes: one for each, within limits.
pub open spec fn worker_box(workers: nat) -> u16 {
    let n = if workers < 1 { 1 } else { workers };
    if n + 2 < 9 { (n + 2) as u16 } else { 9 }
}

/// How many rows the workers' box takes.
pub fn gpu_rows(workers: usize) -> (r: u16)
    ensures
        r == worker_box(workers as nat),
{
    if workers < 1 { 3 } else if workers < 7 { (workers + 2) as u16 } else { 9 }
}

/// How many rows the mode's panel takes on MINE: what it wants, as far as the
/// screen can spare them, and five at least.
pub open spec fn panel_rows(want: int, width: u16, height: u16, workers: nat) -> int {
    let fixed = (if is_narrow(width) { 5int } else { 4 }) + 20 + worker_box(workers);
    let spare = if height >= fixed { height - fixed } else { 0 };
    let n = if want + 2 < spare { want + 2 } else { spare };
    if n < 5 { 5 } else { n }
}

/// How many rows the mode's panel takes on MINE.
pub fn panel_height(want: u128, width: u16, height: u16, workers: usize) -> (r: u16)
    ensures
        r == panel_rows(want as int, width, height, workers as nat),
{
    let fixed: u16 = header_rows(width) + 20 + gpu_rows(workers);
    let spare: u16 = if height >= fixed { height - fixed } else { 0 };
    let n: u16 = if spare >= 2 && want < (spare - 2) as u128 { (want as u16) + 2 } else { spare };
    if n < 5 { 5 } else { n }
}

// --------------------------------------------------------------------- laws

/// Law: the header tells in this order whether the miner is paused, whether it
/// waits for the chain, whether the engine has stopped for more than 20 seconds,
/// and whether it is connected.
pub proof fn law_states_are_told(h: HeaderIn, st: StatsV, now: u64)
    ensures
        ({
            let t = state_dot(h, st, now).text;
            let late = h.last_tick is Some && now - h.last_tick->0 > 20_000_000_000;
            &&& st.paused ==> t == "⏸ PAUSED"@
            &&& !st.paused && h.active == Some(false) ==> t == "⏳ WAITING · SHA-256d"@
            &&& !st.paused && h.active != Some(false) && st.connected && late ==> t == "⚠ ENGINE STALLED"@
            &&& !st.paused && h.active != Some(false) && st.connected && !late ==> t == "● LIVE"@
            &&& !st.paused && h.active != Some(false) && !st.connected ==> t == "● OFFLINE"@
        }),
{
}

/// Law: the header names the pool and the network, and the address that is
/// mined to with its balance; a newer version stands at the end of its first
/// line.
pub proof fn law_header_names_pool_and_address(
    h: HeaderIn,
    st: StatsV,
    c: Option<ChirpInfoV>,
    t: ChirpTexts,
    width: u16,
    now: u64,
)
    ensures
        ({
            let l = header_card(h, st, c, t, width, now).lines;
            &&& l.len() == if width < 132 { 3nat } else { 2 }
            &&& l[0].len() >= 6
            &&& l[0][4] == state_dot(h, st, now)
            &&& l[0][5].text == "   "@ + h.endpoint@
            &&& h.network@ == "mainnet"@ ==> l[0][2].text == " MAINNET "@
            &&& h.network@ == "testnet4"@ && h.network@ != "mainnet"@ ==> l[0][2].text == " TESTNET4 "@
            &&& h.network@ != "mainnet"@ && h.network@ != "testnet4"@ ==> l[0][2].text == " REGTEST "@
            &&& h.update matches Some(v) ==> l[0].last().text == "   ⬆ v"@ + v@ + " — git pull && ./build.sh"@
            &&& h.update is None && h.active != Some(false) ==> l[0].len() == 6
            &&& l[1].len() >= 5
            &&& l[1][1].text == st.addr
            &&& h.worker@.len() > 0 ==> l[1][2].text == "."@ + h.worker@
            &&& h.worker@.len() == 0 ==> l[1][2].text.len() == 0
            &&& h.balance matches Some(b) ==> l[1][3].text == "   balance "@ + b@ + " BTC"@
            &&& h.donation matches Some(d) ==> l.last().last().text == " · donation "@ + d@ + "% → PyBLØCK"@
        }),
{
}

/// Law: a miner that waits for the chain says for how many blocks.
pub proof fn law_waiting_tells_the_blocks(h: HeaderIn, st: StatsV, now: u64)
    requires
        h.active == Some(false),
    ensures
        header_first(h, st, now).len() >= 7,
        header_first(h, st, now)[6].text == "   ⛔ BLAKE2b @ "@ + dec(h.activation_height as nat) + " ("@ + dec(
            h.blocks_until as nat,
        ) + " to go) — not mining, saving power"@,
{
}

/// Law: CHIRP promises its share to an eligible member, tells a member that is
/// not eligible how far they are, and tells others that they are not listed.
pub proof fn law_payouts_follow_the_standing(c: ChirpInfoV, addr: Seq<char>, t: ChirpTexts)
    ensures
        ({
            let i = place_of_addr(c.members, addr);
            let p = chirp_payout(Some(c), addr, t).text;
            &&& i < 0 ==> p == "not in the coinbase draw yet · mine here to enter"@
            &&& i >= 0 && c.members[i].eligible ==> p == "your slice of every block  "@ + t.pct@ + "%"@
            &&& i >= 0 && !c.members[i].eligible ==> p == "joining the draw · "@ + t.days@ + " of "@ + t.min_days@
                + " days"@
        }),
{
}

/// Law: the user's tiles show the rate, the blocks, the shares and the
/// difficulty.
pub proof fn law_tiles_show_the_counts(
    st: StatsV,
    rate: Seq<char>,
    workers: nat,
    diff: Seq<char>,
    best: Seq<char>,
)
    ensures
        ({
            let t = your_tiles(st, rate, workers, diff, best);
            &&& t.len() == 3
            &&& t[0].value[0].text == rate
            &&& t[0].sub == dec(workers) + " worker(s)"@
            &&& t[1].value[0].text == dec(st.blocks as nat)
            &&& t[1].sub == dec(st.accepted as nat) + " shares acc · "@ + dec(st.rejected as nat) + " rej · "@ + dec(
                st.donated as nat,
            ) + " don"@
            &&& t[2].value[0].text == "bits "@ + dec(st.bits as nat)
            &&& t[2].sub == "diff "@ + diff + " · best "@ + best
        }),
{
}

/// Law: the network's tiles are those of the mode: the syndicate's for CHIRP and
/// the rotation's for CAROUSEL, once they are known, and the network's own
/// otherwise, with dashes while nothing is known.
pub proof fn law_tiles_follow_the_mode(mode: PoolMode, c: Option<ChirpInfoV>, k: Option<CarouselV>, t: NetTexts)
    ensures
        ({
            let r = net_tiles(mode, c, k, t);
            let plain = !(mode == PoolMode::Chirp && c is Some) && !(mode == PoolMode::Carousel && k is Some);
            &&& r.len() == 3
            &&& mode == PoolMode::Chirp && c is Some ==> r[0].value[0].text == dec(c->0.candidates as nat)
                && r[1].value[0].text == t.rate@ && r[1].sub == dec(c->0.blocks as nat) + " blocks found together"@
            &&& mode == PoolMode::Chirp && c is Some && t.reward is Some ==> r[2].value[0].text == t.reward->0@
            &&& mode == PoolMode::Chirp && c is Some && t.cut is Some ==> r[2].sub == "your cut ≈ "@ + t.cut->0@
                + " BTC"@
            &&& mode == PoolMode::Carousel && k is Some ==> r[0].value[0].text == dec(k->0.suppliers.len())
                && r[1].value[0].text == t.rate@ && r[1].sub == dec(k->0.miners as nat) + " miners on the rotation"@
            &&& mode == PoolMode::Carousel && k is Some && k->0.current.len() > 0 ==> r[2].value[0].text == k->0.current
            &&& plain && t.miners is Some ==> r[0].value[0].text == dec(t.miners->0 as nat) && r[1].value[0].text
                == t.rate@ && r[2].value[0].text == dec(t.height as nat)
            &&& plain && t.miners is None ==> r[0].value[0].text == "—"@ && r[1].value[0].text == "—"@
                && r[2].value[0].text == "—"@
        }),
{
}

/// Law: every worker has a line with its name, and with its rate as long as it
/// is not down.
pub proof fn law_workers_have_their_lines(names: Seq<Seq<char>>, rates: Seq<Seq<char>>, dead: Seq<bool>, i: int)
    requires
        0 <= i < rates.len(),
    ensures
        ({
            let r = worker_rows(names, rates, dead);
            &&& r.len() == rates.len()
            &&& i < names.len() ==> r[i][1].text == padded_right(names[i], 28)
            &&& i >= names.len() ==> r[i][1].text == padded_right("GPU "@ + dec(i as nat), 28)
            &&& i < dead.len() && dead[i] ==> r[i].len() == 3 && r[i][2].text == "○ offline · auto-respawning"@
            &&& i >= dead.len() || !dead[i] ==> r[i].len() == 4 && r[i][2].text == padded_left(rates[i], 7, ' ')
        }),
{
}

/// Law: the log shows as many lines as fit, the newest ones, the newest last.
pub proof fn law_newest_lines_are_shown(log: Seq<Seq<char>>, height: u16, k: int)
    requires
        height >= 2,
    ensures
        ({
            let r = log_rows(log, height);
            &&& r.len() == if log.len() < height - 2 { log.len() as int } else { height - 2 }
            &&& 0 <= k < r.len() ==> r[r.len() - 1 - k].len() == 1 && r[r.len() - 1 - k][0].text == "  "@ + log[log.len()
                - 1 - k]
        }),
{
}

/// Law: a found block stands out in the log, and so does what went wrong.
pub proof fn law_log_colours(l: Seq<char>)
    ensures
        contains_text(l, "BLOCK FOUND"@) ==> log_ink(l) == Ink::Green,
        !contains_text(l, "BLOCK FOUND"@) && (contains_text(l, "rejected"@) || contains_text(l, "stale"@)
            || contains_text(l, "switching"@) || contains_text(l, "donation"@)) ==> log_ink(l) == Ink::Amber,
        !contains_text(l, "BLOCK FOUND"@) && !contains_text(l, "rejected"@) && !contains_text(l, "stale"@)
            && !contains_text(l, "switching"@) && !contains_text(l, "donation"@) ==> log_ink(l) == Ink::Muted,
{
}

/// Law: a panel gets the rows it wants where the screen has them, what the
/// screen can spare otherwise, and never less than five.
pub proof fn law_panels_get_what_is_spare(want: int, width: u16, height: u16, workers: nat)
    requires
        want >= 0,
    ensures
        ({
            let r = panel_rows(want, width, height, workers);
            let others = 20 + (if width < 132 { 5int } else { 4 }) + (if workers < 1 { 3 } else if workers > 6 { 9 } else {
                workers + 2
            });
            &&& r >= 5
            &&& r > 5 ==> r <= want + 2 && others + r <= height
            &&& others + want + 2 <= height && want >= 3 ==> r == want + 2
        }),
{
}

} // verus!
