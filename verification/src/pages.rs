//! The other tabs, the tab bar and the footer.

use crate::config::{mode_of, pool_mode, PoolMode, VERSION};
use crate::controls::{tab_at, App, AppV, Input, Tab};
use crate::mine::{dash, mode_icon, mode_tagline, name_or, text_or_dash, unit_tile, worker_label};
use crate::paint::{
    add_row, badge, bold, dim, ink, mode_ink, no_rows, raw, rows, tiles, Ink, Look, PieceV, Row, Tile, TileV,
};
use crate::pools::{Stratum, StratumV};
use crate::stats::{strings, Stats, StatsV};
use crate::text::{cat2, cat3, cat4, cat5, dec, dec_text, pad_left, pad_right, padded_left, padded_right};
use vstd::prelude::*;

verus! {

// ------------------------------------------------------------------ tab bar

/// A tab's name.
pub open spec fn tab_name(t: Tab) -> Seq<char> {
    match t {
        Tab::Mine => "MINE"@,
        Tab::Data => "DATA"@,
        Tab::Stratums => "STRATUMS"@,
        Tab::Learn => "LEARN"@,
        Tab::Network => "NETWORK"@,
        Tab::Setup => "SETUP"@,
        Tab::Help => "HELP"@,
    }
}

/// A tab in the tab bar.
pub open spec fn tab_piece(i: int, tab: Tab) -> PieceV {
    badge(
        " "@ + dec((i + 1) as nat) + "·"@ + tab_name(tab_at(i)) + " "@,
        if tab_at(i) == tab {
            Look { ink: Ink::Black, bold: true, on: Ink::Green }
        } else {
            Look { ink: Ink::Muted, bold: false, on: Ink::Plain }
        },
    )
}

/// The tab bar: every tab with its digit, the chosen one lit.
pub open spec fn tab_bar_of(tab: Tab) -> Seq<PieceV> {
    seq![bold("PyBLØCK "@, Ink::Green)] + Seq::new(7, |i: int| tab_piece(i, tab))
}

fn tab_text(t: Tab) -> (r: &'static str)
    ensures
        r@ == tab_name(t),
{
    match t {
        Tab::Mine => "MINE",
        Tab::Data => "DATA",
        Tab::Stratums => "STRATUMS",
        Tab::Learn => "LEARN",
        Tab::Network => "NETWORK",
        Tab::Setup => "SETUP",
        Tab::Help => "HELP",
    }
}

/// Draws the tab bar.
pub fn tab_bar(tab: Tab) -> (r: Row)
    ensures
        r@ == tab_bar_of(tab),
{
    let mut r = Row::new();
    r.add_bold("PyBLØCK ", Ink::Green);
    let ghost all = tab_bar_of(tab);
    let mut i: usize = 0;
    assert(r@ =~= all.take(1));
    while i < 7
        invariant
            i <= 7,
            all == tab_bar_of(tab),
            r@ == all.take(i + 1),
        decreases 7 - i,
    {
        let t = crate::controls::nth_tab(i);
        let look = if t == tab {
            Look { ink: Ink::Black, bold: true, on: Ink::Green }
        } else {
            Look { ink: Ink::Muted, bold: false, on: Ink::Plain }
        };
        r.add_look(cat5(" ", dec_text((i + 1) as u64).as_str(), "·", tab_text(t), " ").as_str(), look);
        assert(all.take(i + 2) =~= all.take(i + 1).push(tab_piece(i as int, tab)));
        i = i + 1;
    }
    assert(all.take(8) =~= all);
    r
}

// ------------------------------------------------------------------- footer

/// What a typed text is for.
pub open spec fn input_label(k: Input) -> Seq<char> {
    match k {
        Input::AddStratum => "new stratum (name,host:port,network)"@,
        Input::EditAddr => "address"@,
        Input::EditWorker => "worker name (letters · digits · - _ · empty = none)"@,
        Input::EditTelegram => "telegram  bot_token,chat_id  (empty = off)"@,
    }
}

/// The footer: what is being typed, or the status, or the keys.
pub open spec fn footer_of(a: AppV, mode: PoolMode, paused: bool) -> Seq<PieceV> {
    match a.input {
        Some(k) => seq![
            badge(" "@ + input_label(k) + " > "@, (Look { ink: Ink::Black, bold: false, on: Ink::Yellow })),
            ink(a.buf + "_"@, Ink::Yellow),
            dim("   Enter=ok  Esc=cancel"@),
        ],
        None => if a.msg.len() > 0 {
            seq![ink(a.msg, Ink::Amber)]
        } else {
            let head = seq![
                badge(" 1-7 "@, (Look { ink: Ink::Black, bold: false, on: Ink::Green })),
                dim(" tabs · "@),
                ink("Tab"@, Ink::Green),
                dim(" next · "@),
            ];
            let list = if mode == PoolMode::Chirp && (a.tab == Tab::Mine || a.tab == Tab::Network) {
                seq![ink("↑↓"@, Ink::Green), dim(" coinbase list · "@)]
            } else {
                Seq::empty()
            };
            head + list + seq![
                ink("p"@, Ink::Green),
                dim(if paused { " resume · "@ } else { " pause · "@ }),
                ink("q"@, Ink::Green),
                dim(" quit"@),
            ]
        },
    }
}

/// Draws the footer.
pub fn footer(a: &App, mode: PoolMode, paused: bool) -> (r: Row)
    ensures
        r@ == footer_of(a@, mode, paused),
{
    let mut r = Row::new();
    match a.input {
        Some(k) => {
            let label = match k {
                Input::AddStratum => "new stratum (name,host:port,network)",
                Input::EditAddr => "address",
                Input::EditWorker => "worker name (letters · digits · - _ · empty = none)",
                Input::EditTelegram => "telegram  bot_token,chat_id  (empty = off)",
            };
            r.add_look(
                cat3(" ", label, " > ").as_str(),
                Look { ink: Ink::Black, bold: false, on: Ink::Yellow },
            );
            r.add_ink(cat2(a.buf.as_str(), "_").as_str(), Ink::Yellow);
            r.add_dim("   Enter=ok  Esc=cancel");
        },
        None => {
            if !a.msg.as_str().is_empty() {
                r.add_ink(a.msg.as_str(), Ink::Amber);
            } else {
                r.add_look(" 1-7 ", Look { ink: Ink::Black, bold: false, on: Ink::Green });
                r.add_dim(" tabs · ");
                r.add_ink("Tab", Ink::Green);
                r.add_dim(" next · ");
                if mode == PoolMode::Chirp && (a.tab == Tab::Mine || a.tab == Tab::Network) {
                    r.add_ink("↑↓", Ink::Green);
                    r.add_dim(" coinbase list · ");
                }
                r.add_ink("p", Ink::Green);
                r.add_dim(if paused { " resume · " } else { " pause · " });
                r.add_ink("q", Ink::Green);
                r.add_dim(" quit");
            }
        },
    }
    assert(r@ =~= footer_of(a@, mode, paused));
    r
}

/// The version in the corner.
pub fn version_corner() -> (r: String)
    ensures
        r@ == "pyblockMiner v"@ + VERSION@ + " "@,
{
    cat3("pyblockMiner v", VERSION, " ")
}

// --------------------------------------------------------------------- DATA

/// The numbers of DATA, as shown.
pub struct DataTexts {
    pub average: String,
    pub peak: String,
    pub rate: String,
    /// The user's part of the network in percent, where it is known.
    pub net_share: Option<String>,
    pub uptime: String,
    /// The rejected shares in percent, and whether they are many.
    pub reject_pct: String,
    pub many_rejects: bool,
    pub best: String,
    pub diff: String,
    /// The time to a block, and the blocks a day, if any.
    pub block_time: String,
    pub per_day: Option<String>,
    /// The syndicate's numbers, on CHIRP.
    pub chirp: Option<ChirpData>,
}

/// The syndicate's numbers, as shown: its hashrate, its time to a block and
/// blocks a day; and of the user, if they are eligible, the share in percent
/// and the income a day and a month.
pub struct ChirpData {
    pub rate: String,
    pub block_time: String,
    pub per_day: String,
    pub mine: Option<(String, String, String)>,
}

/// The tiles of DATA.
pub open spec fn data_tiles(t: DataTexts) -> Seq<TileV> {
    seq![
        TileV {
            title: "AVG HASHRATE"@,
            value: seq![bold(t.average@, Ink::Green), dim(" GH/s"@)],
            sub: "now "@ + t.rate@ + " GH/s"@,
            accent: Ink::Border,
        },
        TileV {
            title: "PEAK HASHRATE"@,
            value: seq![bold(t.peak@, Ink::Green), dim(" GH/s"@)],
            sub: "session peak"@,
            accent: Ink::Border,
        },
        TileV {
            title: "YOUR NET SHARE"@,
            value: seq![
                bold(text_or_dash(t.net_share), Ink::Cyan),
                dim(if t.net_share is Some { " %"@ } else { Seq::empty() }),
            ],
            sub: "of pyblockMiner network"@,
            accent: Ink::Cyan,
        },
    ]
}

/// Draws the tiles of DATA.
pub fn show_data_tiles(t: &DataTexts) -> (r: Vec<Tile>)
    ensures
        tiles(r@) == data_tiles(*t),
{
    let mut r: Vec<Tile> = Vec::new();
    r.push(
        unit_tile(
            "AVG HASHRATE",
            t.average.as_str(),
            Ink::Green,
            " GH/s",
            cat3("now ", t.rate.as_str(), " GH/s"),
            Ink::Border,
        ),
    );
    r.push(
        unit_tile(
            "PEAK HASHRATE",
            t.peak.as_str(),
            Ink::Green,
            " GH/s",
            "session peak".to_owned(),
            Ink::Border,
        ),
    );
    let (share, unit) = match &t.net_share {
        Some(s) => (s.clone(), " %".to_owned()),
        None => ("—".to_owned(), String::new()),
    };
    assert(unit@ =~= if t.net_share is Some { " %"@ } else { Seq::empty() });
    r.push(
        unit_tile(
            "YOUR NET SHARE",
            share.as_str(),
            Ink::Cyan,
            unit.as_str(),
            "of pyblockMiner network".to_owned(),
            Ink::Cyan,
        ),
    );
    assert(tiles(r@) =~= data_tiles(*t));
    r
}

/// A worker's line in DATA: its name, its rate and its part of the whole.
pub open spec fn share_row(names: Seq<Seq<char>>, rates: Seq<Seq<char>>, parts: Seq<Seq<char>>, i: int) -> Seq<
    PieceV,
> {
    seq![
        ink(" "@ + padded_right(name_or(names, i, "worker "@), 26), Ink::Cyan),
        ink(padded_left(rates[i], 8, ' ') + " GH/s"@, Ink::Green),
        ink("   "@ + padded_left(parts[i], 5, ' ') + "%"@, Ink::Muted),
    ]
}

/// The workers' lines in DATA.
pub open spec fn share_rows(names: Seq<Seq<char>>, rates: Seq<Seq<char>>, parts: Seq<Seq<char>>) -> Seq<
    Seq<PieceV>,
> {
    if rates.len() == 0 {
        seq![seq![ink(" warming up…"@, Ink::Muted)]]
    } else {
        Seq::new(rates.len(), |i: int| share_row(names, rates, parts, i))
    }
}

/// Draws the workers in DATA.
pub fn show_shares(names: &Vec<String>, rates: &Vec<String>, parts: &Vec<String>) -> (r: Vec<Row>)
    requires
        parts@.len() == rates@.len(),
    ensures
        rows(r@) == share_rows(strings(names@), strings(rates@), strings(parts@)),
{
    let mut r = no_rows();
    let ghost n = strings(names@);
    let ghost v = strings(rates@);
    let ghost p = strings(parts@);
    let mut i: usize = 0;
    while i < rates.len()
        invariant
            i <= rates@.len(),
            parts@.len() == rates@.len(),
            n == strings(names@),
            v == strings(rates@),
            p == strings(parts@),
            rows(r@) == Seq::new(i as nat, |j: int| share_row(n, v, p, j)),
        decreases rates@.len() - i,
    {
        let mut w = Row::new();
        let name = worker_label(names, i, "worker ");
        w.add_ink(cat2(" ", pad_right(name.as_str(), 26).as_str()).as_str(), Ink::Cyan);
        w.add_ink(cat2(pad_left(rates[i].as_str(), 8, ' ').as_str(), " GH/s").as_str(), Ink::Green);
        w.add_ink(cat3("   ", pad_left(parts[i].as_str(), 5, ' ').as_str(), "%").as_str(), Ink::Muted);
        assert(w@ =~= share_row(n, v, p, i as int));
        add_row(&mut r, w);
        i = i + 1;
        assert(rows(r@) =~= Seq::new(i as nat, |j: int| share_row(n, v, p, j)));
    }
    if rates.len() == 0 {
        let mut w = Row::new();
        w.add_ink(" warming up…", Ink::Muted);
        assert(w@ =~= seq![ink(" warming up…"@, Ink::Muted)]);
        add_row(&mut r, w);
    }
    assert(rows(r@) =~= share_rows(n, v, p));
    r
}

/// A named value.
pub open spec fn kv(k: Seq<char>, v: Seq<char>, c: Ink) -> Seq<PieceV> {
    seq![ink("  "@ + padded_right(k, 22), Ink::Muted), ink(v, c)]
}

/// The lines of DATA on the session.
pub open spec fn session_rows(st: StatsV, t: DataTexts) -> Seq<Seq<PieceV>> {
    seq![
        kv("uptime"@, t.uptime@, Ink::Green),
        kv("shares accepted"@, dec(st.accepted as nat), Ink::Green),
        kv(
            "shares rejected"@,
            dec(st.rejected as nat) + "  ("@ + t.reject_pct@ + "%)"@,
            if t.many_rejects { Ink::Amber } else { Ink::Muted },
        ),
        kv("blocks found"@, dec(st.blocks as nat), Ink::Green),
        kv("best share difficulty"@, t.best@, Ink::Yellow),
        kv("current difficulty"@, "diff "@ + t.diff@ + " · bits "@ + dec(st.bits as nat), Ink::Yellow),
        Seq::empty(),
        kv("expected time / block"@, t.block_time@ + "   (solo, mean — high variance)"@, Ink::Cyan),
        kv("expected blocks / day"@, text_or_dash(t.per_day), Ink::Cyan),
        kv("hashrate donated"@, dec(st.donated as nat) + " blocks → PyBLØCK"@, Ink::Amber),
    ]
}

/// The lines of DATA on the syndicate.
pub open spec fn syndicate_rows(c: Option<ChirpData>) -> Seq<Seq<PieceV>> {
    match c {
        Some(c) => seq![
            Seq::empty(),
            kv(
                "CHIRP syndicate"@,
                c.rate@ + " · ~"@ + c.block_time@ + " per block · ~"@ + c.per_day@ + " blocks/day"@,
                Ink::Purple,
            ),
            kv(
                "your slice"@,
                match c.mine {
                    Some((pct, day, month)) => pct@ + "% of every block"@,
                    None => "not eligible yet"@,
                },
                Ink::Purple,
            ),
            kv(
                "expected income"@,
                match c.mine {
                    Some((pct, day, month)) => "≈ "@ + day@ + " / day · ≈ "@ + month@
                        + " / month  (mean — high variance)"@,
                    None => dash(),
                },
                Ink::Purple,
            ),
        ],
        None => Seq::empty(),
    }
}

/// The lines of DATA.
pub open spec fn data_rows(st: StatsV, t: DataTexts, logging: bool) -> Seq<Seq<PieceV>> {
    session_rows(st, t) + syndicate_rows(t.chirp) + seq![
        Seq::empty(),
        kv(
            "alerts sent"@,
            dec(st.alerts_sent as nat) + "  (log: "@ + (if logging { "miner.log"@ } else { "off"@ }) + ")"@,
            Ink::Muted,
        ),
    ]
}

fn kv_row(k: &str, v: &str, c: Ink) -> (r: Row)
    ensures
        r@ == kv(k@, v@, c),
{
    let mut r = Row::new();
    r.add_ink(cat2("  ", pad_right(k, 22).as_str()).as_str(), Ink::Muted);
    r.add_ink(v, c);
    assert(r@ =~= kv(k@, v@, c));
    r
}

fn session_lines(st: &Stats, t: &DataTexts) -> (r: Vec<Row>)
    ensures
        rows(r@) == session_rows(st@, *t),
{
    let mut r = no_rows();
    add_row(&mut r, kv_row("uptime", t.uptime.as_str(), Ink::Green));
    add_row(&mut r, kv_row("shares accepted", dec_text(st.accepted).as_str(), Ink::Green));
    add_row(
        &mut r,
        kv_row(
            "shares rejected",
            cat4(dec_text(st.rejected).as_str(), "  (", t.reject_pct.as_str(), "%)").as_str(),
            if t.many_rejects { Ink::Amber } else { Ink::Muted },
        ),
    );
    add_row(&mut r, kv_row("blocks found", dec_text(st.blocks).as_str(), Ink::Green));
    add_row(&mut r, kv_row("best share difficulty", t.best.as_str(), Ink::Yellow));
    add_row(
        &mut r,
        kv_row(
            "current difficulty",
            cat4("diff ", t.diff.as_str(), " · bits ", dec_text(st.bits as u64).as_str()).as_str(),
            Ink::Yellow,
        ),
    );
    add_row(&mut r, Row::new());
    add_row(
        &mut r,
        kv_row(
            "expected time / block",
            cat2(t.block_time.as_str(), "   (solo, mean — high variance)").as_str(),
            Ink::Cyan,
        ),
    );
    let per_day = match &t.per_day {
        Some(s) => s.clone(),
        None => "—".to_owned(),
    };
    add_row(&mut r, kv_row("expected blocks / day", per_day.as_str(), Ink::Cyan));
    add_row(
        &mut r,
        kv_row(
            "hashrate donated",
            cat2(dec_text(st.donated).as_str(), " blocks → PyBLØCK").as_str(),
            Ink::Amber,
        ),
    );
    assert(rows(r@) =~= session_rows(st@, *t));
    r
}

/// Draws the lines of DATA.
pub fn data_lines(st: &Stats, t: &DataTexts, logging: bool) -> (r: Vec<Row>)
    ensures
        rows(r@) == data_rows(st@, *t, logging),
{
    let mut r = session_lines(st, t);
    let ghost head = rows(r@);
    match &t.chirp {
        Some(c) => {
            add_row(&mut r, Row::new());
            let mut line = cat5(
                c.rate.as_str(),
                " · ~",
                c.block_time.as_str(),
                " per block · ~",
                c.per_day.as_str(),
            );
            line.append(" blocks/day");
            add_row(&mut r, kv_row("CHIRP syndicate", line.as_str(), Ink::Purple));
            let (slice, income) = match &c.mine {
                Some((pct, day, month)) => (
                    cat2(pct.as_str(), "% of every block"),
                    cat5("≈ ", day.as_str(), " / day · ≈ ", month.as_str(), " / month  (mean — high variance)"),
                ),
                None => ("not eligible yet".to_owned(), "—".to_owned()),
            };
            add_row(&mut r, kv_row("your slice", slice.as_str(), Ink::Purple));
            add_row(&mut r, kv_row("expected income", income.as_str(), Ink::Purple));
        },
        None => {},
    }
    assert(rows(r@) =~= head + syndicate_rows(t.chirp));
    add_row(&mut r, Row::new());
    add_row(
        &mut r,
        kv_row(
            "alerts sent",
            cat4(
                dec_text(st.alerts_sent).as_str(),
                "  (log: ",
                if logging { "miner.log" } else { "off" },
                ")",
            ).as_str(),
            Ink::Muted,
        ),
    );
    assert(rows(r@) =~= data_rows(st@, *t, logging));
    r
}

// ----------------------------------------------------------------- STRATUMS

/// A pool's first line: whether it is selected or under the cursor, its sign,
/// name, URL and network.
pub open spec fn stratum_first(s: StratumV, active: bool, cur: bool) -> Seq<PieceV> {
    let m = mode_of(s.url, s.name);
    seq![
        ink(
            if active { " ● "@ } else if cur { " › "@ } else { "   "@ },
            if active { Ink::Green } else { mode_ink(m) },
        ),
        raw(mode_icon(m) + " "@),
        if active { bold(padded_right(s.name, 24), mode_ink(m)) } else { ink(padded_right(s.name, 24), Ink::White) },
        dim(padded_right(s.url, 26)),
        ink(padded_right(s.network, 10), Ink::Amber),
        ink(if s.custom { "custom  "@ } else { "        "@ }, Ink::Quiet),
        ink(if active { "● LIVE"@ } else { Seq::empty() }, Ink::Green),
    ]
}

/// A pool's second line: what it does with the coinbase.
pub open spec fn stratum_second(s: StratumV) -> Seq<PieceV> {
    let m = mode_of(s.url, s.name);
    seq![raw("      "@), ink(padded_right(mode_tagline(m), 28), mode_ink(m)), dim(m.payout_text())]
}

/// A pool's lines, and whether it is under the cursor.
#[derive(Debug)]
pub struct StratumRows {
    pub first: Row,
    pub second: Row,
    pub cursor: bool,
}

fn draw_first(s: &Stratum, m: PoolMode, active: bool, cur: bool) -> (r: Row)
    requires
        m == mode_of(s@.url, s@.name),
    ensures
        r@ == stratum_first(s@, active, cur),
{
    let mut r = Row::new();
    r.add_ink(
        if active { " ● " } else if cur { " › " } else { "   " },
        if active { Ink::Green } else { m.accent() },
    );
    r.add_raw(cat2(m.icon(), " ").as_str());
    let name = pad_right(s.name.as_str(), 24);
    if active {
        r.add_bold(name.as_str(), m.accent());
    } else {
        r.add_ink(name.as_str(), Ink::White);
    }
    r.add_dim(pad_right(s.url.as_str(), 26).as_str());
    r.add_ink(pad_right(s.network.as_str(), 10).as_str(), Ink::Amber);
    r.add_ink(if s.custom { "custom  " } else { "        " }, Ink::Quiet);
    if active {
        r.add_ink("● LIVE", Ink::Green);
    } else {
        let e = String::new();
        assert(e@ =~= Seq::<char>::empty());
        r.add_ink(e.as_str(), Ink::Green);
    }
    assert(r@ =~= stratum_first(s@, active, cur));
    r
}

/// Draws the pools.
pub fn stratum_list(a: &App) -> (r: Vec<StratumRows>)
    ensures
        r@.len() == a@.cfg.stratums.len(),
        forall|i: int|
            0 <= i < r@.len() ==> (#[trigger] r@[i]).first@ == stratum_first(
                a@.cfg.stratums[i],
                i == a@.cfg.selected,
                i == a@.strat_cur,
            ) && r@[i].second@ == stratum_second(a@.cfg.stratums[i]) && r@[i].cursor == (i == a@.strat_cur),
{
    let mut r: Vec<StratumRows> = Vec::new();
    let mut i: usize = 0;
    while i < a.cfg.stratums.len()
        invariant
            i <= a.cfg.stratums@.len(),
            r@.len() == i,
            forall|j: int|
                0 <= j < i ==> (#[trigger] r@[j]).first@ == stratum_first(
                    a@.cfg.stratums[j],
                    j == a@.cfg.selected,
                    j == a@.strat_cur,
                ) && r@[j].second@ == stratum_second(a@.cfg.stratums[j]) && r@[j].cursor == (j == a@.strat_cur),
        decreases a.cfg.stratums@.len() - i,
    {
        let s = &a.cfg.stratums[i];
        let m = pool_mode(s.url.as_str(), s.name.as_str());
        let first = draw_first(s, m, i == a.cfg.selected, i == a.strat_cur);
        let mut second = Row::new();
        second.add_raw("      ");
        second.add_ink(pad_right(m.tagline(), 28).as_str(), m.accent());
        second.add_dim(m.payout());
        assert(second@ =~= stratum_second(s@));
        r.push(StratumRows { first, second, cursor: i == a.strat_cur });
        i = i + 1;
    }
    r
}

/// The keys of STRATUMS.
pub open spec fn stratum_keys() -> Seq<PieceV> {
    seq![
        dim("  ↑↓ move · "@),
        ink("Enter"@, Ink::Green),
        dim(" switch LIVE (no restart) · "@),
        ink("a"@, Ink::Green),
        dim(" add custom  name,host:port,network · "@),
        ink("d"@, Ink::Green),
        dim(" delete custom"@),
    ]
}

/// Draws the keys of STRATUMS.
pub fn stratum_help() -> (r: Row)
    ensures
        r@ == stratum_keys(),
{
    let mut r = Row::new();
    r.add_dim("  ↑↓ move · ");
    r.add_ink("Enter", Ink::Green);
    r.add_dim(" switch LIVE (no restart) · ");
    r.add_ink("a", Ink::Green);
    r.add_dim(" add custom  name,host:port,network · ");
    r.add_ink("d", Ink::Green);
    r.add_dim(" delete custom");
    assert(r@ =~= stratum_keys());
    r
}

// ------------------------------------------------------------------ NETWORK

/// The lines of NETWORK. `miners`, `rate` and `height` are the network's
/// numbers as shown, where they are known.
pub open spec fn network_rows(
    a: AppV,
    st: StatsV,
    balance: Option<String>,
    net: Option<(String, String, String)>,
) -> Seq<Seq<PieceV>> {
    let (miners, rate, height) = match net {
        Some((m, r, h)) => (m@, r@, h@),
        None => (dash(), dash(), dash()),
    };
    seq![
        seq![
            dim("  you     "@),
            ink(a.cfg.network(), Ink::Green),
            dim(" · "@),
            ink(a.cfg.addr(), Ink::Cyan),
            dim(" · balance "@),
            ink(
                match balance {
                    Some(b) => b@ + " BTC"@,
                    None => dash(),
                },
                Ink::Green,
            ),
            dim(
                " · "@ + dec(st.blocks as nat) + " blocks · "@ + dec(st.accepted as nat) + " shares acc · "@ + dec(
                    st.rejected as nat,
                ) + " rej"@,
            ),
        ],
        seq![
            dim("  chain   "@),
            dim(
                "pyblockMiner network: "@ + miners + " miners · "@ + rate + " · pool height "@ + height
                    + " · stats + balance from the PyBLØCK BLAKE2b node for this chain"@,
            ),
        ],
    ]
}

/// Draws the lines of NETWORK.
pub fn network_lines(
    a: &App,
    st: &Stats,
    balance: &Option<String>,
    net: &Option<(String, String, String)>,
) -> (r: Vec<Row>)
    ensures
        rows(r@) == network_rows(a@, st@, *balance, *net),
{
    let ghost want = network_rows(a@, st@, *balance, *net);
    let mut r = no_rows();
    let mut x = Row::new();
    x.add_dim("  you     ");
    x.add_ink(a.cfg.network().as_str(), Ink::Green);
    x.add_dim(" · ");
    x.add_ink(a.cfg.addr().as_str(), Ink::Cyan);
    x.add_dim(" · balance ");
    let b = match balance {
        Some(b) => cat2(b.as_str(), " BTC"),
        None => "—".to_owned(),
    };
    x.add_ink(b.as_str(), Ink::Green);
    let mut line = cat5(
        " · ",
        dec_text(st.blocks).as_str(),
        " blocks · ",
        dec_text(st.accepted).as_str(),
        " shares acc · ",
    );
    line.append(dec_text(st.rejected).as_str());
    line.append(" rej");
    x.add_dim(line.as_str());
    assert(x@ =~= want[0]);
    add_row(&mut r, x);
    let (miners, rate, height) = match net {
        Some((m, r, h)) => (m.clone(), r.clone(), h.clone()),
        None => ("—".to_owned(), "—".to_owned(), "—".to_owned()),
    };
    let mut y = Row::new();
    y.add_dim("  chain   ");
    let mut text = cat5(
        "pyblockMiner network: ",
        miners.as_str(),
        " miners · ",
        rate.as_str(),
        " · pool height ",
    );
    text.append(height.as_str());
    text.append(" · stats + balance from the PyBLØCK BLAKE2b node for this chain");
    y.add_dim(text.as_str());
    assert(y@ =~= want[1]);
    add_row(&mut r, y);
    assert(rows(r@) =~= want);
    r
}

// --------------------------------------------------------------------- laws

/// Law: the tab bar holds every tab with its digit, and lights the chosen one
/// alone.
pub proof fn law_tab_bar_lights_the_chosen_tab(tab: Tab, i: int)
    requires
        0 <= i < 7,
    ensures
        tab_bar_of(tab).len() == 8,
        tab_bar_of(tab)[i + 1].text == " "@ + dec((i + 1) as nat) + "·"@ + tab_name(tab_at(i)) + " "@,
        tab_bar_of(tab)[i + 1].look.on == Ink::Green <==> tab_at(i) == tab,
{
}

/// Law: the footer shows what is typed while something is typed, the message
/// where there is one, and the keys otherwise.
pub proof fn law_footer_shows_what_is_typed(a: AppV, mode: PoolMode, paused: bool)
    ensures
        ({
            let f = footer_of(a, mode, paused);
            let lists = mode == PoolMode::Chirp && (a.tab == Tab::Mine || a.tab == Tab::Network);
            &&& a.input is Some ==> f.len() == 3 && f[1].text == a.buf + "_"@ && f[0].text == " "@ + input_label(
                a.input->0,
            ) + " > "@
            &&& a.input is None && a.msg.len() > 0 ==> f.len() == 1 && f[0].text == a.msg
            &&& a.input is None && a.msg.len() == 0 && lists ==> f.len() == 10 && f[4].text == "↑↓"@
            &&& a.input is None && a.msg.len() == 0 && !lists ==> f.len() == 8
            &&& a.input is None && a.msg.len() == 0 ==> f[f.len() - 3].text == if paused {
                " resume · "@
            } else {
                " pause · "@
            }
        }),
{
}

/// Law: DATA shows the session's counts.
pub proof fn law_data_shows_the_counts(st: StatsV, t: DataTexts, logging: bool)
    ensures
        ({
            let r = data_rows(st, t, logging);
            &&& r[0][1].text == t.uptime@
            &&& r[1][1].text == dec(st.accepted as nat)
            &&& r[2][1].text == dec(st.rejected as nat) + "  ("@ + t.reject_pct@ + "%)"@
            &&& r[3][1].text == dec(st.blocks as nat)
            &&& r[4][1].text == t.best@
            &&& r[5][1].text == "diff "@ + t.diff@ + " · bits "@ + dec(st.bits as nat)
            &&& r[7][1].text == t.block_time@ + "   (solo, mean — high variance)"@
            &&& r[9][1].text == dec(st.donated as nat) + " blocks → PyBLØCK"@
            &&& logging ==> r.last()[1].text == dec(st.alerts_sent as nat) + "  (log: "@ + "miner.log"@ + ")"@
            &&& !logging ==> r.last()[1].text == dec(st.alerts_sent as nat) + "  (log: "@ + "off"@ + ")"@
            &&& t.chirp is None ==> r.len() == 12
            &&& t.chirp is Some ==> r.len() == 16
        }),
{
}

/// Law: DATA shows the user's slice of the syndicate, where they have one.
pub proof fn law_data_shows_the_slice(c: ChirpData)
    ensures
        ({
            let r = syndicate_rows(Some(c));
            &&& r[1][1].text == c.rate@ + " · ~"@ + c.block_time@ + " per block · ~"@ + c.per_day@ + " blocks/day"@
            &&& c.mine matches Some((pct, day, month)) ==> r[2][1].text == pct@ + "% of every block"@ && r[3][1].text
                == "≈ "@ + day@ + " / day · ≈ "@ + month@ + " / month  (mean — high variance)"@
            &&& c.mine is None ==> r[2][1].text == "not eligible yet"@ && r[3][1].text == "—"@
        }),
{
}

/// Law: every worker has a line in DATA with its rate and its part.
pub proof fn law_data_shows_the_workers(
    names: Seq<Seq<char>>,
    rates: Seq<Seq<char>>,
    parts: Seq<Seq<char>>,
    i: int,
)
    requires
        0 <= i < rates.len(),
    ensures
        ({
            let r = share_rows(names, rates, parts);
            &&& r.len() == rates.len()
            &&& i < names.len() ==> r[i][0].text == " "@ + padded_right(names[i], 26)
            &&& i >= names.len() ==> r[i][0].text == " "@ + padded_right("worker "@ + dec(i as nat), 26)
            &&& r[i][1].text == padded_left(rates[i], 8, ' ') + " GH/s"@
            &&& r[i][2].text == "   "@ + padded_left(parts[i], 5, ' ') + "%"@
        }),
{
}

/// Law: the tiles of DATA show the average, the present rate, the peak and the
/// user's part of the network.
pub proof fn law_data_tiles(t: DataTexts)
    ensures
        ({
            let d = data_tiles(t);
            &&& d.len() == 3
            &&& d[0].value[0].text == t.average@ && d[0].sub == "now "@ + t.rate@ + " GH/s"@
            &&& d[1].value[0].text == t.peak@
            &&& t.net_share matches Some(n) ==> d[2].value[0].text == n@ && d[2].value[1].text == " %"@
            &&& t.net_share is None ==> d[2].value[0].text == "—"@
        }),
{
}

/// Law: a pool's line names it, its address and its network, and tells whether
/// it is mined on and whether it is the user's own.
pub proof fn law_pools_are_named(s: StratumV, active: bool, cur: bool)
    ensures
        ({
            let r = stratum_first(s, active, cur);
            &&& r.len() == 7
            &&& r[2].text == padded_right(s.name, 24)
            &&& r[3].text == padded_right(s.url, 26)
            &&& r[4].text == padded_right(s.network, 10)
            &&& s.custom ==> r[5].text == "custom  "@
            &&& !s.custom ==> r[5].text == "        "@
            &&& active ==> r[0].text == " ● "@ && r[6].text == "● LIVE"@
            &&& !active ==> r[6].text.len() == 0
            &&& !active && cur ==> r[0].text == " › "@
            &&& !active && !cur ==> r[0].text == "   "@
        }),
{
}

/// Law: NETWORK shows the user's network, address and balance, and the
/// network's numbers where they are known.
pub proof fn law_network_page(a: AppV, st: StatsV, balance: Option<String>, net: Option<(String, String, String)>)
    ensures
        ({
            let r = network_rows(a, st, balance, net);
            &&& r[0][1].text == a.cfg.network()
            &&& r[0][3].text == a.cfg.addr()
            &&& balance matches Some(b) ==> r[0][5].text == b@ + " BTC"@
            &&& balance is None ==> r[0][5].text == "—"@
            &&& r[0][6].text == " · "@ + dec(st.blocks as nat) + " blocks · "@ + dec(st.accepted as nat)
                + " shares acc · "@ + dec(st.rejected as nat) + " rej"@
            &&& net matches Some((m, h, p)) ==> r[1][1].text == "pyblockMiner network: "@ + m@ + " miners · "@ + h@
                + " · pool height "@ + p@ + " · stats + balance from the PyBLØCK BLAKE2b node for this chain"@
        }),
{
}

} // verus!
