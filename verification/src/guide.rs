//! The tabs LEARN, SETUP and HELP.

use crate::config::{donates, net_cfg, PoolMode};
use crate::controls::{on_off, App, AppV, LEARN_PAGES};
use crate::label::{login, login_text};
use crate::paint::{add_row, bold, dim, ink, no_rows, rows, Ink, PieceV, Row};
use crate::settings::AlertCfgV;
use crate::text::{begins_with, cat2, cat3, cat5, dec, dec_text, pad_right, padded_right, starts_with};
use vstd::prelude::*;

verus! {

// -------------------------------------------------------------------- LEARN

/// The title of a page of LEARN.
pub open spec fn page_title(p: int) -> Seq<char> {
    if p == 0 {
        "What is this?"@
    } else if p == 1 {
        "The hardfork — honest status"@
    } else if p == 2 {
        "How solo-lottery mining works"@
    } else {
        "Get started"@
    }
}

/// The text of a page of LEARN.
pub open spec fn page_text(p: int) -> Seq<Seq<char>> {
    if p == 0 {
        seq![
            "pyblockMiner mines BLAKE2b — the Proof-of-Work change born in Bitcoin Knots PR #359, live on mainnet."@,
            "It's solo-lottery: you mine to YOUR OWN address and keep 99.1% of any block you find,"@,
            "straight to that address. Non-custodial — the pool never holds your coins. PyBLØCK fee 0.9%."@,
            Seq::empty(),
            "It saturates your GPU (NVIDIA / AMD / Intel via OpenCL on Linux & Windows, Apple Silicon/Metal on macOS) and/or CPU cores, with live hashrate/blocks/difficulty."@,
        ]
    } else if p == 1 {
        seq![
            "MAINNET is live: Bitcoin BLAKE2b runs on mainnet, and every block pays real BTC to YOUR address."@,
            "The default stratums are the three mainnet pools: LOTTO · CHIRP · CAROUSEL."@,
            Seq::empty(),
            "TESTNET4 and REGTEST remain available for testing."@,
            "Each network needs its own address type: bc1 mainnet · tb1 testnet4 · bcrt1 regtest."@,
            "⚠ testnet4 and regtest coins have NO monetary value — they are for testing."@,
        ]
    } else if p == 2 {
        seq![
            "Every share your GPU finds that beats the block target IS a block — paid entirely to your address."@,
            "Blocks are rare (that's the lottery); when you hit one, you get the whole coinbase (minus 0.9% fee)."@,
            "There's no steady payout — it's all-or-nothing per block, like a lottery ticket that never expires."@,
            Seq::empty(),
            "The 2% dev donation (mainnet only) sends a small slice of your hashrate to the PyBLØCK pool."@,
        ]
    } else {
        seq![
            "1. SETUP [6]: pick your network + generate (or paste) an address for it."@,
            "2. STRATUMS [3]: pick a pool (PyBLØCK defaults are there; add custom ones)."@,
            "3. MINE [1]: it connects and mines. Leave it running — where a chain is not on BLAKE2b yet it starts the moment BLAKE2b activates."@,
            Seq::empty(),
            "No GPU? it falls back to CPU. Multiple GPUs are auto-detected and all saturated."@,
        ]
    }
}

/// A line of LEARN. Warnings stand out.
pub open spec fn learn_row(s: Seq<char>) -> Seq<PieceV> {
    seq![ink(s, if begins_with(s, "⚠"@) { Ink::Amber } else { Ink::Green })]
}

/// The page of LEARN that is shown.
pub open spec fn shown_page(page: nat) -> int {
    if page < LEARN_PAGES { page as int } else { LEARN_PAGES - 1 }
}

/// The title of LEARN.
pub open spec fn learn_title(page: nat) -> Seq<char> {
    let p = shown_page(page);
    " LEARN — "@ + dec((p + 1) as nat) + "/"@ + dec(LEARN_PAGES as nat) + " · "@ + page_title(p) + "   (←/→ pages) "@
}

/// The lines of LEARN.
pub open spec fn learn_rows(page: nat) -> Seq<Seq<PieceV>> {
    let t = page_text(shown_page(page));
    Seq::new(t.len(), |i: int| learn_row(t[i]))
}

fn add_learn(r: &mut Vec<Row>, s: &str)
    ensures
        rows(final(r)@) == rows(old(r)@).push(learn_row(s@)),
{
    let mut row = Row::new();
    row.add_ink(s, if starts_with(s, "⚠") { Ink::Amber } else { Ink::Green });
    assert(row@ =~= learn_row(s@));
    add_row(r, row);
}

fn add_blank(r: &mut Vec<Row>)
    ensures
        rows(final(r)@) == rows(old(r)@).push(learn_row(Seq::empty())),
{
    let e = String::new();
    assert(e@ =~= Seq::<char>::empty());
    add_learn(r, e.as_str());
}

fn learn_lines(p: usize) -> (r: Vec<Row>)
    requires
        p < LEARN_PAGES,
    ensures
        rows(r@) == learn_rows(p as nat),
{
    let mut r = no_rows();
    if p == 0 {
        add_learn(
            &mut r,
            "pyblockMiner mines BLAKE2b — the Proof-of-Work change born in Bitcoin Knots PR #359, live on mainnet.",
        );
        add_learn(
            &mut r,
            "It's solo-lottery: you mine to YOUR OWN address and keep 99.1% of any block you find,",
        );
        add_learn(
            &mut r,
            "straight to that address. Non-custodial — the pool never holds your coins. PyBLØCK fee 0.9%.",
        );
        add_blank(&mut r);
        add_learn(
            &mut r,
            "It saturates your GPU (NVIDIA / AMD / Intel via OpenCL on Linux & Windows, Apple Silicon/Metal on macOS) and/or CPU cores, with live hashrate/blocks/difficulty.",
        );
    } else if p == 1 {
        add_learn(
            &mut r,
            "MAINNET is live: Bitcoin BLAKE2b runs on mainnet, and every block pays real BTC to YOUR address.",
        );
        add_learn(&mut r, "The default stratums are the three mainnet pools: LOTTO · CHIRP · CAROUSEL.");
        add_blank(&mut r);
        add_learn(
            &mut r,
            "TESTNET4 and REGTEST remain available for testing.",
        );
        add_learn(&mut r, "Each network needs its own address type: bc1 mainnet · tb1 testnet4 · bcrt1 regtest.");
        add_learn(&mut r, "⚠ testnet4 and regtest coins have NO monetary value — they are for testing.");
    } else if p == 2 {
        add_learn(
            &mut r,
            "Every share your GPU finds that beats the block target IS a block — paid entirely to your address.",
        );
        add_learn(
            &mut r,
            "Blocks are rare (that's the lottery); when you hit one, you get the whole coinbase (minus 0.9% fee).",
        );
        add_learn(
            &mut r,
            "There's no steady payout — it's all-or-nothing per block, like a lottery ticket that never expires.",
        );
        add_blank(&mut r);
        add_learn(
            &mut r,
            "The 2% dev donation (mainnet only) sends a small slice of your hashrate to the PyBLØCK pool.",
        );
    } else {
        add_learn(&mut r, "1. SETUP [6]: pick your network + generate (or paste) an address for it.");
        add_learn(&mut r, "2. STRATUMS [3]: pick a pool (PyBLØCK defaults are there; add custom ones).");
        add_learn(
            &mut r,
            "3. MINE [1]: it connects and mines. Leave it running — where a chain is not on BLAKE2b yet it starts the moment BLAKE2b activates.",
        );
        add_blank(&mut r);
        add_learn(&mut r, "No GPU? it falls back to CPU. Multiple GPUs are auto-detected and all saturated.");
    }
    assert(rows(r@) =~= learn_rows(p as nat));
    r
}

/// Draws a page of LEARN: its title and its lines.
pub fn info_page(page: usize) -> (r: (String, Vec<Row>))
    ensures
        r.0@ == learn_title(page as nat),
        rows(r.1@) == learn_rows(page as nat),
{
    let p: usize = if page < LEARN_PAGES { page } else { LEARN_PAGES - 1 };
    let title = if p == 0 {
        "What is this?"
    } else if p == 1 {
        "The hardfork — honest status"
    } else if p == 2 {
        "How solo-lottery mining works"
    } else {
        "Get started"
    };
    let mut t = cat5(
        " LEARN — ",
        dec_text((p + 1) as u64).as_str(),
        "/",
        dec_text(LEARN_PAGES as u64).as_str(),
        " · ",
    );
    t.append(title);
    t.append("   (←/→ pages) ");
    (t, learn_lines(p))
}

// -------------------------------------------------------------------- SETUP

/// A setting's name.
pub open spec fn setting(label: Seq<char>) -> Seq<PieceV> {
    seq![dim("  "@ + padded_right(label, 18))]
}

/// A key and what it does.
pub open spec fn key_pieces(k: Seq<char>, what: Seq<char>) -> Seq<PieceV> {
    seq![ink("  "@ + k, Ink::Green), dim(" "@ + what)]
}

/// The worker's name in SETUP.
pub open spec fn worker_pieces(a: AppV) -> Seq<PieceV> {
    if a.cfg.worker.len() == 0 {
        seq![dim("— none — mining as the bare address  (w to name this rig)"@)]
    } else {
        seq![ink(a.cfg.worker, Ink::Green), dim("   → login "@ + login_text(a.cfg.addr(), a.cfg.worker))]
    }
}

/// How alerts go out.
pub open spec fn alerts_text(a: AlertCfgV) -> Seq<char> {
    "bell "@ + on_off(a.bell) + " · desktop "@ + on_off(a.desktop) + " · telegram "@ + (if a.telegram_token.len()
        == 0 {
        "off"@
    } else {
        "on → chat "@ + a.telegram_chat
    }) + " · webhook "@ + (if a.webhook_url.len() == 0 { "off"@ } else { "on"@ })
}

/// The settings of SETUP. `donate` is the donation as shown, and `log` where
/// the log file is.
pub open spec fn setting_rows(a: AppV, donate: Seq<char>, log: Seq<char>) -> Seq<Seq<PieceV>> {
    let net = a.cfg.network();
    seq![
        setting("selected stratum"@) + seq![
            ink(
                if a.cfg.selected < a.cfg.stratums.len() {
                    a.cfg.stratums[a.cfg.selected as int].name
                } else {
                    Seq::empty()
                },
                Ink::Green,
            ),
            ink("  ["@ + net + "]"@, Ink::Amber),
        ],
        setting("your address"@) + seq![
            ink(if a.cfg.addr().len() == 0 { "— not set —"@ } else { a.cfg.addr() }, Ink::Cyan),
        ],
        setting("worker name"@) + worker_pieces(a),
        setting("donation"@) + seq![
            ink(if donates(net) { donate + "% (mainnet)"@ } else { "off (testnet/regtest)"@ }, Ink::Amber),
        ],
        setting("gpus"@) + seq![
            ink(
                match a.cfg.gpus {
                    Some(n) => dec(n as nat),
                    None => "auto"@,
                },
                Ink::Green,
            ),
            ink("   cpu: "@ + on_off(a.cfg.cpu), Ink::Green),
        ],
        setting("alerts"@) + seq![
            ink(alerts_text(a.cfg.alerts), Ink::Amber),
            dim("   (blocks · GPU down/up · pool outage · CHIRP eligibility)"@),
        ],
        setting("log file"@) + seq![dim(if a.cfg.log_file { log } else { "off (--no-log-file)"@ })],
        setting("local api"@) + seq![
            dim(
                if a.cfg.api_port > 0 {
                    "http://127.0.0.1:"@ + dec(a.cfg.api_port as nat) + "/  ·  /metrics for Prometheus"@
                } else {
                    "off  (--api-port <port>)"@
                },
            ),
        ],
    ]
}

/// The keys of SETUP.
pub open spec fn setup_keys() -> Seq<Seq<PieceV>> {
    seq![
        Seq::empty(),
        key_pieces("g"@, "generate address   "@) + key_pieces("e"@, "edit/paste address   "@) + key_pieces(
            "w"@,
            "worker name   "@,
        ) + key_pieces("c"@, "toggle CPU   "@) + key_pieces("+/-"@, "donation"@),
        key_pieces("b"@, "bell   "@) + key_pieces("n"@, "desktop notifications   "@) + key_pieces(
            "t"@,
            "telegram token,chat   "@,
        ) + key_pieces("x"@, "send a test alert"@),
        seq![dim("  changes auto-save + apply live · devices, log file and api port apply on restart"@)],
    ]
}

fn setting_row(label: &str) -> (r: Row)
    ensures
        r@ == setting(label@),
{
    let mut r = Row::new();
    r.add_dim(cat2("  ", pad_right(label, 18).as_str()).as_str());
    assert(r@ =~= setting(label@));
    r
}

fn add_key(r: &mut Row, k: &str, what: &str)
    ensures
        final(r)@ == old(r)@ + key_pieces(k@, what@),
{
    let ghost before = r@;
    r.add_ink(cat2("  ", k).as_str(), Ink::Green);
    r.add_dim(cat2(" ", what).as_str());
    assert(r@ =~= before + key_pieces(k@, what@));
}

fn on_off_text(b: bool) -> (r: &'static str)
    ensures
        r@ == on_off(b),
{
    if b { "on" } else { "off" }
}

fn alerts_line(a: &App) -> (r: String)
    ensures
        r@ == alerts_text(a@.cfg.alerts),
{
    let s = &a.cfg.alerts;
    let telegram = if s.telegram_token.as_str().is_empty() {
        "off".to_owned()
    } else {
        cat2("on → chat ", s.telegram_chat.as_str())
    };
    let mut r = cat5("bell ", on_off_text(s.bell), " · desktop ", on_off_text(s.desktop), " · telegram ");
    r.append(telegram.as_str());
    r.append(" · webhook ");
    r.append(if s.webhook_url.as_str().is_empty() { "off" } else { "on" });
    r
}

fn setting_lines(a: &App, donate: &str, log: &str) -> (r: Vec<Row>)
    ensures
        rows(r@) == setting_rows(a@, donate@, log@),
{
    let ghost want = setting_rows(a@, donate@, log@);
    let net = a.cfg.network();
    let addr = a.cfg.addr();
    let mut r = no_rows();
    let mut x = setting_row("selected stratum");
    let name = if a.cfg.selected < a.cfg.stratums.len() {
        a.cfg.stratums[a.cfg.selected].name.clone()
    } else {
        String::new()
    };
    x.add_ink(name.as_str(), Ink::Green);
    x.add_ink(cat3("  [", net.as_str(), "]").as_str(), Ink::Amber);
    assert(name@ =~= if a@.cfg.selected < a@.cfg.stratums.len() {
        a@.cfg.stratums[a@.cfg.selected as int].name
    } else {
        Seq::empty()
    });
    assert(x@ =~= want[0]);
    add_row(&mut r, x);
    let mut x = setting_row("your address");
    x.add_ink(if addr.as_str().is_empty() { "— not set —" } else { addr.as_str() }, Ink::Cyan);
    assert(x@ =~= want[1]);
    add_row(&mut r, x);
    let mut x = setting_row("worker name");
    if a.cfg.worker.as_str().is_empty() {
        x.add_dim("— none — mining as the bare address  (w to name this rig)");
    } else {
        x.add_ink(a.cfg.worker.as_str(), Ink::Green);
        x.add_dim(cat2("   → login ", login(addr.as_str(), a.cfg.worker.as_str()).as_str()).as_str());
    }
    assert(x@ =~= want[2]);
    add_row(&mut r, x);
    let mut x = setting_row("donation");
    if net_cfg(net.as_str()).donate {
        x.add_ink(cat2(donate, "% (mainnet)").as_str(), Ink::Amber);
    } else {
        x.add_ink("off (testnet/regtest)", Ink::Amber);
    }
    assert(x@ =~= want[3]);
    add_row(&mut r, x);
    let mut x = setting_row("gpus");
    match a.cfg.gpus {
        Some(n) => x.add_ink(dec_text(n as u64).as_str(), Ink::Green),
        None => x.add_ink("auto", Ink::Green),
    }
    x.add_ink(cat2("   cpu: ", on_off_text(a.cfg.cpu)).as_str(), Ink::Green);
    assert(x@ =~= want[4]);
    add_row(&mut r, x);
    let mut x = setting_row("alerts");
    x.add_ink(alerts_line(a).as_str(), Ink::Amber);
    x.add_dim("   (blocks · GPU down/up · pool outage · CHIRP eligibility)");
    assert(x@ =~= want[5]);
    add_row(&mut r, x);
    let mut x = setting_row("log file");
    x.add_dim(if a.cfg.log_file { log } else { "off (--no-log-file)" });
    assert(x@ =~= want[6]);
    add_row(&mut r, x);
    let mut x = setting_row("local api");
    if a.cfg.api_port > 0 {
        x.add_dim(
            cat3(
                "http://127.0.0.1:",
                dec_text(a.cfg.api_port as u64).as_str(),
                "/  ·  /metrics for Prometheus",
            ).as_str(),
        );
    } else {
        x.add_dim("off  (--api-port <port>)");
    }
    assert(x@ =~= want[7]);
    add_row(&mut r, x);
    assert(rows(r@) =~= want);
    r
}

/// Draws the lines of SETUP.
pub fn setup_lines(a: &App, donate: &str, log: &str) -> (r: Vec<Row>)
    ensures
        rows(r@) == setting_rows(a@, donate@, log@) + setup_keys(),
{
    let mut r = setting_lines(a, donate, log);
    let ghost head = rows(r@);
    let ghost keys = setup_keys();
    add_row(&mut r, Row::new());
    let mut x = Row::new();
    add_key(&mut x, "g", "generate address   ");
    add_key(&mut x, "e", "edit/paste address   ");
    add_key(&mut x, "w", "worker name   ");
    add_key(&mut x, "c", "toggle CPU   ");
    add_key(&mut x, "+/-", "donation");
    assert(x@ =~= keys[1]);
    add_row(&mut r, x);
    let mut x = Row::new();
    add_key(&mut x, "b", "bell   ");
    add_key(&mut x, "n", "desktop notifications   ");
    add_key(&mut x, "t", "telegram token,chat   ");
    add_key(&mut x, "x", "send a test alert");
    assert(x@ =~= keys[2]);
    add_row(&mut r, x);
    let mut x = Row::new();
    x.add_dim("  changes auto-save + apply live · devices, log file and api port apply on restart");
    assert(x@ =~= keys[3]);
    add_row(&mut r, x);
    assert(rows(r@) =~= head + keys);
    r
}

// --------------------------------------------------------------------- HELP

/// A heading of HELP.
pub open spec fn heading(s: Seq<char>) -> Seq<PieceV> {
    seq![bold(s, Ink::Cyan)]
}

/// A line of HELP.
pub open spec fn entry(a: Seq<char>, b: Seq<char>) -> Seq<PieceV> {
    seq![ink("  "@ + padded_right(a, 17) + " "@, Ink::Green), ink(b, Ink::Muted)]
}

/// A link of HELP.
pub open spec fn link(a: Seq<char>, b: Seq<char>) -> Seq<PieceV> {
    seq![ink(a, Ink::Muted), ink(b, Ink::Cyan)]
}

/// HELP on the keys.
pub open spec fn help_keys() -> Seq<Seq<PieceV>> {
    seq![
        heading(" Keys"@),
        entry("1-7 / Tab"@, "switch tabs (MINE · DATA · STRATUMS · LEARN · NETWORK · SETUP · HELP)"@),
        entry("p"@, "pause / resume mining (works from any tab — GPU/CPU go idle, pool stays connected)"@),
        entry("DATA"@, "session analytics: avg/peak hashrate, net share, per-worker split, solo ETA-to-block"@),
        entry("q / Esc"@, "quit (Esc also cancels an input)"@),
        entry("STRATUMS"@, "↑↓ move · Enter switch live · a add · d delete custom"@),
        entry(
            "SETUP"@,
            "g generate · e edit address · w worker name · c CPU · +/- donation · b bell · n desktop · t telegram · x test alert"@,
        ),
        entry("MINE / NETWORK"@, "on CHIRP: ↑↓ PgUp PgDn Home End scroll the coinbase list (everyone in the draw)"@),
        Seq::empty(),
    ]
}

/// HELP on alerts, the log and the API.
pub open spec fn help_alerts() -> Seq<Seq<PieceV>> {
    seq![
        heading(" Alerts · log · API"@),
        entry(
            "alerts"@,
            "block found · GPU down / back · pool unreachable / back · CHIRP: on the list, in the draw, falling out, dropped"@,
        ),
        entry(
            "channels"@,
            "terminal bell · desktop (notify-send / macOS) · Telegram (SETUP t, or --telegram token,chat) · --webhook <url> (POST JSON)"@,
        ),
        entry(
            "log file"@,
            "every log line, timestamped → <config dir>/miner.log (rotates at 5 MB) · --no-log-file"@,
        ),
        entry(
            "--api-port N"@,
            "http://127.0.0.1:N/ live stats as JSON · /metrics for Prometheus/Grafana · localhost only"@,
        ),
        entry("--worker NAME"@, "login as addr.NAME so the pool tells your rigs apart"@),
        Seq::empty(),
    ]
}

/// HELP on the pools.
pub open spec fn help_pools() -> Seq<Seq<PieceV>> {
    seq![
        heading(" Pools — same BLAKE2b chain, three ways to get paid"@),
        entry("🎰 LOTTO :4445"@, PoolMode::Lotto.payout_text()),
        entry("🌌 CHIRP :5574"@, PoolMode::Chirp.payout_text()),
        entry("🎠 CAROUSEL :30110"@, PoolMode::Carousel.payout_text()),
        entry(
            "coinbase panel"@,
            "MINE shows who the next block pays: CHIRP lists every eligible miner + share; CAROUSEL the live template"@,
        ),
        Seq::empty(),
    ]
}

/// HELP on troubles.
pub open spec fn help_troubles() -> Seq<Seq<PieceV>> {
    seq![
        heading(" Troubleshooting"@),
        entry("build fails"@, "CL/cl.h missing → sudo apt install ocl-icd-opencl-dev opencl-headers"@),
        entry("no GPU"@, "it falls back to CPU automatically (much slower)"@),
        entry(
            "connection failed"@,
            "the pool may be down/gated; it retries with backoff, 3s to 60s (no GPU wasted while offline)"@,
        ),
        entry(
            "wrong address"@,
            "each network needs its own type: bc1 mainnet · tb1 testnet4 · bcrt1 regtest"@,
        ),
        entry("testnet4 addr"@, "SETUP [6] → g, or:  pyblockMiner --genaddr testnet4"@),
        Seq::empty(),
        Seq::empty(),
    ]
}

/// HELP on updates, and where to look further.
pub open spec fn help_links() -> Seq<Seq<PieceV>> {
    seq![
        heading(" Update"@),
        entry("new version"@, "the MINE header shows ⬆ v<x> when a newer release is published on the pool"@),
        entry(
            "update command"@,
            "cd pyblock-miner && git pull && ./build.sh    (then relaunch the miner)"@,
        ),
        Seq::empty(),
        link("  GitHub   "@, "github.com/GaltRanch/pyblock-miner"@),
        link("  Pool     "@, "pool.pyblock.xyz  ·  MIT licensed"@),
    ]
}

/// The lines of HELP.
pub open spec fn help_rows() -> Seq<Seq<PieceV>> {
    help_keys() + help_alerts() + help_pools() + help_troubles() + help_links()
}

fn add_heading(r: &mut Vec<Row>, s: &str)
    ensures
        rows(final(r)@) == rows(old(r)@).push(heading(s@)),
{
    let mut x = Row::new();
    x.add_bold(s, Ink::Cyan);
    assert(x@ =~= heading(s@));
    add_row(r, x);
}

fn add_entry(r: &mut Vec<Row>, a: &str, b: &str)
    ensures
        rows(final(r)@) == rows(old(r)@).push(entry(a@, b@)),
{
    let mut x = Row::new();
    x.add_ink(cat3("  ", pad_right(a, 17).as_str(), " ").as_str(), Ink::Green);
    x.add_ink(b, Ink::Muted);
    assert(x@ =~= entry(a@, b@));
    add_row(r, x);
}

fn add_link(r: &mut Vec<Row>, a: &str, b: &str)
    ensures
        rows(final(r)@) == rows(old(r)@).push(link(a@, b@)),
{
    let mut x = Row::new();
    x.add_ink(a, Ink::Muted);
    x.add_ink(b, Ink::Cyan);
    assert(x@ =~= link(a@, b@));
    add_row(r, x);
}

fn add_help_keys(r: &mut Vec<Row>)
    ensures
        rows(final(r)@) == rows(old(r)@) + help_keys(),
{
    let ghost before = rows(r@);
    add_heading(r, " Keys");
    add_entry(r, "1-7 / Tab", "switch tabs (MINE · DATA · STRATUMS · LEARN · NETWORK · SETUP · HELP)");
    add_entry(r, "p", "pause / resume mining (works from any tab — GPU/CPU go idle, pool stays connected)");
    add_entry(r, "DATA", "session analytics: avg/peak hashrate, net share, per-worker split, solo ETA-to-block");
    add_entry(r, "q / Esc", "quit (Esc also cancels an input)");
    add_entry(r, "STRATUMS", "↑↓ move · Enter switch live · a add · d delete custom");
    add_entry(
        r,
        "SETUP",
        "g generate · e edit address · w worker name · c CPU · +/- donation · b bell · n desktop · t telegram · x test alert",
    );
    add_entry(
        r,
        "MINE / NETWORK",
        "on CHIRP: ↑↓ PgUp PgDn Home End scroll the coinbase list (everyone in the draw)",
    );
    add_row(r, Row::new());
    assert(rows(r@) =~= before + help_keys());
}

fn add_help_alerts(r: &mut Vec<Row>)
    ensures
        rows(final(r)@) == rows(old(r)@) + help_alerts(),
{
    let ghost before = rows(r@);
    add_heading(r, " Alerts · log · API");
    add_entry(
        r,
        "alerts",
        "block found · GPU down / back · pool unreachable / back · CHIRP: on the list, in the draw, falling out, dropped",
    );
    add_entry(
        r,
        "channels",
        "terminal bell · desktop (notify-send / macOS) · Telegram (SETUP t, or --telegram token,chat) · --webhook <url> (POST JSON)",
    );
    add_entry(
        r,
        "log file",
        "every log line, timestamped → <config dir>/miner.log (rotates at 5 MB) · --no-log-file",
    );
    add_entry(
        r,
        "--api-port N",
        "http://127.0.0.1:N/ live stats as JSON · /metrics for Prometheus/Grafana · localhost only",
    );
    add_entry(r, "--worker NAME", "login as addr.NAME so the pool tells your rigs apart");
    add_row(r, Row::new());
    assert(rows(r@) =~= before + help_alerts());
}

fn add_help_pools(r: &mut Vec<Row>)
    ensures
        rows(final(r)@) == rows(old(r)@) + help_pools(),
{
    let ghost before = rows(r@);
    add_heading(r, " Pools — same BLAKE2b chain, three ways to get paid");
    add_entry(r, "🎰 LOTTO :4445", PoolMode::Lotto.payout());
    add_entry(r, "🌌 CHIRP :5574", PoolMode::Chirp.payout());
    add_entry(r, "🎠 CAROUSEL :30110", PoolMode::Carousel.payout());
    add_entry(
        r,
        "coinbase panel",
        "MINE shows who the next block pays: CHIRP lists every eligible miner + share; CAROUSEL the live template",
    );
    add_row(r, Row::new());
    assert(rows(r@) =~= before + help_pools());
}

fn add_help_troubles(r: &mut Vec<Row>)
    ensures
        rows(final(r)@) == rows(old(r)@) + help_troubles(),
{
    let ghost before = rows(r@);
    add_heading(r, " Troubleshooting");
    add_entry(r, "build fails", "CL/cl.h missing → sudo apt install ocl-icd-opencl-dev opencl-headers");
    add_entry(r, "no GPU", "it falls back to CPU automatically (much slower)");
    add_entry(
        r,
        "connection failed",
        "the pool may be down/gated; it retries with backoff, 3s to 60s (no GPU wasted while offline)",
    );
    add_entry(
        r,
        "wrong address",
        "each network needs its own type: bc1 mainnet · tb1 testnet4 · bcrt1 regtest",
    );
    add_entry(r, "testnet4 addr", "SETUP [6] → g, or:  pyblockMiner --genaddr testnet4");
    add_row(r, Row::new());
    add_row(r, Row::new());
    assert(rows(r@) =~= before + help_troubles());
}

fn add_help_links(r: &mut Vec<Row>)
    ensures
        rows(final(r)@) == rows(old(r)@) + help_links(),
{
    let ghost before = rows(r@);
    add_heading(r, " Update");
    add_entry(r, "new version", "the MINE header shows ⬆ v<x> when a newer release is published on the pool");
    add_entry(r, "update command", "cd pyblock-miner && git pull && ./build.sh    (then relaunch the miner)");
    add_row(r, Row::new());
    add_link(r, "  GitHub   ", "github.com/GaltRanch/pyblock-miner");
    add_link(r, "  Pool     ", "pool.pyblock.xyz  ·  MIT licensed");
    assert(rows(r@) =~= before + help_links());
}

/// Draws the lines of HELP.
pub fn help_lines() -> (r: Vec<Row>)
    ensures
        rows(r@) == help_rows(),
{
    let mut r = no_rows();
    add_help_keys(&mut r);
    assert(rows(r@) =~= help_keys());
    add_help_alerts(&mut r);
    add_help_pools(&mut r);
    add_help_troubles(&mut r);
    add_help_links(&mut r);
    r
}

// --------------------------------------------------------------------- laws

/// Law: SETUP shows the settings as they are.
pub proof fn law_settings_are_shown(a: AppV, donate: Seq<char>, log: Seq<char>)
    ensures
        ({
            let r = setting_rows(a, donate, log);
            &&& r.len() == 8
            &&& a.cfg.selected < a.cfg.stratums.len() ==> r[0][1].text == a.cfg.stratums[a.cfg.selected as int].name
            &&& r[0][2].text == "  ["@ + a.cfg.network() + "]"@
            &&& a.cfg.addr().len() > 0 ==> r[1][1].text == a.cfg.addr()
            &&& a.cfg.addr().len() == 0 ==> r[1][1].text == "— not set —"@
            &&& a.cfg.worker.len() > 0 ==> r[2][1].text == a.cfg.worker
            &&& donates(a.cfg.network()) ==> r[3][1].text == donate + "% (mainnet)"@
            &&& !donates(a.cfg.network()) ==> r[3][1].text == "off (testnet/regtest)"@
            &&& a.cfg.gpus matches Some(n) ==> r[4][1].text == dec(n as nat)
            &&& a.cfg.gpus is None ==> r[4][1].text == "auto"@
            &&& a.cfg.cpu ==> r[4][2].text == "   cpu: "@ + "on"@
            &&& !a.cfg.cpu ==> r[4][2].text == "   cpu: "@ + "off"@
            &&& a.cfg.log_file ==> r[6][1].text == log
            &&& !a.cfg.log_file ==> r[6][1].text == "off (--no-log-file)"@
            &&& a.cfg.api_port > 0 ==> r[7][1].text == "http://127.0.0.1:"@ + dec(a.cfg.api_port as nat)
                + "/  ·  /metrics for Prometheus"@
            &&& a.cfg.api_port == 0 ==> r[7][1].text == "off  (--api-port <port>)"@
        }),
{
}

/// Law: SETUP tells which ways alerts go out.
pub proof fn law_alert_ways_are_shown(a: AlertCfgV)
    ensures
        ({
            let bell = if a.bell { "on"@ } else { "off"@ };
            let desktop = if a.desktop { "on"@ } else { "off"@ };
            let telegram = if a.telegram_token.len() > 0 { "on → chat "@ + a.telegram_chat } else { "off"@ };
            let webhook = if a.webhook_url.len() > 0 { "on"@ } else { "off"@ };
            alerts_text(a) == "bell "@ + bell + " · desktop "@ + desktop + " · telegram "@ + telegram + " · webhook "@
                + webhook
        }),
{
}

/// Law: every page of LEARN is numbered, and a page past the end shows the last
/// one.
pub proof fn law_pages_are_numbered(page: nat)
    ensures
        page < 4 ==> shown_page(page) == page,
        page >= 4 ==> shown_page(page) == 3,
        learn_title(page) == " LEARN — "@ + dec((shown_page(page) + 1) as nat) + "/"@ + dec(4) + " · "@ + page_title(
            shown_page(page),
        ) + "   (←/→ pages) "@,
        learn_rows(page).len() == page_text(shown_page(page)).len(),
        forall|i: int|
            0 <= i < learn_rows(page).len() ==> (#[trigger] learn_rows(page)[i])[0].text == page_text(
                shown_page(page),
            )[i],
{
}

} // verus!
