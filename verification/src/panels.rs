//! The panels of the pool modes: LOTTO odds, the CAROUSEL rotation, and the
//! CHIRP coinbase.

use crate::chirp::{age, age_of, place_of_addr, status_of, ChirpInfo, ChirpInfoV, ChirpMember, MemberV, Status};
use crate::clock::{ago, fmt_ago};
use crate::config::PoolMode;
use crate::feeds::{CarouselInfo, CarouselV};
use crate::label::{mask_addr, masked};
use crate::mine::{dash, info_of, rotation_of};
use crate::paint::{add_row, bar, bar_cells, bold, dim, ink, no_rows, rows, Card, CardV, Ink, Look, PieceV, Row};
use crate::stats::strings;
use crate::text::{
    cat2, cat3, cat4, cat5, chars_of, dec, dec_text, join, joined, pad_left, pad_right, padded_left, padded_right, same,
};
use vstd::arithmetic::div_mod::lemma_fundamental_div_mod;
use vstd::prelude::*;

verus! {

// -------------------------------------------------------------------- LOTTO

/// The user's odds, as shown: the time to a block, the hashrate, and the
/// blocks a day.
pub struct Odds {
    pub time: String,
    pub rate: String,
    pub per_day: String,
}

/// The lines of LOTTO.
pub open spec fn lotto_rows(odds: Option<Odds>) -> Seq<Seq<PieceV>> {
    seq![
        seq![
            dim("  how it pays  "@),
            ink("every winning share IS a block — the whole coinbase goes to your address"@, Ink::White),
        ],
        match odds {
            Some(o) => seq![
                dim("  your odds    "@),
                bold("~"@ + o.time@ + " per block"@, Ink::Yellow),
                dim("  at "@ + o.rate@ + " GH/s · mean, high variance · ~"@ + o.per_day@ + " blocks/day"@),
            ],
            None => seq![
                dim("  your odds    "@),
                dim("waiting for hashrate + a network target to estimate your time-to-block…"@),
            ],
        },
        seq![
            dim("  payout       "@),
            ink("you keep 99.1% · PyBLØCK fee 0.9% · non-custodial"@, Ink::Pink),
        ],
    ]
}

/// Draws the lines of LOTTO.
pub fn lotto_lines(odds: &Option<Odds>) -> (r: Vec<Row>)
    ensures
        rows(r@) == lotto_rows(*odds),
{
    let mut r = no_rows();
    let mut a = Row::new();
    a.add_dim("  how it pays  ");
    a.add_ink("every winning share IS a block — the whole coinbase goes to your address", Ink::White);
    assert(a@ =~= lotto_rows(*odds)[0]);
    add_row(&mut r, a);
    let mut b = Row::new();
    b.add_dim("  your odds    ");
    match odds {
        Some(o) => {
            b.add_bold(cat3("~", o.time.as_str(), " per block").as_str(), Ink::Yellow);
            b.add_dim(
                cat5(
                    "  at ",
                    o.rate.as_str(),
                    " GH/s · mean, high variance · ~",
                    o.per_day.as_str(),
                    " blocks/day",
                ).as_str(),
            );
        },
        None => {
            b.add_dim("waiting for hashrate + a network target to estimate your time-to-block…");
        },
    }
    assert(b@ =~= lotto_rows(*odds)[1]);
    add_row(&mut r, b);
    let mut c = Row::new();
    c.add_dim("  payout       ");
    c.add_ink("you keep 99.1% · PyBLØCK fee 0.9% · non-custodial", Ink::Pink);
    assert(c@ =~= lotto_rows(*odds)[2]);
    add_row(&mut r, c);
    assert(rows(r@) =~= lotto_rows(*odds));
    r
}

// ----------------------------------------------------------------- CAROUSEL

/// The wheel: every supplier in the rotation, the one mined now lit.
pub open spec fn wheel(s: Seq<Seq<char>>, current: Seq<char>) -> Seq<PieceV>
    decreases s.len(),
{
    if s.len() == 0 {
        seq![dim("  rotation    "@)]
    } else {
        let w = wheel(s.drop_last(), current);
        let w2 = if s.len() > 1 { w.push(ink(" · "@, Ink::Quiet)) } else { w };
        w2.push(if s.last() == current { bold("▶ "@ + s.last(), Ink::White) } else { dim(s.last()) })
    }
}

/// The last `n` texts.
pub open spec fn last_texts(s: Seq<Seq<char>>, n: nat) -> Seq<Seq<char>> {
    if s.len() <= n { s } else { s.skip(s.len() - n) }
}

/// The lines of CAROUSEL. `rate` is the rotation's hashrate as shown.
pub open spec fn carousel_rows(k: Option<CarouselV>, rate: Seq<char>) -> Seq<Seq<PieceV>> {
    match k {
        None => seq![seq![dim("  loading the rotation from the pool…"@)]],
        Some(k) => seq![
            seq![
                dim("  now mining  "@),
                bold(if k.current.len() == 0 { dash() } else { k.current + "'s clean template"@ }, Ink::White),
                dim(
                    "   · "@ + dec(k.suppliers.len()) + " suppliers · "@ + dec(k.miners as nat) + " miners · "@ + rate
                        + if k.live { Seq::empty() } else { " · rotation paused"@ },
                ),
            ],
            wheel(k.suppliers, k.current),
            seq![dim("  recent      "@), ink(joined(last_texts(k.recent, 10), " › "@), Ink::Trail)],
            seq![
                dim("  payout      "@),
                ink(
                    "finder keeps 96% · supplier 3% · PyBLØCK 1% · split on-chain in the coinbase · non-custodial"@,
                    Ink::Pink,
                ),
            ],
        ],
    }
}

fn draw_wheel(s: &Vec<String>, current: &str) -> (r: Row)
    ensures
        r@ == wheel(strings(s@), current@),
{
    let ghost all = strings(s@);
    let mut r = Row::new();
    r.add_dim("  rotation    ");
    let mut i: usize = 0;
    assert(all.take(0).len() == 0);
    assert(r@ =~= wheel(all.take(0), current@));
    while i < s.len()
        invariant
            i <= s@.len(),
            all == strings(s@),
            r@ == wheel(all.take(i as int), current@),
        decreases s@.len() - i,
    {
        assert(all.take(i + 1).drop_last() =~= all.take(i as int));
        if i > 0 {
            r.add_ink(" · ", Ink::Quiet);
        }
        if same(s[i].as_str(), current) {
            r.add_bold(cat2("▶ ", s[i].as_str()).as_str(), Ink::White);
        } else {
            r.add_dim(s[i].as_str());
        }
        i = i + 1;
    }
    assert(all.take(i as int) =~= all);
    r
}

fn last_strings(s: &Vec<String>, n: usize) -> (r: Vec<String>)
    ensures
        strings(r@) == last_texts(strings(s@), n as nat),
{
    let from: usize = if s.len() <= n { 0 } else { s.len() - n };
    let mut r: Vec<String> = Vec::new();
    let mut i: usize = from;
    while i < s.len()
        invariant
            from <= i <= s@.len(),
            r@.len() == i - from,
            forall|j: int| 0 <= j < r@.len() ==> (#[trigger] r@[j])@ == s@[from + j]@,
        decreases s@.len() - i,
    {
        r.push(s[i].clone());
        i = i + 1;
    }
    assert(strings(r@) =~= last_texts(strings(s@), n as nat));
    r
}

/// Draws the lines of CAROUSEL.
pub fn carousel_lines(k: &Option<CarouselInfo>, rate: &str) -> (r: Vec<Row>)
    ensures
        rows(r@) == carousel_rows(rotation_of(*k), rate@),
{
    let mut r = no_rows();
    let ghost want = carousel_rows(rotation_of(*k), rate@);
    match k {
        None => {
            let mut a = Row::new();
            a.add_dim("  loading the rotation from the pool…");
            assert(a@ =~= want[0]);
            add_row(&mut r, a);
        },
        Some(k) => {
            let mut a = Row::new();
            a.add_dim("  now mining  ");
            let now = if k.current.as_str().is_empty() {
                "—".to_owned()
            } else {
                cat2(k.current.as_str(), "'s clean template")
            };
            a.add_bold(now.as_str(), Ink::White);
            let mut t = cat5(
                "   · ",
                dec_text(k.suppliers.len() as u64).as_str(),
                " suppliers · ",
                dec_text(k.miners).as_str(),
                " miners · ",
            );
            t.append(rate);
            if !k.live {
                t.append(" · rotation paused");
            } else {
                assert(t@ + Seq::<char>::empty() =~= t@);
            }
            a.add_dim(t.as_str());
            assert(a@ =~= want[0]);
            add_row(&mut r, a);
            let w = draw_wheel(&k.suppliers, k.current.as_str());
            add_row(&mut r, w);
            let trail = last_strings(&k.recent, 10);
            assert(strings(trail@) =~= Seq::new(trail@.len(), |i: int| trail@[i]@));
            let mut c = Row::new();
            c.add_dim("  recent      ");
            c.add_ink(join(&trail, " › ").as_str(), Ink::Trail);
            assert(c@ =~= want[2]);
            add_row(&mut r, c);
            let mut d = Row::new();
            d.add_dim("  payout      ");
            d.add_ink(
                "finder keeps 96% · supplier 3% · PyBLØCK 1% · split on-chain in the coinbase · non-custodial",
                Ink::Pink,
            );
            assert(d@ =~= want[3]);
            add_row(&mut r, d);
        },
    }
    assert(rows(r@) =~= want);
    r
}

// -------------------------------------------------------------------- CHIRP

/// A member's numbers as shown: tenure, power, share in percent, the days that
/// it lacks, and how many of ten cells its bar fills.
pub struct MemberTexts {
    pub days: String,
    pub power: String,
    pub pct: String,
    pub missing: String,
    pub cells: usize,
}

/// How wide the panel is: whether it shows whole addresses, and whether it
/// shows the members' power.
pub struct PanelWidth {
    pub full: bool,
    pub power: bool,
}

/// What fits in a width.
pub open spec fn fits(width: nat) -> PanelWidth {
    PanelWidth { full: width >= 124, power: width >= 96 }
}

/// How many columns an address takes.
pub open spec fn addr_columns(full: bool) -> nat {
    if full { 62 } else { 13 }
}

/// How a member is doing, as shown.
pub open spec fn status_piece(s: Status, missing: Seq<char>) -> PieceV {
    match s {
        Status::Waiting => ink("⏳ "@ + missing + " d to go"@, Ink::Amber),
        Status::Weak => ink("⚠ below min power"@, Ink::Amber),
        Status::Pending => ink("⏳ pending"@, Ink::Amber),
        Status::Dropping(h) => ink("⚠ drops in "@ + dec(h as nat) + "h"@, Ink::Red),
        Status::Offline(a) => ink("● offline "@ + ago(a as nat), Ink::Amber),
        Status::Eligible => ink("● eligible"@, Ink::Green),
    }
}

/// How a member's address is drawn.
pub open spec fn name_look(is_me: bool, eligible: bool) -> Look {
    if is_me {
        Look { ink: Ink::Purple, bold: true, on: Ink::Plain }
    } else if eligible {
        Look { ink: Ink::White, bold: false, on: Ink::Plain }
    } else {
        Look { ink: Ink::Muted, bold: false, on: Ink::Plain }
    }
}

/// A member's line, up to its status.
pub open spec fn member_head(m: MemberV, t: MemberTexts, i: int, is_me: bool, w: PanelWidth) -> Seq<PieceV> {
    let a = seq![
        bold(if is_me { "  ▶ "@ } else { "    "@ }, Ink::Purple),
        dim(padded_left(dec((i + 1) as nat), 2, ' ') + "  "@),
        PieceV {
            text: padded_right(masked(m.addr, w.full), addr_columns(w.full)) + "  "@,
            look: name_look(is_me, m.eligible),
        },
        dim(padded_left(t.days@, 5, ' ') + " d  "@),
    ];
    let b = if w.power { a.push(dim(padded_left(t.power@, 9, ' ') + "  "@)) } else { a };
    let share = " "@ + padded_left(t.pct@, 6, ' ') + "%   "@;
    if m.eligible {
        b.push(ink(bar_cells(t.cells as nat, 10), if is_me { Ink::Purple } else { Ink::Soft })).push(
            if is_me { bold(share, Ink::White) } else { ink(share, Ink::White) },
        )
    } else {
        b.push(ink(bar_cells(t.cells as nat, 10), Ink::Quiet)).push(
            dim(" "@ + padded_left(dash(), 6, ' ') + "   "@),
        )
    }
}

/// A member's line.
pub open spec fn member_row(
    m: MemberV,
    t: MemberTexts,
    i: int,
    addr: Seq<char>,
    c: ChirpInfoV,
    w: PanelWidth,
    now: u64,
) -> Seq<PieceV> {
    let is_me = addr.len() > 0 && m.addr == addr;
    let r = member_head(m, t, i, is_me, w).push(
        status_piece(status_of(m, c.min_days, c.min_power, now), t.missing@),
    );
    if is_me { r.push(bold("  you"@, Ink::Purple)) } else { r }
}

/// The members' lines.
pub open spec fn member_rows(
    c: ChirpInfoV,
    t: Seq<MemberTexts>,
    addr: Seq<char>,
    w: PanelWidth,
    now: u64,
) -> Seq<Seq<PieceV>> {
    Seq::new(c.members.len(), |i: int| member_row(c.members[i], t[i], i, addr, c, w, now))
}

fn status_text(s: Status, missing: &str) -> (r: (String, Ink))
    ensures
        ink(r.0@, r.1) == status_piece(s, missing@),
{
    match s {
        Status::Waiting => (cat3("⏳ ", missing, " d to go"), Ink::Amber),
        Status::Weak => ("⚠ below min power".to_owned(), Ink::Amber),
        Status::Pending => ("⏳ pending".to_owned(), Ink::Amber),
        Status::Dropping(h) => (cat3("⚠ drops in ", dec_text(h).as_str(), "h"), Ink::Red),
        Status::Offline(a) => (cat2("● offline ", fmt_ago(a).as_str()), Ink::Amber),
        Status::Eligible => ("● eligible".to_owned(), Ink::Green),
    }
}

fn draw_member_head(m: &ChirpMember, t: &MemberTexts, i: usize, is_me: bool, w: &PanelWidth) -> (r: Row)
    requires
        i < usize::MAX,
    ensures
        r@ == member_head(m@, *t, i as int, is_me, *w),
{
    let mut r = Row::new();
    r.add_bold(if is_me { "  ▶ " } else { "    " }, Ink::Purple);
    let number = pad_left(dec_text((i + 1) as u64).as_str(), 2, ' ');
    r.add_dim(cat2(number.as_str(), "  ").as_str());
    let columns: usize = if w.full { 62 } else { 13 };
    let name = pad_right(mask_addr(m.addr.as_str(), w.full).as_str(), columns);
    let look = if is_me {
        Look { ink: Ink::Purple, bold: true, on: Ink::Plain }
    } else if m.eligible {
        Look { ink: Ink::White, bold: false, on: Ink::Plain }
    } else {
        Look { ink: Ink::Muted, bold: false, on: Ink::Plain }
    };
    r.add_look(cat2(name.as_str(), "  ").as_str(), look);
    r.add_dim(cat2(pad_left(t.days.as_str(), 5, ' ').as_str(), " d  ").as_str());
    assert(r@ =~= seq![
        bold(if is_me { "  ▶ "@ } else { "    "@ }, Ink::Purple),
        dim(padded_left(dec((i + 1) as nat), 2, ' ') + "  "@),
        PieceV {
            text: padded_right(masked(m@.addr, w.full), addr_columns(w.full)) + "  "@,
            look: name_look(is_me, m@.eligible),
        },
        dim(padded_left(t.days@, 5, ' ') + " d  "@),
    ]);
    if w.power {
        r.add_dim(cat2(pad_left(t.power.as_str(), 9, ' ').as_str(), "  ").as_str());
    }
    let cells = bar(t.cells, 10);
    if m.eligible {
        r.add_ink(cells.as_str(), if is_me { Ink::Purple } else { Ink::Soft });
        let share = cat3(" ", pad_left(t.pct.as_str(), 6, ' ').as_str(), "%   ");
        if is_me {
            r.add_bold(share.as_str(), Ink::White);
        } else {
            r.add_ink(share.as_str(), Ink::White);
        }
    } else {
        r.add_ink(cells.as_str(), Ink::Quiet);
        r.add_dim(cat3(" ", pad_left("—", 6, ' ').as_str(), "   ").as_str());
    }
    r
}

fn draw_member(c: &ChirpInfo, t: &MemberTexts, i: usize, addr: &str, w: &PanelWidth, now: u64) -> (r: Row)
    requires
        i < c.members@.len(),
    ensures
        r@ == member_row(c@.members[i as int], *t, i as int, addr@, c@, *w, now),
{
    let n: usize = c.members.len();
    assert(i < n);
    let m = &c.members[i];
    let is_me = !addr.is_empty() && same(m.addr.as_str(), addr);
    let mut r = draw_member_head(m, t, i, is_me, w);
    let (text, colour) = status_text(m.status(c.min_days, c.min_power, now), t.missing.as_str());
    r.add_ink(text.as_str(), colour);
    if is_me {
        r.add_bold("  you", Ink::Purple);
    }
    r
}

/// The numbers of the panel's head, as shown: the hashrate, the last reward in
/// BTC if there was one, and the user's share in percent, cut in BTC, expected
/// income a day, tenure, power, the tenure that is asked for, and how many of
/// ten cells the bar to it fills.
pub struct HeadTexts {
    pub rate: String,
    pub reward: Option<String>,
    pub pct: String,
    pub cut: String,
    pub expected: String,
    pub days: String,
    pub power: String,
    pub min_days: String,
    pub cells: usize,
}

/// The syndicate in one line.
pub open spec fn draw_row(c: ChirpInfoV, t: HeadTexts) -> Seq<PieceV> {
    seq![
        bold("  "@ + dec(c.candidates as nat) + " "@, Ink::Purple),
        dim("eligible miners share every block · "@),
        ink(t.rate@, Ink::White),
        dim(
            " · "@ + dec(c.workers as nat) + " workers · "@ + dec(c.blocks as nat) + " blocks · last reward "@
                + match t.reward {
                Some(s) => s@ + " BTC"@,
                None => dash(),
            },
        ),
    ]
}

/// The user in one line.
pub open spec fn you_row(c: ChirpInfoV, addr: Seq<char>, t: HeadTexts) -> Seq<PieceV> {
    let i = place_of_addr(c.members, addr);
    if i < 0 {
        seq![
            dim("  you  "@),
            dim(
                "not in the draw yet — mine here "@ + t.min_days@
                    + " days to enter · the pool lists you once it sees your shares"@,
            ),
        ]
    } else if c.members[i].eligible {
        seq![
            bold("  you  "@, Ink::Purple),
            bold(t.pct@ + "% of every block ≈ "@ + t.cut@ + " BTC"@, Ink::White),
            ink(" · ≈ "@ + t.expected@ + " / day expected"@, Ink::Purple),
            dim(" · tenure "@ + t.days@ + " d · power "@ + t.power@),
        ]
    } else {
        seq![
            bold("  you  "@, Ink::Amber),
            ink(
                "joining the draw · "@ + t.days@ + " of "@ + t.min_days@ + " days  "@ + bar_cells(t.cells as nat, 10)
                    + "  keep mining, stay connected"@,
                Ink::Amber,
            ),
        ]
    }
}

/// The columns' titles.
pub open spec fn titles_row(w: PanelWidth) -> Seq<PieceV> {
    seq![
        ink(
            "    "@ + padded_left("#"@, 2, ' ') + "  "@ + padded_right("MINER"@, addr_columns(w.full)) + "  "@
                + padded_left("TENURE"@, 7, ' ') + "  "@ + (if w.power {
                padded_left("POWER 24h"@, 9, ' ') + "  "@
            } else {
                Seq::empty()
            }) + padded_right("SHARE"@, 10) + " "@ + padded_left(Seq::empty(), 7, ' ') + "   STATUS"@,
            Ink::Quiet,
        ),
    ]
}

fn draw_summary(c: &ChirpInfo, t: &HeadTexts) -> (r: Row)
    ensures
        r@ == draw_row(c@, *t),
{
    let mut r = Row::new();
    r.add_bold(cat3("  ", dec_text(c.candidates).as_str(), " ").as_str(), Ink::Purple);
    r.add_dim("eligible miners share every block · ");
    r.add_ink(t.rate.as_str(), Ink::White);
    let reward = match &t.reward {
        Some(s) => cat2(s.as_str(), " BTC"),
        None => "—".to_owned(),
    };
    let mut line = cat5(
        " · ",
        dec_text(c.workers).as_str(),
        " workers · ",
        dec_text(c.blocks).as_str(),
        " blocks · last reward ",
    );
    line.append(reward.as_str());
    r.add_dim(line.as_str());
    assert(r@ =~= draw_row(c@, *t));
    r
}

fn draw_you(c: &ChirpInfo, addr: &str, t: &HeadTexts) -> (r: Row)
    ensures
        r@ == you_row(c@, addr@, *t),
{
    let mut r = Row::new();
    match c.me(addr) {
        None => {
            r.add_dim("  you  ");
            r.add_dim(
                cat3(
                    "not in the draw yet — mine here ",
                    t.min_days.as_str(),
                    " days to enter · the pool lists you once it sees your shares",
                ).as_str(),
            );
        },
        Some(m) => {
            if m.eligible {
                r.add_bold("  you  ", Ink::Purple);
                r.add_bold(cat4(t.pct.as_str(), "% of every block ≈ ", t.cut.as_str(), " BTC").as_str(), Ink::White);
                r.add_ink(cat3(" · ≈ ", t.expected.as_str(), " / day expected").as_str(), Ink::Purple);
                r.add_dim(cat4(" · tenure ", t.days.as_str(), " d · power ", t.power.as_str()).as_str());
            } else {
                r.add_bold("  you  ", Ink::Amber);
                let mut line = cat5(
                    "joining the draw · ",
                    t.days.as_str(),
                    " of ",
                    t.min_days.as_str(),
                    " days  ",
                );
                line.append(bar(t.cells, 10).as_str());
                line.append("  keep mining, stay connected");
                r.add_ink(line.as_str(), Ink::Amber);
            }
        },
    }
    assert(r@ =~= you_row(c@, addr@, *t));
    r
}

fn draw_titles(w: &PanelWidth) -> (r: Row)
    ensures
        r@ == titles_row(*w),
{
    let columns: usize = if w.full { 62 } else { 13 };
    let mut line = "    ".to_owned();
    line.append(pad_left("#", 2, ' ').as_str());
    line.append("  ");
    line.append(pad_right("MINER", columns).as_str());
    line.append("  ");
    line.append(pad_left("TENURE", 7, ' ').as_str());
    line.append("  ");
    let power = if w.power {
        cat2(pad_left("POWER 24h", 9, ' ').as_str(), "  ")
    } else {
        String::new()
    };
    assert(power@ =~= if w.power { padded_left("POWER 24h"@, 9, ' ') + "  "@ } else { Seq::empty() });
    line.append(power.as_str());
    line.append(pad_right("SHARE", 10).as_str());
    line.append(" ");
    let nothing = String::new();
    assert(nothing@ =~= Seq::<char>::empty());
    line.append(pad_left(nothing.as_str(), 7, ' ').as_str());
    line.append("   STATUS");
    let mut r = Row::new();
    r.add_ink(line.as_str(), Ink::Quiet);
    assert(r@ =~= titles_row(*w));
    r
}

// ------------------------------------------------------------------- window

/// Where a window of `vis` lines into `n` lines starts: where it is scrolled
/// to, but never past the last full window.
pub open spec fn window_start(scroll: nat, n: nat, vis: nat) -> nat {
    let last = if n > vis { (n - vis) as nat } else { 0 };
    if scroll < last { scroll } else { last }
}

/// How many lines a window shows.
pub open spec fn window_len(n: nat, vis: nat) -> nat {
    if n < vis { n } else { vis }
}

/// Where a window starts.
pub fn window(scroll: usize, n: usize, vis: usize) -> (r: usize)
    ensures
        r == window_start(scroll as nat, n as nat, vis as nat),
{
    let last: usize = if n > vis { n - vis } else { 0 };
    if scroll < last { scroll } else { last }
}

/// Law: a window stays within the list, and every line can be scrolled to.
pub proof fn law_window_shows_the_list(scroll: nat, n: nat, vis: nat, line: nat)
    requires
        vis > 0,
        line < n,
    ensures
        window_start(scroll, n, vis) + window_len(n, vis) <= n,
        window_start(line, n, vis) <= line < window_start(line, n, vis) + window_len(n, vis),
{
}

/// The panel's title.
pub open spec fn chirp_title(members: nat, off: nat, vis: nat, fetched: u64, now: u64) -> Seq<char> {
    "🌌 CHIRP · who is in the coinbase · "@ + dec(members) + " miners"@ + (if members > vis && vis > 0 {
        " · ↑↓ "@ + dec(off + 1) + "–"@ + dec(if off + vis < members { off + vis } else { members }) + " of "@ + dec(
            members,
        )
    } else {
        Seq::empty()
    }) + " · updated "@ + ago(age(fetched, now) as nat) + " ago"@
}

/// How many lines of members a panel of a height shows.
pub open spec fn visible(height: u16) -> nat {
    if height < 5 { 0 } else { (height - 5) as nat }
}

/// What fits in a panel of a width.
pub open spec fn panel_fits(width: u16) -> PanelWidth {
    fits(if width < 2 { 0 } else { (width - 2) as nat })
}

/// The panel of CHIRP.
pub open spec fn chirp_card(
    c: Option<ChirpInfoV>,
    addr: Seq<char>,
    t: HeadTexts,
    m: Seq<MemberTexts>,
    scroll: nat,
    width: u16,
    height: u16,
    now: u64,
) -> CardV {
    match c {
        None => CardV {
            title: "🌌 CHIRP · who is in the coinbase"@,
            accent: Ink::Purple,
            lines: seq![seq![dim("  loading the coinbase draw from the pool…"@)]],
        },
        Some(c) => {
            let w = panel_fits(width);
            let n = c.members.len();
            let vis = visible(height);
            let off = window_start(scroll, n, vis);
            CardV {
                title: chirp_title(n, off, vis, c.fetched, now),
                accent: Ink::Purple,
                lines: seq![draw_row(c, t), you_row(c, addr, t), titles_row(w)] + member_rows(
                    c,
                    m,
                    addr,
                    w,
                    now,
                ).subrange(off as int, (off + window_len(n, vis)) as int),
            }
        },
    }
}

fn title_text(members: usize, off: usize, vis: usize, fetched: u64, now: u64) -> (r: String)
    requires
        off + vis <= usize::MAX,
    ensures
        r@ == chirp_title(members as nat, off as nat, vis as nat, fetched, now),
{
    let mut r = "🌌 CHIRP · who is in the coinbase · ".to_owned();
    r.append(dec_text(members as u64).as_str());
    r.append(" miners");
    if members > vis && vis > 0 {
        let last: usize = if off + vis < members { off + vis } else { members };
        let mut hint = " · ↑↓ ".to_owned();
        hint.append(dec_text((off + 1) as u64).as_str());
        hint.append("–");
        hint.append(dec_text(last as u64).as_str());
        hint.append(" of ");
        hint.append(dec_text(members as u64).as_str());
        r.append(hint.as_str());
    } else {
        assert(r@ + Seq::<char>::empty() =~= r@);
    }
    r.append(" · updated ");
    r.append(fmt_ago(age_of(fetched, now)).as_str());
    r.append(" ago");
    r
}

/// Draws the panel of CHIRP.
pub fn chirp_panel(
    c: &Option<ChirpInfo>,
    addr: &str,
    t: &HeadTexts,
    m: &Vec<MemberTexts>,
    scroll: usize,
    width: u16,
    height: u16,
    now: u64,
) -> (r: Card)
    requires
        c is Some ==> m@.len() == c->0.members@.len(),
    ensures
        r@ == chirp_card(info_of(*c), addr@, *t, m@, scroll as nat, width, height, now),
{
    let mut lines = no_rows();
    let c = match c {
        None => {
            let mut a = Row::new();
            a.add_dim("  loading the coinbase draw from the pool…");
            assert(a@ =~= seq![dim("  loading the coinbase draw from the pool…"@)]);
            add_row(&mut lines, a);
            assert(rows(lines@) =~= seq![seq![dim("  loading the coinbase draw from the pool…"@)]]);
            return Card {
                title: "🌌 CHIRP · who is in the coinbase".to_owned(),
                accent: Ink::Purple,
                lines,
            };
        },
        Some(c) => c,
    };
    let inner: u16 = if width < 2 { 0 } else { width - 2 };
    let w = PanelWidth { full: inner >= 124, power: inner >= 96 };
    assert(w == panel_fits(width));
    let n: usize = c.members.len();
    let vis: usize = if height < 5 { 0 } else { (height - 5) as usize };
    let off: usize = window(scroll, n, vis);
    let end: usize = if n < vis { n } else { off + vis };
    add_row(&mut lines, draw_summary(c, t));
    add_row(&mut lines, draw_you(c, addr, t));
    add_row(&mut lines, draw_titles(&w));
    let ghost head = rows(lines@);
    let ghost all = member_rows(c@, m@, addr@, w, now);
    assert(head =~= seq![draw_row(c@, *t), you_row(c@, addr@, *t), titles_row(w)]);
    assert(head + all.subrange(off as int, off as int) =~= head);
    let mut i: usize = off;
    while i < end
        invariant
            off <= i <= end <= n,
            n == c.members@.len(),
            m@.len() == n,
            all == member_rows(c@, m@, addr@, w, now),
            rows(lines@) == head + all.subrange(off as int, i as int),
        decreases end - i,
    {
        let row = draw_member(c, &m[i], i, addr, &w, now);
        add_row(&mut lines, row);
        assert(all[i as int] == row@);
        assert(head + all.subrange(off as int, i + 1) =~= (head + all.subrange(off as int, i as int)).push(row@));
        i = i + 1;
    }
    Card { title: title_text(n, off, vis, c.fetched, now), accent: Ink::Purple, lines }
}

// --------------------------------------------------------------- mode panel

/// How many columns a panel's text has.
pub open spec fn text_columns(width: u16) -> nat {
    if width < 22 { 20 } else { (width - 2) as nat }
}

/// How many rows a line of a length takes once wrapped.
pub open spec fn wrapped(len: nat, columns: nat) -> nat {
    let n = if len < 1 { 1 } else { len };
    (n + columns - 1) as nat / columns
}

/// What the names take in a line: each with its separator.
pub open spec fn names_len(s: Seq<Seq<char>>) -> nat
    decreases s.len(),
{
    if s.len() == 0 { 0 } else { names_len(s.drop_last()) + s.last().len() + 3 }
}

/// How many rows the mode's panel wants.
pub open spec fn wanted_rows(
    mode: PoolMode,
    members: Option<nat>,
    k: Option<CarouselV>,
    width: u16,
) -> nat {
    let w = text_columns(width);
    match mode {
        PoolMode::Chirp => match members {
            Some(n) => n + 3,
            None => 1,
        },
        PoolMode::Carousel => match k {
            Some(k) => 1 + wrapped(14 + names_len(k.suppliers) + 2, w) + wrapped(
                14 + names_len(last_texts(k.recent, 10)),
                w,
            ) + wrapped(106, w),
            None => 1,
        },
        PoolMode::Lotto => 3,
        PoolMode::Custom => 2,
    }
}

fn names_width(s: &Vec<String>) -> (r: u128)
    requires
        s@.len() <= isize::MAX,
    ensures
        r == names_len(strings(s@)),
        r <= s@.len() * 0x1_0000_0000_0000_0002,
{
    let ghost all = strings(s@);
    let mut n: u128 = 0;
    let mut i: usize = 0;
    assert(all.take(0).len() == 0);
    while i < s.len()
        invariant
            i <= s@.len(),
            s@.len() <= isize::MAX,
            all == strings(s@),
            n == names_len(all.take(i as int)),
            n <= i * 0x1_0000_0000_0000_0002,
        decreases s@.len() - i,
    {
        assert(all.take(i + 1).drop_last() =~= all.take(i as int));
        let l: usize = chars_of(s[i].as_str()).len();
        assert((i + 1) * 0x1_0000_0000_0000_0002 <= 0x8000_0000_0000_0000 * 0x1_0000_0000_0000_0002)
            by (nonlinear_arith)
            requires
                i < 0x8000_0000_0000_0000,
        ;
        n = n + l as u128 + 3;
        i = i + 1;
    }
    assert(all.take(i as int) =~= all);
    n
}

fn wrapped_rows(len: u128, columns: u16) -> (r: u128)
    requires
        len < 0x8000_0000_0000_0000 * 0x1_0000_0000_0000_0002 + 100,
        columns >= 1,
    ensures
        r == wrapped(len as nat, columns as nat),
        r <= len + 1,
{
    let n: u128 = if len < 1 { 1 } else { len };
    let c: u128 = columns as u128;
    assert((n + c - 1) / (c as int) <= n) by (nonlinear_arith)
        requires
            n >= 1,
            c >= 1,
    ;
    (n + c - 1) / c
}

/// How many rows the mode's panel wants.
pub fn mode_panel_rows(mode: PoolMode, members: Option<usize>, k: &Option<CarouselInfo>, width: u16) -> (r: u128)
    requires
        k is Some ==> k->0.suppliers@.len() <= isize::MAX,
    ensures
        r == wanted_rows(
            mode,
            match members {
                Some(n) => Some(n as nat),
                None => None,
            },
            rotation_of(*k),
            width,
        ),
{
    let w: u16 = if width < 22 { 20 } else { width - 2 };
    match mode {
        PoolMode::Chirp => match members {
            Some(n) => n as u128 + 3,
            None => 1,
        },
        PoolMode::Carousel => match k {
            Some(k) => {
                let recent = last_strings(&k.recent, 10);
                assert(recent@.len() == strings(recent@).len());
                let a = names_width(&k.suppliers);
                let b = names_width(&recent);
                assert(k.suppliers@.len() * 0x1_0000_0000_0000_0002 <= 0x7fff_ffff_ffff_ffff * 0x1_0000_0000_0000_0002)
                    by (nonlinear_arith)
                    requires
                        k.suppliers@.len() <= 0x7fff_ffff_ffff_ffff,
                ;
                assert(recent@.len() * 0x1_0000_0000_0000_0002 <= 10 * 0x1_0000_0000_0000_0002) by (nonlinear_arith)
                    requires
                        recent@.len() <= 10,
                ;
                1 + wrapped_rows(16 + a, w) + wrapped_rows(14 + b, w) + wrapped_rows(106, w)
            },
            None => 1,
        },
        PoolMode::Lotto => 3,
        PoolMode::Custom => 2,
    }
}

/// The panel of CAROUSEL.
pub open spec fn carousel_card(k: Option<CarouselV>, rate: Seq<char>, now: u64) -> CardV {
    CardV {
        title: "🎠 CAROUSEL · rotating clean templates"@ + match k {
            Some(k) => " · updated "@ + ago(age(k.fetched, now) as nat) + " ago"@,
            None => Seq::empty(),
        },
        accent: Ink::White,
        lines: carousel_rows(k, rate),
    }
}

/// Draws the panel of CAROUSEL.
pub fn carousel_panel(k: &Option<CarouselInfo>, rate: &str, now: u64) -> (r: Card)
    ensures
        r@ == carousel_card(rotation_of(*k), rate@, now),
{
    let mut title = "🎠 CAROUSEL · rotating clean templates".to_owned();
    match k {
        Some(k) => {
            let t = cat3(" · updated ", fmt_ago(age_of(k.fetched, now)).as_str(), " ago");
            title.append(t.as_str());
        },
        None => {
            assert(title@ + Seq::<char>::empty() =~= title@);
        },
    }
    Card { title, accent: Ink::White, lines: carousel_lines(k, rate) }
}

/// Draws the panel of LOTTO.
pub fn lotto_panel(odds: &Option<Odds>) -> (r: Card)
    ensures
        r@ == (CardV { title: "🎰 LOTTO · solo lottery"@, accent: Ink::Yellow, lines: lotto_rows(*odds) }),
{
    Card { title: "🎰 LOTTO · solo lottery".to_owned(), accent: Ink::Yellow, lines: lotto_lines(odds) }
}

/// The panel of a custom pool.
pub open spec fn custom_card(endpoint: Seq<char>) -> CardV {
    CardV {
        title: "⛏ CUSTOM STRATUM"@,
        accent: Ink::Cyan,
        lines: seq![
            seq![dim("  stratum  "@), ink(endpoint, Ink::White)],
            seq![dim("  payout   "@), dim(PoolMode::Custom.payout_text())],
        ],
    }
}

/// Draws the panel of a custom pool.
pub fn custom_panel(endpoint: &str) -> (r: Card)
    ensures
        r@ == custom_card(endpoint@),
{
    let mut lines = no_rows();
    let mut a = Row::new();
    a.add_dim("  stratum  ");
    a.add_ink(endpoint, Ink::White);
    assert(a@ =~= custom_card(endpoint@).lines[0]);
    add_row(&mut lines, a);
    let mut b = Row::new();
    b.add_dim("  payout   ");
    b.add_dim(PoolMode::Custom.payout());
    assert(b@ =~= custom_card(endpoint@).lines[1]);
    add_row(&mut lines, b);
    assert(rows(lines@) =~= custom_card(endpoint@).lines);
    Card { title: "⛏ CUSTOM STRATUM".to_owned(), accent: Ink::Cyan, lines }
}

// --------------------------------------------------------------------- laws

/// Law: the user's own line is marked and ends with `you`; no other is.
pub proof fn law_only_your_line_is_marked(
    m: MemberV,
    t: MemberTexts,
    i: int,
    addr: Seq<char>,
    c: ChirpInfoV,
    w: PanelWidth,
    now: u64,
)
    requires
        i >= 0,
    ensures
        ({
            let r = member_row(m, t, i, addr, c, w, now);
            let status = status_piece(status_of(m, c.min_days, c.min_power, now), t.missing@);
            &&& addr.len() > 0 && m.addr == addr ==> r[0].text == "  ▶ "@ && r.last().text == "  you"@ && r[r.len() - 2]
                == status
            &&& addr.len() == 0 || m.addr != addr ==> r[0].text == "    "@ && r.last() == status
        }),
{
}

/// Law: a member's line holds its place, its masked address, its tenure, its
/// power where there is room, and its share where it is eligible.
pub proof fn law_lines_tell_the_member(
    m: MemberV,
    t: MemberTexts,
    i: int,
    addr: Seq<char>,
    c: ChirpInfoV,
    w: PanelWidth,
    now: u64,
)
    requires
        i >= 0,
    ensures
        ({
            let r = member_row(m, t, i, addr, c, w, now);
            let k: int = if w.power { 5 } else { 4 };
            &&& r.len() >= k + 3
            &&& r[1].text == padded_left(dec((i + 1) as nat), 2, ' ') + "  "@
            &&& r[2].text == padded_right(masked(m.addr, w.full), if w.full { 62 } else { 13 }) + "  "@
            &&& r[3].text == padded_left(t.days@, 5, ' ') + " d  "@
            &&& w.power ==> r[4].text == padded_left(t.power@, 9, ' ') + "  "@
            &&& r[k].text == bar_cells(t.cells as nat, 10)
            &&& m.eligible ==> r[k + 1].text == " "@ + padded_left(t.pct@, 6, ' ') + "%   "@
            &&& !m.eligible ==> r[k + 1].text == " "@ + padded_left("—"@, 6, ' ') + "   "@
        }),
{
}

/// Law: a member's standing is told in its own words.
pub proof fn law_standings_are_told(missing: Seq<char>, h: u64, a: u64)
    ensures
        status_piece(Status::Waiting, missing).text == "⏳ "@ + missing + " d to go"@,
        status_piece(Status::Weak, missing).text == "⚠ below min power"@,
        status_piece(Status::Pending, missing).text == "⏳ pending"@,
        status_piece(Status::Eligible, missing).text == "● eligible"@,
        status_piece(Status::Dropping(h), missing).text == "⚠ drops in "@ + dec(h as nat) + "h"@,
        status_piece(Status::Offline(a), missing).text == "● offline "@ + ago(a as nat),
{
}

/// Law: the panel lists the members in their order, from the line it is
/// scrolled to; all of them where they fit.
pub proof fn law_members_are_listed_in_order(
    c: ChirpInfoV,
    addr: Seq<char>,
    t: HeadTexts,
    m: Seq<MemberTexts>,
    scroll: nat,
    width: u16,
    height: u16,
    now: u64,
    k: int,
)
    requires
        height >= 5,
    ensures
        ({
            let l = chirp_card(Some(c), addr, t, m, scroll, width, height, now).lines;
            let n = c.members.len();
            let vis: int = height - 5;
            let shown = l.len() - 3;
            let w = panel_fits(width);
            &&& n <= vis ==> shown == n && (0 <= k < n ==> l[3 + k] == member_row(c.members[k], m[k], k, addr, c, w, now))
            &&& n > vis ==> shown == vis
            &&& n > vis && scroll + vis <= n && 0 <= k < vis ==> l[3 + k] == member_row(
                c.members[scroll + k],
                m[scroll + k],
                scroll + k,
                addr,
                c,
                w,
                now,
            )
        }),
{
}

/// Law: the user's line at the top follows their standing.
pub proof fn law_you_follow_your_standing(c: ChirpInfoV, addr: Seq<char>, t: HeadTexts)
    ensures
        ({
            let i = place_of_addr(c.members, addr);
            let r = you_row(c, addr, t);
            &&& i < 0 ==> r[1].text == "not in the draw yet — mine here "@ + t.min_days@
                + " days to enter · the pool lists you once it sees your shares"@
            &&& i >= 0 && c.members[i].eligible ==> r[1].text == t.pct@ + "% of every block ≈ "@ + t.cut@ + " BTC"@
                && r[2].text == " · ≈ "@ + t.expected@ + " / day expected"@
            &&& i >= 0 && !c.members[i].eligible ==> r[1].text == "joining the draw · "@ + t.days@ + " of "@ + t.min_days@
                + " days  "@ + bar_cells(t.cells as nat, 10) + "  keep mining, stay connected"@
        }),
{
}

/// Law: the wheel holds every supplier in its order, and lights those that are
/// the current one.
pub proof fn law_wheel_holds_every_supplier(s: Seq<Seq<char>>, current: Seq<char>, i: int)
    requires
        0 <= i < s.len(),
    ensures
        wheel(s, current).len() == 2 * s.len(),
        s[i] == current ==> wheel(s, current)[2 * i + 1].text == "▶ "@ + s[i] && wheel(
            s,
            current,
        )[2 * i + 1].look.bold,
        s[i] != current ==> wheel(s, current)[2 * i + 1].text == s[i] && !wheel(s, current)[2 * i + 1].look.bold,
    decreases s.len(),
{
    let d = s.drop_last();
    if d.len() > 0 {
        if i < d.len() {
            law_wheel_holds_every_supplier(d, current, i);
        } else {
            law_wheel_holds_every_supplier(d, current, 0);
        }
    } else {
        assert(wheel(d, current).len() == 1);
    }
}

/// Law: the last texts are the end of the list.
pub proof fn law_last_texts_are_the_end(s: Seq<Seq<char>>, n: nat)
    ensures
        last_texts(s, n).len() == if s.len() < n { s.len() } else { n },
        forall|k: int|
            0 <= k < last_texts(s, n).len() ==> #[trigger] last_texts(s, n)[k] == s[s.len() - last_texts(s, n).len() + k],
{
}

/// Law: the rotation's panel tells the supplier that is mined now, and how many
/// there are.
pub proof fn law_rotation_panel(k: CarouselV, rate: Seq<char>)
    ensures
        ({
            let r = carousel_rows(Some(k), rate);
            &&& r.len() == 4
            &&& k.current.len() > 0 ==> r[0][1].text == k.current + "'s clean template"@
            &&& k.live ==> r[0][2].text == "   · "@ + dec(k.suppliers.len()) + " suppliers · "@ + dec(k.miners as nat)
                + " miners · "@ + rate
            &&& !k.live ==> r[0][2].text == "   · "@ + dec(k.suppliers.len()) + " suppliers · "@ + dec(k.miners as nat)
                + " miners · "@ + rate + " · rotation paused"@
            &&& r[1] == wheel(k.suppliers, k.current)
            &&& r[2][1].text == joined(last_texts(k.recent, 10), " › "@)
        }),
{
    let t = "   · "@ + dec(k.suppliers.len()) + " suppliers · "@ + dec(k.miners as nat) + " miners · "@ + rate;
    assert(t + Seq::<char>::empty() =~= t);
}

/// Law: the odds are shown where they are known.
pub proof fn law_odds_are_shown(o: Odds)
    ensures
        lotto_rows(Some(o))[1][1].text == "~"@ + o.time@ + " per block"@,
        lotto_rows(Some(o))[1][2].text == "  at "@ + o.rate@ + " GH/s · mean, high variance · ~"@ + o.per_day@
            + " blocks/day"@,
        lotto_rows(Some(o)).len() == 3 && lotto_rows(None).len() == 3,
{
}

/// Law: a line takes as many rows as are needed to hold it, and no more.
pub proof fn law_wrapped_lines_fit(len: nat, columns: nat)
    requires
        columns > 0,
    ensures
        wrapped(len, columns) >= 1,
        len <= wrapped(len, columns) * columns,
        len > 0 ==> (wrapped(len, columns) - 1) * columns < len,
{
    let n: int = if len < 1 { 1 } else { len as int };
    let c = columns as int;
    let q = (n + c - 1) / c;
    lemma_fundamental_div_mod(n + c - 1, c);
    let r = (n + c - 1) % c;
    assert(n + c - 1 == c * q + r);
    assert(0 <= r < c);
    assert(q * c == c * q) by (nonlinear_arith);
    assert((q - 1) * c == q * c - c) by (nonlinear_arith);
    assert(q >= 1) by (nonlinear_arith)
        requires
            c * q + r >= c,
            r < c,
            c > 0,
    ;
}

/// Law: a panel wants a row for each member under three rows of its own.
pub proof fn law_wanted_rows(members: Option<nat>, k: Option<CarouselV>, width: u16)
    ensures
        members matches Some(n) ==> wanted_rows(PoolMode::Chirp, members, k, width) == n + 3,
        members is None ==> wanted_rows(PoolMode::Chirp, members, k, width) == 1,
        k is None ==> wanted_rows(PoolMode::Carousel, members, k, width) == 1,
        wanted_rows(PoolMode::Lotto, members, k, width) == 3,
        wanted_rows(PoolMode::Custom, members, k, width) == 2,
{
}

} // verus!
