//! The screen's state, and what the keys do.

use crate::config::{addr_fits, addr_ok, mode_of, net_cfg, network_name, pool_mode, PoolMode};
use crate::dashboard::{members_shown, switched, Dashboard, DashboardV};
use crate::engine::Target;
use crate::label::{clean_worker, login, login_text, worker_name};
use crate::pools::{Stratum, StratumV};
use crate::settings::{AlertCfg, AlertCfgV, Config, ConfigV};
use crate::stats::{Stats, StatsV};
use crate::text::{
    chars_of, contains, contains_text, split_chars, split_text, splitn_chars, splitn_text, string_of, sub_chars, texts,
    trim, trim_chars, trimmed,
};
use vstd::prelude::*;
use vstd::utf8::encode_utf8;

verus! {

// -------------------------------------------------------------------- state

/// The tabs of the screen.
#[derive(Clone, Copy, Debug, PartialEq, Eq, Structural)]
pub enum Tab {
    Mine,
    Data,
    Stratums,
    Learn,
    Network,
    Setup,
    Help,
}

/// A tab's place in the tab bar.
pub open spec fn tab_index(t: Tab) -> int {
    match t {
        Tab::Mine => 0,
        Tab::Data => 1,
        Tab::Stratums => 2,
        Tab::Learn => 3,
        Tab::Network => 4,
        Tab::Setup => 5,
        Tab::Help => 6,
    }
}

/// The tab at a place in the tab bar.
pub open spec fn tab_at(i: int) -> Tab {
    if i == 0 { Tab::Mine } else if i == 1 { Tab::Data } else if i == 2 { Tab::Stratums } else if i == 3 {
        Tab::Learn
    } else if i == 4 { Tab::Network } else if i == 5 { Tab::Setup } else { Tab::Help }
}

/// The tab at a place in the tab bar.
pub fn nth_tab(i: usize) -> (r: Tab)
    requires
        i < 7,
    ensures
        r == tab_at(i as int),
        tab_index(r) == i,
{
    if i == 0 { Tab::Mine } else if i == 1 { Tab::Data } else if i == 2 { Tab::Stratums } else if i == 3 {
        Tab::Learn
    } else if i == 4 { Tab::Network } else if i == 5 { Tab::Setup } else { Tab::Help }
}

impl Tab {
    /// The tab's place in the tab bar.
    pub fn index(self) -> (r: usize)
        ensures
            r == tab_index(self),
            r < 7,
    {
        match self {
            Tab::Mine => 0,
            Tab::Data => 1,
            Tab::Stratums => 2,
            Tab::Learn => 3,
            Tab::Network => 4,
            Tab::Setup => 5,
            Tab::Help => 6,
        }
    }
}

/// What a text is being typed for.
#[derive(Clone, Copy, Debug, PartialEq, Eq, Structural)]
pub enum Input {
    AddStratum,
    EditAddr,
    EditWorker,
    EditTelegram,
}

/// A key.
#[derive(Clone, Copy, Debug, PartialEq, Eq, Structural)]
pub enum Key {
    Esc,
    Backspace,
    Enter,
    Tab,
    Up,
    Down,
    Left,
    Right,
    PageUp,
    PageDown,
    Home,
    End,
    Char(char),
    Other,
}

/// How many pages LEARN has.
pub const LEARN_PAGES: usize = 4;

/// How many bytes are typed at most.
pub const TYPED: usize = 120;

/// The screen's state.
#[derive(Debug)]
pub struct App {
    pub tab: Tab,
    pub cfg: Config,
    /// The cursor in the list of pools.
    pub strat_cur: usize,
    pub learn_page: usize,
    /// What is being typed, and for what.
    pub input: Option<Input>,
    pub buf: String,
    /// What the status line says.
    pub msg: String,
    pub paused: bool,
    /// How far the list of members is scrolled.
    pub list_scroll: usize,
}

/// The screen's state by what it holds.
#[verifier::ext_equal]
pub struct AppV {
    pub tab: Tab,
    pub cfg: ConfigV,
    pub strat_cur: usize,
    pub learn_page: usize,
    pub input: Option<Input>,
    pub buf: Seq<char>,
    pub msg: Seq<char>,
    pub paused: bool,
    pub list_scroll: usize,
}

impl View for App {
    type V = AppV;

    open spec fn view(&self) -> AppV {
        AppV {
            tab: self.tab,
            cfg: self.cfg@,
            strat_cur: self.strat_cur,
            learn_page: self.learn_page,
            input: self.input,
            buf: self.buf@,
            msg: self.msg@,
            paused: self.paused,
            list_scroll: self.list_scroll,
        }
    }
}

impl AppV {
    /// The cursor is on a pool, one of the pools is a default one, and there is
    /// room for another.
    pub open spec fn wf(self) -> bool {
        &&& self.strat_cur < self.cfg.stratums.len() < usize::MAX
        &&& exists|i: int| 0 <= i < self.cfg.stratums.len() && !(#[trigger] self.cfg.stratums[i]).custom
        &&& self.learn_page < LEARN_PAGES
    }
}

/// What is to be done after a key.
#[derive(Clone, Copy, Debug, PartialEq, Eq, Structural)]
pub enum Effect {
    Nothing,
    /// Generate an address for the selected network.
    Generate,
    /// Donate one percent more, or less.
    Raise,
    Lower,
}

/// What is to be done after a key: leave, save the settings, apply them.
#[derive(Clone, Copy, Debug, PartialEq, Eq, Structural)]
pub struct Outcome {
    pub quit: bool,
    pub save: bool,
    pub apply: bool,
    pub effect: Effect,
}

/// Nothing is to be done.
pub open spec fn done() -> Outcome {
    Outcome { quit: false, save: false, apply: false, effect: Effect::Nothing }
}

/// The settings are to be saved.
pub open spec fn saving() -> Outcome {
    Outcome { save: true, ..done() }
}

/// The settings are to be saved and applied.
pub open spec fn applying() -> Outcome {
    Outcome { save: true, apply: true, ..done() }
}

// ------------------------------------------------------------------- typing

/// The parts of a typed text, without the space around them.
pub open spec fn trimmed_parts(v: Seq<Seq<char>>) -> Seq<Seq<char>> {
    Seq::new(v.len(), |i: int| trimmed(v[i]))
}

/// After a pool was typed: its name, address and network.
pub open spec fn stratum_typed(a: AppV, buf: Seq<char>) -> (AppV, Outcome) {
    let p = trimmed_parts(splitn_text(buf, 3, ','));
    if p.len() == 3 && contains_text(p[1], ":"@) {
        (
            AppV {
                cfg: ConfigV {
                    stratums: a.cfg.stratums.push(
                        StratumV { name: p[0], url: p[1], network: network_name(p[2]), custom: true },
                    ),
                    ..a.cfg
                },
                msg: "stratum added"@,
                ..a
            },
            saving(),
        )
    } else {
        (AppV { msg: "format: name,host:port,network"@, ..a }, done())
    }
}

/// After an address was typed.
pub open spec fn addr_typed(a: AppV, buf: Seq<char>) -> (AppV, Outcome) {
    let net = a.cfg.network();
    if addr_fits(net, trimmed(buf)) {
        (
            AppV {
                cfg: ConfigV { addrs: a.cfg.addrs.insert(net, trimmed(buf)), ..a.cfg },
                msg: "address saved"@,
                ..a
            },
            applying(),
        )
    } else {
        (AppV { msg: "not a valid "@ + net + " address"@, ..a }, done())
    }
}

/// After a worker's name was typed.
pub open spec fn worker_typed(a: AppV, buf: Seq<char>) -> (AppV, Outcome) {
    let w = worker_name(trimmed(buf));
    let cfg = ConfigV { worker: w, ..a.cfg };
    (
        AppV {
            cfg,
            msg: if w.len() == 0 {
                "worker cleared — mining as your bare address"@
            } else {
                "worker saved — mining as "@ + login_text(cfg.addr(), w)
            },
            ..a
        },
        applying(),
    )
}

/// With another Telegram token and chat.
pub open spec fn with_telegram(c: ConfigV, token: Seq<char>, chat: Seq<char>) -> ConfigV {
    ConfigV { alerts: AlertCfgV { telegram_token: token, telegram_chat: chat, ..c.alerts }, ..c }
}

/// After a Telegram token and chat were typed.
pub open spec fn telegram_typed(a: AppV, st: StatsV, buf: Seq<char>) -> (AppV, StatsV, Outcome) {
    let p = trimmed_parts(split_text(buf, ','));
    if trimmed(buf).len() == 0 {
        (
            AppV { cfg: with_telegram(a.cfg, Seq::empty(), Seq::empty()), msg: "telegram alerts off"@, ..a },
            st,
            applying(),
        )
    } else if p.len() == 2 && contains_text(p[0], ":"@) && p[1].len() > 0 {
        (
            AppV {
                cfg: with_telegram(a.cfg, p[0], p[1]),
                msg: "telegram alerts on — a test message is on its way"@,
                ..a
            },
            (StatsV { bell: a.cfg.alerts.bell, ..st }).alerted(
                "alerts armed"@,
                "pyblockMiner will notify you here: blocks, GPU down/up, pool outages, CHIRP eligibility"@,
            ),
            applying(),
        )
    } else {
        (AppV { msg: "format: <bot_token>,<chat_id>   (empty to disable)"@, ..a }, st, applying())
    }
}

/// After a typed text was confirmed.
pub open spec fn entered(a: AppV, st: StatsV, kind: Input) -> (AppV, StatsV, Outcome) {
    let (b, st2, o) = match kind {
        Input::AddStratum => {
            let (b, o) = stratum_typed(a, a.buf);
            (b, st, o)
        },
        Input::EditAddr => {
            let (b, o) = addr_typed(a, a.buf);
            (b, st, o)
        },
        Input::EditWorker => {
            let (b, o) = worker_typed(a, a.buf);
            (b, st, o)
        },
        Input::EditTelegram => telegram_typed(a, st, a.buf),
    };
    (AppV { input: None, buf: Seq::empty(), ..b }, st2, o)
}

/// After a key while a text is typed.
pub open spec fn typed(a: AppV, st: StatsV, kind: Input, key: Key) -> (AppV, StatsV, Outcome) {
    match key {
        Key::Esc => (AppV { input: None, buf: Seq::empty(), ..a }, st, done()),
        Key::Backspace => (
            AppV { buf: if a.buf.len() > 0 { a.buf.drop_last() } else { a.buf }, ..a },
            st,
            done(),
        ),
        Key::Enter => entered(a, st, kind),
        Key::Char(c) => (AppV { buf: if encode_utf8(a.buf).len() < TYPED { a.buf.push(c) } else { a.buf }, ..a }, st, done()),
        _ => (a, st, done()),
    }
}

fn trimmed_strings(v: &Vec<Vec<char>>) -> (r: Vec<String>)
    ensures
        crate::stats::strings(r@) == trimmed_parts(texts(v@)),
{
    let mut r: Vec<String> = Vec::new();
    let mut i: usize = 0;
    while i < v.len()
        invariant
            i <= v@.len(),
            r@.len() == i,
            forall|j: int| 0 <= j < i ==> (#[trigger] r@[j])@ == trimmed(v@[j]@),
        decreases v@.len() - i,
    {
        r.push(string_of(&trim_chars(&v[i])));
        i = i + 1;
    }
    assert(crate::stats::strings(r@) =~= trimmed_parts(texts(v@)));
    r
}

fn nothing() -> (r: Outcome)
    ensures
        r == done(),
{
    Outcome { quit: false, save: false, apply: false, effect: Effect::Nothing }
}

fn save() -> (r: Outcome)
    ensures
        r == saving(),
{
    Outcome { quit: false, save: true, apply: false, effect: Effect::Nothing }
}

fn save_and_apply() -> (r: Outcome)
    ensures
        r == applying(),
{
    Outcome { quit: false, save: true, apply: true, effect: Effect::Nothing }
}

impl App {
    fn enter_stratum(&mut self) -> (o: Outcome)
        ensures
            (final(self)@, o) == stratum_typed(old(self)@, old(self)@.buf),
    {
        let ghost before = self@;
        let v = splitn_chars(&chars_of(self.buf.as_str()), 3, ',');
        let p = trimmed_strings(&v);
        let ghost t = crate::stats::strings(p@);
        if p.len() == 3 && contains(p[1].as_str(), ":") {
            assert(t[0] == p@[0]@ && t[1] == p@[1]@ && t[2] == p@[2]@);
            let network = net_cfg(p[2].as_str()).name.to_owned();
            let s = Stratum { name: p[0].clone(), url: p[1].clone(), network, custom: true };
            self.cfg.stratums.push(s);
            self.msg = "stratum added".to_owned();
            proof {
                assert(self@.cfg.stratums =~= before.cfg.stratums.push(s@));
                assert(self@.cfg =~= stratum_typed(before, before.buf).0.cfg);
                assert(self@ =~= stratum_typed(before, before.buf).0);
            }
            save()
        } else {
            if p.len() == 3 {
                assert(t[1] == p@[1]@);
            }
            self.msg = "format: name,host:port,network".to_owned();
            assert(self@ =~= stratum_typed(before, before.buf).0);
            nothing()
        }
    }

    fn enter_addr(&mut self) -> (o: Outcome)
        ensures
            (final(self)@, o) == addr_typed(old(self)@, old(self)@.buf),
    {
        let ghost before = self@;
        let net = self.cfg.network();
        let t = trim(self.buf.as_str());
        if addr_ok(net.as_str(), t.as_str()) {
            self.cfg.set_addr(net, t);
            self.msg = "address saved".to_owned();
            assert(self@ =~= addr_typed(before, before.buf).0);
            save_and_apply()
        } else {
            let mut m = "not a valid ".to_owned();
            m.append(net.as_str());
            m.append(" address");
            self.msg = m;
            assert(self@ =~= addr_typed(before, before.buf).0);
            nothing()
        }
    }

    fn enter_worker(&mut self) -> (o: Outcome)
        ensures
            (final(self)@, o) == worker_typed(old(self)@, old(self)@.buf),
    {
        let ghost before = self@;
        let w = clean_worker(trim(self.buf.as_str()).as_str());
        self.cfg.worker = w;
        assert(self@.cfg =~= ConfigV { worker: worker_name(trimmed(before.buf)), ..before.cfg });
        if chars_of(self.cfg.worker.as_str()).len() == 0 {
            self.msg = "worker cleared — mining as your bare address".to_owned();
        } else {
            let mut m = "worker saved — mining as ".to_owned();
            let addr = self.cfg.addr();
            m.append(login(addr.as_str(), self.cfg.worker.as_str()).as_str());
            self.msg = m;
        }
        assert(self@ =~= worker_typed(before, before.buf).0);
        save_and_apply()
    }

    fn enter_telegram(&mut self, stats: &mut Stats) -> (o: Outcome)
        ensures
            (final(self)@, final(stats)@, o) == telegram_typed(old(self)@, old(stats)@, old(self)@.buf),
    {
        let ghost before = self@;
        let ghost st0 = stats@;
        let v = split_chars(&chars_of(self.buf.as_str()), ',');
        let p = trimmed_strings(&v);
        let ghost t = crate::stats::strings(p@);
        if chars_of(trim(self.buf.as_str()).as_str()).len() == 0 {
            self.cfg.alerts.telegram_token = String::new();
            self.cfg.alerts.telegram_chat = String::new();
            self.msg = "telegram alerts off".to_owned();
            assert(self@.cfg.alerts.telegram_token =~= Seq::<char>::empty());
            assert(self@.cfg.alerts.telegram_chat =~= Seq::<char>::empty());
        } else if p.len() == 2 && contains(p[0].as_str(), ":") && chars_of(p[1].as_str()).len() > 0 {
            assert(t[0] == p@[0]@ && t[1] == p@[1]@);
            self.cfg.alerts.telegram_token = p[0].clone();
            self.cfg.alerts.telegram_chat = p[1].clone();
            self.msg = "telegram alerts on — a test message is on its way".to_owned();
            stats.bell = self.cfg.alerts.bell;
            stats.alert(
                "alerts armed",
                "pyblockMiner will notify you here: blocks, GPU down/up, pool outages, CHIRP eligibility",
            );
        } else {
            if p.len() == 2 {
                assert(t[0] == p@[0]@ && t[1] == p@[1]@);
            }
            self.msg = "format: <bot_token>,<chat_id>   (empty to disable)".to_owned();
        }
        assert(self@ =~= telegram_typed(before, st0, before.buf).0);
        save_and_apply()
    }

    fn enter(&mut self, stats: &mut Stats, kind: Input) -> (o: Outcome)
        ensures
            (final(self)@, final(stats)@, o) == entered(old(self)@, old(stats)@, kind),
    {
        let ghost before = self@;
        let ghost st0 = stats@;
        let o = match kind {
            Input::AddStratum => self.enter_stratum(),
            Input::EditAddr => self.enter_addr(),
            Input::EditWorker => self.enter_worker(),
            Input::EditTelegram => self.enter_telegram(stats),
        };
        self.input = None;
        self.buf = String::new();
        assert(self@.buf =~= Seq::<char>::empty());
        assert(self@ =~= entered(before, st0, kind).0);
        o
    }

    fn type_key(&mut self, stats: &mut Stats, kind: Input, key: Key) -> (o: Outcome)
        ensures
            (final(self)@, final(stats)@, o) == typed(old(self)@, old(stats)@, kind, key),
    {
        let ghost before = self@;
        let ghost st0 = stats@;
        match key {
            Key::Esc => {
                self.input = None;
                self.buf = String::new();
                assert(self@.buf =~= Seq::<char>::empty());
            },
            Key::Backspace => {
                let v = chars_of(self.buf.as_str());
                if v.len() > 0 {
                    self.buf = string_of(&sub_chars(&v, 0, v.len() - 1));
                    assert(self@.buf =~= before.buf.drop_last());
                }
            },
            Key::Enter => {
                return self.enter(stats, kind);
            },
            Key::Char(c) => {
                if self.buf.as_str().as_bytes().len() < TYPED {
                    self.buf.push(c);
                }
            },
            _ => {},
        }
        assert(self@ =~= typed(before, st0, kind, key).0);
        nothing()
    }
}

// --------------------------------------------------------------------- keys

/// After a key in STRATUMS.
pub open spec fn stratums_keyed(a: AppV, key: Key) -> (AppV, Outcome) {
    let n = a.cfg.stratums.len();
    match key {
        Key::Up => (
            AppV { strat_cur: if a.strat_cur > 0 { (a.strat_cur - 1) as usize } else { 0 }, ..a },
            done(),
        ),
        Key::Down => (
            AppV { strat_cur: if a.strat_cur + 1 < n { (a.strat_cur + 1) as usize } else { a.strat_cur }, ..a },
            done(),
        ),
        Key::Enter => {
            let s = a.cfg.stratums[a.strat_cur as int];
            (
                AppV {
                    cfg: ConfigV { selected: a.strat_cur, ..a.cfg },
                    list_scroll: 0,
                    msg: "switched to "@ + s.name + " · "@ + mode_of(s.url, s.name).payout_text(),
                    ..a
                },
                applying(),
            )
        },
        Key::Char(c) => if c == 'a' {
            (AppV { input: Some(Input::AddStratum), buf: Seq::empty(), ..a }, done())
        } else if c == 'd' {
            if a.cfg.stratums[a.strat_cur as int].custom {
                let left = a.cfg.stratums.remove(a.strat_cur as int);
                (
                    AppV {
                        cfg: ConfigV {
                            stratums: left,
                            selected: if a.cfg.selected >= left.len() { 0 } else { a.cfg.selected },
                            ..a.cfg
                        },
                        strat_cur: if a.strat_cur >= left.len() && a.strat_cur > 0 {
                            (a.strat_cur - 1) as usize
                        } else {
                            a.strat_cur
                        },
                        msg: "deleted"@,
                        ..a
                    },
                    saving(),
                )
            } else {
                (AppV { msg: "can't delete a default stratum"@, ..a }, done())
            }
        } else {
            (a, done())
        },
        _ => (a, done()),
    }
}

/// The last line of a list of `n` lines; 0 for an empty one.
pub open spec fn last_line(n: usize) -> usize {
    if n == 0 { 0 } else { (n - 1) as usize }
}

/// Where a list of `n` lines is scrolled to after a key.
pub open spec fn scrolled(at: usize, n: usize, key: Key) -> usize {
    match key {
        Key::Up => if at > 0 { (at - 1) as usize } else { 0 },
        Key::Down => if at + 1 < n { (at + 1) as usize } else { at },
        Key::PageUp => if at > 10 { (at - 10) as usize } else { 0 },
        Key::PageDown => if at + 10 < last_line(n) { (at + 10) as usize } else { last_line(n) },
        Key::Home => 0,
        Key::End => last_line(n),
        _ => at,
    }
}

/// After a key in LEARN.
pub open spec fn learn_keyed(a: AppV, key: Key) -> AppV {
    match key {
        Key::Left => AppV { learn_page: if a.learn_page > 0 { (a.learn_page - 1) as usize } else { 0 }, ..a },
        Key::Right => AppV {
            learn_page: if a.learn_page + 1 < LEARN_PAGES { (a.learn_page + 1) as usize } else { a.learn_page },
            ..a
        },
        _ => a,
    }
}

/// `on` or `off`.
pub open spec fn on_off(b: bool) -> Seq<char> {
    if b { "on"@ } else { "off"@ }
}

/// After a key in SETUP.
pub open spec fn setup_keyed(a: AppV, st: StatsV, key: Key) -> (AppV, StatsV, Outcome) {
    match key {
        Key::Char(c) => if c == 'g' {
            (AppV { msg: "generating…"@, ..a }, st, Outcome { effect: Effect::Generate, ..done() })
        } else if c == 'e' {
            (AppV { input: Some(Input::EditAddr), buf: Seq::empty(), ..a }, st, done())
        } else if c == 'c' {
            (
                AppV {
                    cfg: ConfigV { cpu: !a.cfg.cpu, ..a.cfg },
                    msg: "cpu toggled (restart to apply devices)"@,
                    ..a
                },
                st,
                saving(),
            )
        } else if c == 'w' {
            (AppV { input: Some(Input::EditWorker), buf: a.cfg.worker, ..a }, st, done())
        } else if c == 't' {
            (AppV { input: Some(Input::EditTelegram), buf: Seq::empty(), ..a }, st, done())
        } else if c == 'b' {
            let on = !a.cfg.alerts.bell;
            (
                AppV {
                    cfg: ConfigV { alerts: AlertCfgV { bell: on, ..a.cfg.alerts }, ..a.cfg },
                    msg: "bell "@ + on_off(on),
                    ..a
                },
                st,
                applying(),
            )
        } else if c == 'n' {
            let on = !a.cfg.alerts.desktop;
            (
                AppV {
                    cfg: ConfigV { alerts: AlertCfgV { desktop: on, ..a.cfg.alerts }, ..a.cfg },
                    msg: "desktop notifications "@ + on_off(on),
                    ..a
                },
                st,
                applying(),
            )
        } else if c == 'x' {
            (
                AppV { msg: "test alert sent — check bell / desktop / telegram"@, ..a },
                st.alerted("test alert"@, "if you can read this, alerts work"@),
                done(),
            )
        } else if c == '+' {
            (a, st, Outcome { effect: Effect::Raise, ..applying() })
        } else if c == '-' {
            (a, st, Outcome { effect: Effect::Lower, ..applying() })
        } else {
            (a, st, done())
        },
        _ => (a, st, done()),
    }
}

/// The place in the tab bar that a digit stands for, or -1.
pub open spec fn tab_digit(key: Key) -> int {
    match key {
        Key::Char(c) => if '1' <= c && c <= '7' { c as int - '1' as int } else { -1 },
        _ => -1,
    }
}

/// After a key while nothing is typed. `members` is the length of the list of
/// members.
pub open spec fn pressed(a: AppV, st: StatsV, key: Key, members: usize) -> (AppV, StatsV, Outcome) {
    if key == Key::Esc || key == Key::Char('q') {
        (a, st, Outcome { quit: true, ..done() })
    } else if tab_digit(key) >= 0 {
        (AppV { tab: tab_at(tab_digit(key)), ..a }, st, done())
    } else if key == Key::Tab {
        (AppV { tab: tab_at((tab_index(a.tab) + 1) % 7), ..a }, st, done())
    } else if key == Key::Char('p') {
        (
            AppV {
                paused: !a.paused,
                msg: if a.paused { "▶ mining resumed"@ } else { "⏸ mining paused — press p to resume"@ },
                ..a
            },
            st,
            done(),
        )
    } else {
        match a.tab {
            Tab::Stratums => {
                let (b, o) = stratums_keyed(a, key);
                (b, st, o)
            },
            Tab::Mine => (AppV { list_scroll: scrolled(a.list_scroll, members, key), ..a }, st, done()),
            Tab::Network => (AppV { list_scroll: scrolled(a.list_scroll, members, key), ..a }, st, done()),
            Tab::Learn => (learn_keyed(a, key), st, done()),
            Tab::Setup => setup_keyed(a, st, key),
            _ => (a, st, done()),
        }
    }
}

/// After a key.
pub open spec fn keyed(a: AppV, st: StatsV, key: Key, members: usize) -> (AppV, StatsV, Outcome) {
    let b = AppV { msg: Seq::empty(), ..a };
    match a.input {
        Some(kind) => typed(b, st, kind, key),
        None => pressed(b, st, key, members),
    }
}

/// Where a list is scrolled to after a key.
fn scroll(at: usize, n: usize, key: Key) -> (r: usize)
    ensures
        r == scrolled(at, n, key),
{
    let end: usize = if n == 0 { 0 } else { n - 1 };
    match key {
        Key::Up => if at > 0 { at - 1 } else { 0 },
        Key::Down => if at < end { at + 1 } else { at },
        Key::PageUp => if at > 10 { at - 10 } else { 0 },
        Key::PageDown => if at < end && end - at > 10 { at + 10 } else { end },
        Key::Home => 0,
        Key::End => end,
        _ => at,
    }
}

fn on_off_text(b: bool) -> (r: &'static str)
    ensures
        r@ == on_off(b),
{
    if b { "on" } else { "off" }
}

impl App {
    fn key_stratums(&mut self, key: Key) -> (o: Outcome)
        requires
            old(self)@.wf(),
        ensures
            (final(self)@, o) == stratums_keyed(old(self)@, key),
    {
        let ghost before = self@;
        let mut o = nothing();
        match key {
            Key::Up => {
                if self.strat_cur > 0 {
                    self.strat_cur = self.strat_cur - 1;
                }
            },
            Key::Down => {
                if self.strat_cur + 1 < self.cfg.stratums.len() {
                    self.strat_cur = self.strat_cur + 1;
                }
            },
            Key::Enter => {
                self.cfg.selected = self.strat_cur;
                self.list_scroll = 0;
                let s = &self.cfg.stratums[self.strat_cur];
                let mut m = "switched to ".to_owned();
                m.append(s.name.as_str());
                m.append(" · ");
                m.append(pool_mode(s.url.as_str(), s.name.as_str()).payout());
                self.msg = m;
                o = save_and_apply();
            },
            Key::Char(c) => {
                if c == 'a' {
                    self.input = Some(Input::AddStratum);
                    self.buf = String::new();
                    assert(self@.buf =~= Seq::<char>::empty());
                } else if c == 'd' {
                    if self.cfg.stratums[self.strat_cur].custom {
                        let _ = self.cfg.stratums.remove(self.strat_cur);
                        assert(self@.cfg.stratums =~= before.cfg.stratums.remove(before.strat_cur as int));
                        if self.cfg.selected >= self.cfg.stratums.len() {
                            self.cfg.selected = 0;
                        }
                        if self.strat_cur >= self.cfg.stratums.len() && self.strat_cur > 0 {
                            self.strat_cur = self.strat_cur - 1;
                        }
                        self.msg = "deleted".to_owned();
                        o = save();
                    } else {
                        self.msg = "can't delete a default stratum".to_owned();
                    }
                }
            },
            _ => {},
        }
        assert(self@.cfg =~= stratums_keyed(before, key).0.cfg);
        assert(self@ =~= stratums_keyed(before, key).0);
        o
    }

    fn key_learn(&mut self, key: Key)
        requires
            old(self)@.wf(),
        ensures
            final(self)@ == learn_keyed(old(self)@, key),
    {
        let ghost before = self@;
        match key {
            Key::Left => {
                if self.learn_page > 0 {
                    self.learn_page = self.learn_page - 1;
                }
            },
            Key::Right => {
                if self.learn_page + 1 < LEARN_PAGES {
                    self.learn_page = self.learn_page + 1;
                }
            },
            _ => {},
        }
        assert(self@ =~= learn_keyed(before, key));
    }

    fn key_setup(&mut self, stats: &mut Stats, key: Key) -> (o: Outcome)
        ensures
            (final(self)@, final(stats)@, o) == setup_keyed(old(self)@, old(stats)@, key),
    {
        let ghost before = self@;
        let ghost st0 = stats@;
        let mut o = nothing();
        if let Key::Char(c) = key {
            if c == 'g' {
                self.msg = "generating…".to_owned();
                o.effect = Effect::Generate;
            } else if c == 'e' {
                self.input = Some(Input::EditAddr);
                self.buf = String::new();
                assert(self@.buf =~= Seq::<char>::empty());
            } else if c == 'c' {
                self.cfg.cpu = !self.cfg.cpu;
                self.msg = "cpu toggled (restart to apply devices)".to_owned();
                o = save();
            } else if c == 'w' {
                self.input = Some(Input::EditWorker);
                self.buf = self.cfg.worker.clone();
            } else if c == 't' {
                self.input = Some(Input::EditTelegram);
                self.buf = String::new();
                assert(self@.buf =~= Seq::<char>::empty());
            } else if c == 'b' {
                self.cfg.alerts.bell = !self.cfg.alerts.bell;
                let mut m = "bell ".to_owned();
                m.append(on_off_text(self.cfg.alerts.bell));
                self.msg = m;
                o = save_and_apply();
            } else if c == 'n' {
                self.cfg.alerts.desktop = !self.cfg.alerts.desktop;
                let mut m = "desktop notifications ".to_owned();
                m.append(on_off_text(self.cfg.alerts.desktop));
                self.msg = m;
                o = save_and_apply();
            } else if c == 'x' {
                stats.alert("test alert", "if you can read this, alerts work");
                self.msg = "test alert sent — check bell / desktop / telegram".to_owned();
            } else if c == '+' {
                o = save_and_apply();
                o.effect = Effect::Raise;
            } else if c == '-' {
                o = save_and_apply();
                o.effect = Effect::Lower;
            }
        }
        assert(self@.cfg =~= setup_keyed(before, st0, key).0.cfg);
        assert(self@ =~= setup_keyed(before, st0, key).0);
        o
    }

    /// Acts on a key. `members` is the length of the list of members.
    pub fn handle_key(&mut self, key: Key, stats: &mut Stats, members: usize) -> (o: Outcome)
        requires
            old(self)@.wf(),
        ensures
            (final(self)@, final(stats)@, o) == keyed(old(self)@, old(stats)@, key, members),
            final(self)@.cfg.stratums.len() < usize::MAX ==> final(self)@.wf(),
    {
        proof {
            law_keys_keep_the_cursor(self@, stats@, key, members);
        }
        let ghost first = self@;
        self.msg = String::new();
        assert(self@.msg =~= Seq::<char>::empty());
        let ghost before = self@;
        assert(before =~= AppV { msg: Seq::empty(), ..first });
        assert(before.wf());
        if let Some(kind) = self.input {
            return self.type_key(stats, kind, key);
        }
        let mut o = nothing();
        match key {
            Key::Esc => {
                o.quit = true;
                return o;
            },
            Key::Tab => {
                let i: usize = self.tab.index();
                self.tab = nth_tab((i + 1) % 7);
                assert(self@ =~= pressed(before, stats@, key, members).0);
                return o;
            },
            Key::Char(c) => {
                if c == 'q' {
                    o.quit = true;
                    return o;
                }
                if '1' <= c && c <= '7' {
                    self.tab = nth_tab((c as u32 - '1' as u32) as usize);
                    assert(self@ =~= pressed(before, stats@, key, members).0);
                    return o;
                }
                if c == 'p' {
                    self.paused = !self.paused;
                    self.msg = if self.paused {
                        "⏸ mining paused — press p to resume".to_owned()
                    } else {
                        "▶ mining resumed".to_owned()
                    };
                    assert(self@ =~= pressed(before, stats@, key, members).0);
                    return o;
                }
            },
            _ => {},
        }
        match self.tab {
            Tab::Stratums => self.key_stratums(key),
            Tab::Mine | Tab::Network => {
                self.list_scroll = scroll(self.list_scroll, members, key);
                assert(self@ =~= pressed(before, stats@, key, members).0);
                o
            },
            Tab::Learn => {
                self.key_learn(key);
                o
            },
            Tab::Setup => self.key_setup(stats, key),
            _ => o,
        }
    }
}

/// Law: whatever key is pressed, the cursor stays on a pool and a default pool
/// stays in the list.
pub proof fn law_keys_keep_the_cursor(a: AppV, st: StatsV, key: Key, members: usize)
    requires
        a.wf(),
    ensures
        ({
            let b = keyed(a, st, key, members).0;
            b.cfg.stratums.len() < usize::MAX ==> b.wf()
        }),
{
    let b = keyed(a, st, key, members).0;
    let k = choose|i: int| 0 <= i < a.cfg.stratums.len() && !(#[trigger] a.cfg.stratums[i]).custom;
    if b.cfg.stratums.len() < a.cfg.stratums.len() {
        let j = if k < a.strat_cur { k } else { k - 1 };
        assert(b.cfg.stratums[j] == a.cfg.stratums[k]);
    } else {
        assert(b.cfg.stratums[k] == a.cfg.stratums[k]);
    }
}

/// Law: no key deletes a default pool.
pub proof fn law_defaults_cannot_be_deleted(a: AppV, st: StatsV, key: Key, members: usize, s: StratumV)
    requires
        a.wf(),
        a.cfg.stratums.contains(s),
        !s.custom,
    ensures
        keyed(a, st, key, members).0.cfg.stratums.contains(s),
{
    let b = keyed(a, st, key, members).0;
    let k = choose|i: int| 0 <= i < a.cfg.stratums.len() && a.cfg.stratums[i] == s;
    if b.cfg.stratums.len() < a.cfg.stratums.len() {
        let j = if k < a.strat_cur { k } else { k - 1 };
        assert(b.cfg.stratums[j] == s);
    } else {
        assert(b.cfg.stratums[k] == s);
    }
}

/// Law: while a text is typed no key leaves the miner, and `Esc` drops the
/// text without changing any setting.
pub proof fn law_typing_does_not_quit(a: AppV, st: StatsV, key: Key, members: usize)
    requires
        a.input is Some,
    ensures
        !keyed(a, st, key, members).2.quit,
        keyed(a, st, Key::Esc, members).0.input is None,
        keyed(a, st, Key::Esc, members).0.cfg == a.cfg,
        keyed(a, st, Key::Esc, members).2 == done(),
{
}

/// Law: `p` pauses and resumes from every tab, and two of them leave mining as
/// it was.
pub proof fn law_pause_from_any_tab(a: AppV, st: StatsV, members: usize)
    requires
        a.input is None,
    ensures
        ({
            let (b, st2, o) = keyed(a, st, Key::Char('p'), members);
            &&& b.paused == !a.paused
            &&& b.tab == a.tab
            &&& keyed(b, st2, Key::Char('p'), members).0.paused == a.paused
        }),
{
}

/// Law: an address that is typed for a network fits it.
pub proof fn law_typed_addresses_fit(a: AppV, st: StatsV, key: Key, members: usize, net: Seq<char>)
    requires
        a.cfg.addrs.contains_key(net) ==> addr_fits(net, a.cfg.addrs[net]),
    ensures
        ({
            let m = keyed(a, st, key, members).0.cfg.addrs;
            m.contains_key(net) ==> addr_fits(net, m[net])
        }),
{
}

// ----------------------------------------------------------------- applying

/// The settings as they are applied: what the engine mines, the pool's mode,
/// and where alerts go.
#[derive(Debug)]
pub struct Applied {
    pub target: Target,
    pub mode: PoolMode,
    pub alerts: AlertCfg,
}

/// The mode of the selected pool; LOTTO where none is selected.
pub open spec fn selected_mode(c: ConfigV) -> PoolMode {
    if c.selected < c.stratums.len() {
        mode_of(c.stratums[c.selected as int].url, c.stratums[c.selected as int].name)
    } else {
        PoolMode::Lotto
    }
}

/// After the settings were applied: the counts go to the selected pool's
/// address, and only the selected pool is shown. Nothing changes where none is
/// selected.
pub open spec fn applied(c: ConfigV, st: StatsV, d: DashboardV) -> (StatsV, DashboardV) {
    if c.selected < c.stratums.len() {
        (
            StatsV { addr: c.addr(), bell: c.alerts.bell, ..st },
            switched(d, c.target(), selected_mode(c), c.alerts),
        )
    } else {
        (st, d)
    }
}

/// The screen as it starts.
pub open spec fn first_screen(cfg: ConfigV) -> AppV {
    AppV {
        tab: Tab::Mine,
        cfg,
        strat_cur: cfg.selected,
        learn_page: 0,
        input: None,
        buf: Seq::empty(),
        msg: Seq::empty(),
        paused: false,
        list_scroll: 0,
    }
}

impl App {
    /// The screen as it starts.
    pub fn start(cfg: Config) -> (r: App)
        ensures
            r@ == (AppV {
                tab: Tab::Mine,
                cfg: cfg@,
                strat_cur: cfg@.selected,
                learn_page: 0,
                input: None,
                buf: Seq::empty(),
                msg: Seq::empty(),
                paused: false,
                list_scroll: 0,
            }),
            r@ == first_screen(cfg@),
    {
        let cur: usize = cfg.selected;
        let r = App {
            tab: Tab::Mine,
            cfg,
            strat_cur: cur,
            learn_page: 0,
            input: None,
            buf: String::new(),
            msg: String::new(),
            paused: false,
            list_scroll: 0,
        };
        assert(r@.buf =~= Seq::<char>::empty());
        assert(r@.msg =~= Seq::<char>::empty());
        r
    }

    /// Applies the settings. Nothing changes where no pool is selected.
    pub fn apply_target(&self, stats: &mut Stats, shown: &mut Dashboard) -> (r: Option<Applied>)
        ensures
            (final(stats)@, final(shown)@) == applied(self@.cfg, old(stats)@, old(shown)@),
            r is Some <==> self@.cfg.selected < self@.cfg.stratums.len(),
            r is Some ==> {
                &&& r->0.target@ == self@.cfg.target()
                &&& r->0.mode == selected_mode(self@.cfg)
                &&& r->0.alerts@ == self@.cfg.alerts
            },
    {
        let ghost st0 = stats@;
        if self.cfg.selected >= self.cfg.stratums.len() {
            return None;
        }
        let s = &self.cfg.stratums[self.cfg.selected];
        let mode = pool_mode(s.url.as_str(), s.name.as_str());
        stats.addr = self.cfg.addr();
        stats.bell = self.cfg.alerts.bell;
        assert(stats@ =~= StatsV { addr: self@.cfg.addr(), bell: self@.cfg.alerts.bell, ..st0 });
        let a = Applied { target: self.cfg.target(), mode, alerts: self.cfg.alerts.copy() };
        shown.switched(&a);
        Some(a)
    }

    /// Acts on a key, and applies the settings where that is all there is left
    /// to do.
    pub fn press(&mut self, key: Key, stats: &mut Stats, shown: &mut Dashboard, target: &mut Target) -> (o: Outcome)
        requires
            old(self)@.wf(),
        ensures
            ({
                let (a, st, x) = keyed(old(self)@, old(stats)@, key, members_shown(old(shown)@));
                let go = x.apply && x.effect == Effect::Nothing;
                &&& o == x
                &&& final(self)@ == a
                &&& (final(stats)@, final(shown)@) == if go {
                    applied(a.cfg, st, old(shown)@)
                } else {
                    (st, old(shown)@)
                }
                &&& final(target)@ == if go && a.cfg.selected < a.cfg.stratums.len() {
                    a.cfg.target()
                } else {
                    old(target)@
                }
            }),
            final(self)@.cfg.stratums.len() < usize::MAX ==> final(self)@.wf(),
    {
        let o = self.handle_key(key, stats, shown.members());
        if o.apply && o.effect == Effect::Nothing {
            match self.apply_target(stats, shown) {
                Some(a) => {
                    *target = a.target;
                },
                None => {},
            }
        }
        o
    }

    /// Takes a generated address over for a network.
    pub fn take_address(&mut self, net: &str, addr: &str)
        ensures
            final(self)@ == (AppV {
                cfg: ConfigV { addrs: old(self)@.cfg.addrs.insert(net@, addr@), ..old(self)@.cfg },
                ..old(self)@
            }),
    {
        let ghost before = self@;
        self.cfg.set_addr(net.to_owned(), addr.to_owned());
        assert(self@ =~= AppV {
            cfg: ConfigV { addrs: before.cfg.addrs.insert(net@, addr@), ..before.cfg },
            ..before
        });
    }

    /// Says what was generated: the address, and where its key was saved, or
    /// the key itself where it could not be.
    pub fn generated(&mut self, addr: &str, wif: &str, saved: Option<&str>)
        ensures
            final(self)@ == (AppV {
                msg: match saved {
                    Some(p) => "generated "@ + addr@ + " · WIF saved to "@ + p@ + " — BACK IT UP"@,
                    None => "generated "@ + addr@ + " · WIF "@ + wif@
                        + " — SAVE THIS (could not write keys.txt!)"@,
                },
                ..old(self)@
            }),
    {
        let ghost before = self@;
        let mut m = "generated ".to_owned();
        m.append(addr);
        match saved {
            Some(p) => {
                m.append(" · WIF saved to ");
                m.append(p);
                m.append(" — BACK IT UP");
            },
            None => {
                m.append(" · WIF ");
                m.append(wif);
                m.append(" — SAVE THIS (could not write keys.txt!)");
            },
        }
        let ghost text = m@;
        self.msg = m;
        assert(self@ =~= AppV { msg: text, ..before });
    }
}

/// Law: `Enter` in STRATUMS moves everything to the pool under the cursor. It is
/// what the engine mines and what is shown, in its own mode, and nothing is left
/// of what the old pool said.
pub proof fn law_switching_leaves_the_old_pool(a: AppV, st: StatsV, d: DashboardV)
    requires
        a.wf(),
        a.input is None,
        a.tab == Tab::Stratums,
    ensures
        ({
            let pool = a.cfg.stratums[a.strat_cur as int];
            let (b, st2, o) = keyed(a, st, Key::Enter, members_shown(d));
            let (st3, e) = applied(b.cfg, st2, d);
            let t = b.cfg.target();
            &&& o.apply && o.save && o.effect == Effect::Nothing
            &&& b.cfg.selected < b.cfg.stratums.len()
            &&& t.pool == pool.url && t.network == pool.network && t.addr == b.cfg.addr()
            &&& e.endpoint == t.pool && e.network == t.network && e.worker == t.worker && e.donate == t.donate
            &&& st3.addr == t.addr
            &&& e.mode == mode_of(pool.url, pool.name)
            &&& e.chirp is None && e.carousel is None && e.balance is None && !e.net_ok
            &&& members_shown(e) == 0 && b.list_scroll == 0
        }),
{
}

/// Law: no change is lost. A key that changes the settings has them saved.
pub proof fn law_changes_are_saved(a: AppV, st: StatsV, key: Key, members: usize)
    ensures
        keyed(a, st, key, members).0.cfg != a.cfg ==> keyed(a, st, key, members).2.save,
{
}

/// Law: a key that changes what is mined has it applied at once. Deleting a
/// pool is left out: the list moves up under the selection, and what is mined
/// follows with the next key that is applied.
pub proof fn law_changes_are_applied(a: AppV, st: StatsV, key: Key, members: usize)
    requires
        a.cfg.selected < a.cfg.stratums.len(),
        !(a.input is None && a.tab == Tab::Stratums && key == Key::Char('d')),
    ensures
        keyed(a, st, key, members).0.cfg.target() != a.cfg.target() ==> keyed(a, st, key, members).2.apply,
{
}

// ----------------------------------------------------------------- key laws

/// Law: the tabs have their places, and every place has its tab.
pub proof fn law_tabs_have_their_places(i: int)
    requires
        0 <= i < 7,
    ensures
        tab_index(tab_at(i)) == i,
        tab_index(Tab::Mine) == 0 && tab_index(Tab::Data) == 1 && tab_index(Tab::Stratums) == 2 && tab_index(Tab::Learn)
            == 3 && tab_index(Tab::Network) == 4 && tab_index(Tab::Setup) == 5 && tab_index(Tab::Help) == 6,
{
}

/// Law: a digit opens its tab and `Tab` the next one, the first after the last;
/// neither changes a setting.
pub proof fn law_tabs_are_opened(a: AppV, st: StatsV, c: char, members: usize)
    requires
        a.input is None,
        '1' <= c && c <= '7',
    ensures
        ({
            let (b, st2, o) = keyed(a, st, Key::Char(c), members);
            &&& tab_index(b.tab) == c as int - '1' as int
            &&& b.cfg == a.cfg && b.paused == a.paused && b.strat_cur == a.strat_cur && st2 == st && o == done()
        }),
        ({
            let (b, st2, o) = keyed(a, st, Key::Tab, members);
            &&& tab_index(b.tab) == (tab_index(a.tab) + 1) % 7
            &&& b.cfg == a.cfg && b.paused == a.paused && b.strat_cur == a.strat_cur && st2 == st && o == done()
        }),
{
}

/// Law: `q` and `Esc` leave the miner without changing or saving anything; no
/// other key leaves it.
pub proof fn law_only_q_and_esc_leave(a: AppV, st: StatsV, key: Key, members: usize)
    requires
        a.input is None,
    ensures
        keyed(a, st, key, members).2.quit <==> key == Key::Esc || key == Key::Char('q'),
        keyed(a, st, key, members).2.quit ==> keyed(a, st, key, members).0.cfg == a.cfg && !keyed(
            a,
            st,
            key,
            members,
        ).2.save && keyed(a, st, key, members).1 == st,
{
}

/// Law: what is typed is what the keys spell: a character is added as long as
/// there is room for it, and `Backspace` takes the last one back. No setting
/// changes before `Enter`.
pub proof fn law_typing_spells(a: AppV, st: StatsV, c: char, members: usize)
    requires
        a.input is Some,
    ensures
        encode_utf8(a.buf).len() < 120 ==> keyed(a, st, Key::Char(c), members).0.buf == a.buf.push(c),
        encode_utf8(a.buf).len() >= 120 ==> keyed(a, st, Key::Char(c), members).0.buf == a.buf,
        a.buf.len() > 0 ==> keyed(a, st, Key::Backspace, members).0.buf == a.buf.drop_last(),
        keyed(a, st, Key::Char(c), members).0.cfg == a.cfg && keyed(a, st, Key::Backspace, members).0.cfg == a.cfg,
        keyed(a, st, Key::Char(c), members).0.input == a.input,
        keyed(a, st, Key::Char(c), members).1 == st,
{
}

/// Law: a typed address is taken for the selected pool's network exactly where
/// it is of that network's kind; otherwise no setting changes. Either way the
/// typing is over.
pub proof fn law_typed_address_is_taken(a: AppV, st: StatsV, members: usize)
    requires
        a.input == Some(Input::EditAddr),
    ensures
        ({
            let (b, st2, o) = keyed(a, st, Key::Enter, members);
            let net = a.cfg.network();
            &&& b.input is None && b.buf.len() == 0 && st2 == st
            &&& addr_fits(net, trimmed(a.buf)) ==> b.cfg.addrs == a.cfg.addrs.insert(net, trimmed(a.buf)) && b.cfg.addr()
                == trimmed(a.buf) && o.save && o.apply
            &&& !addr_fits(net, trimmed(a.buf)) ==> b.cfg == a.cfg && !o.save && !o.apply && b.msg.len() > 0
            &&& b.cfg.stratums == a.cfg.stratums && b.cfg.selected == a.cfg.selected && b.cfg.worker == a.cfg.worker
                && b.cfg.donate == a.cfg.donate
        }),
{
    reveal_strlit("not a valid ");
}

/// Law: a typed worker name is the one that is mined under, as far as the pool
/// can take it.
pub proof fn law_typed_worker_is_taken(a: AppV, st: StatsV, members: usize)
    requires
        a.input == Some(Input::EditWorker),
    ensures
        ({
            let (b, st2, o) = keyed(a, st, Key::Enter, members);
            &&& b.cfg.worker == worker_name(trimmed(a.buf))
            &&& b.cfg.addrs == a.cfg.addrs && b.cfg.stratums == a.cfg.stratums && b.cfg.selected == a.cfg.selected
                && b.cfg.donate == a.cfg.donate
            &&& o.save && o.apply && b.input is None && st2 == st
        }),
{
}

/// Law: a pool typed as a name, an address with a port and a network is added
/// at the end of the list as the user's own. The others and the selection stay.
pub proof fn law_typed_pool_is_added(
    a: AppV,
    st: StatsV,
    members: usize,
    name: Seq<char>,
    url: Seq<char>,
    network: Seq<char>,
)
    requires
        a.input == Some(Input::AddStratum),
        a.buf == name + seq![','] + (url + seq![','] + network),
        !name.contains(','),
        !url.contains(','),
        contains_text(trimmed(url), ":"@),
    ensures
        ({
            let (b, st2, o) = keyed(a, st, Key::Enter, members);
            &&& b.cfg.stratums.len() == a.cfg.stratums.len() + 1
            &&& b.cfg.stratums.drop_last() == a.cfg.stratums
            &&& b.cfg.stratums.last().name == trimmed(name)
            &&& b.cfg.stratums.last().url == trimmed(url)
            &&& b.cfg.stratums.last().network == network_name(trimmed(network))
            &&& b.cfg.stratums.last().custom
            &&& b.cfg.selected == a.cfg.selected && b.cfg.addrs == a.cfg.addrs
            &&& o.save && b.input is None && st2 == st
        }),
{
    crate::text::law_three_parts(name, url, network, ',');
    let b = keyed(a, st, Key::Enter, members).0;
    assert(b.cfg.stratums.drop_last() =~= a.cfg.stratums);
}

/// Law: a typed Telegram token and chat are taken over, and a test alert is
/// sent; an empty text turns Telegram off.
pub proof fn law_typed_telegram_is_taken(a: AppV, st: StatsV, members: usize, token: Seq<char>, chat: Seq<char>)
    requires
        a.input == Some(Input::EditTelegram),
        !token.contains(','),
        !chat.contains(','),
    ensures
        a.buf == token + seq![','] + chat && contains_text(trimmed(token), ":"@) && trimmed(chat).len() > 0 && trimmed(
            a.buf,
        ).len() > 0 ==> {
            let (b, st2, o) = keyed(a, st, Key::Enter, members);
            &&& b.cfg.alerts.telegram_token == trimmed(token)
            &&& b.cfg.alerts.telegram_chat == trimmed(chat)
            &&& st2.outbox.len() == st.outbox.len() + 1
            &&& o.save && o.apply
        },
        trimmed(a.buf).len() == 0 ==> {
            let (b, st2, o) = keyed(a, st, Key::Enter, members);
            &&& b.cfg.alerts.telegram_token.len() == 0 && b.cfg.alerts.telegram_chat.len() == 0
            &&& st2 == st
            &&& o.save && o.apply
        },
        keyed(a, st, Key::Enter, members).0.cfg.alerts.bell == a.cfg.alerts.bell,
{
    if a.buf == token + seq![','] + chat {
        crate::text::law_parts_split_off(token, chat, ',');
        crate::text::law_parts_split_off(chat, chat, ',');
        assert(split_text(a.buf, ',') =~= seq![token, chat]);
    }
}

/// Law: `d` in STRATUMS deletes the user's own pool under the cursor and no
/// other, and never a default one.
pub proof fn law_own_pools_are_deleted(a: AppV, st: StatsV, members: usize)
    requires
        a.wf(),
        a.input is None,
        a.tab == Tab::Stratums,
    ensures
        ({
            let (b, st2, o) = keyed(a, st, Key::Char('d'), members);
            &&& a.cfg.stratums[a.strat_cur as int].custom ==> b.cfg.stratums == a.cfg.stratums.remove(
                a.strat_cur as int,
            ) && o.save
            &&& !a.cfg.stratums[a.strat_cur as int].custom ==> b.cfg == a.cfg && !o.save
            &&& a.cfg.selected < b.cfg.stratums.len() ==> b.cfg.selected == a.cfg.selected
            &&& b.cfg.addrs == a.cfg.addrs && b.cfg.worker == a.cfg.worker && st2 == st
        }),
{
}

/// Law: the cursor moves one pool up or down, and stops at either end.
pub proof fn law_cursor_moves_by_one(a: AppV, st: StatsV, members: usize)
    requires
        a.wf(),
        a.input is None,
        a.tab == Tab::Stratums,
    ensures
        a.strat_cur > 0 ==> keyed(a, st, Key::Up, members).0.strat_cur == a.strat_cur - 1,
        a.strat_cur == 0 ==> keyed(a, st, Key::Up, members).0.strat_cur == 0,
        a.strat_cur + 1 < a.cfg.stratums.len() ==> keyed(a, st, Key::Down, members).0.strat_cur == a.strat_cur + 1,
        a.strat_cur + 1 == a.cfg.stratums.len() ==> keyed(a, st, Key::Down, members).0.strat_cur == a.strat_cur,
        keyed(a, st, Key::Up, members).0.cfg == a.cfg && keyed(a, st, Key::Down, members).0.cfg == a.cfg,
{
}

/// Law: the members are scrolled by one or by ten, or to either end, and never
/// beyond it.
pub proof fn law_members_scroll_within_the_list(at: usize, n: usize)
    requires
        at < n,
    ensures
        at > 0 ==> scrolled(at, n, Key::Up) == at - 1,
        at == 0 ==> scrolled(at, n, Key::Up) == 0,
        at + 1 < n ==> scrolled(at, n, Key::Down) == at + 1,
        at + 1 == n ==> scrolled(at, n, Key::Down) == at,
        at >= 10 ==> scrolled(at, n, Key::PageUp) == at - 10,
        at < 10 ==> scrolled(at, n, Key::PageUp) == 0,
        at + 10 < n ==> scrolled(at, n, Key::PageDown) == at + 10,
        at + 10 >= n ==> scrolled(at, n, Key::PageDown) == n - 1,
        scrolled(at, n, Key::Home) == 0,
        scrolled(at, n, Key::End) == n - 1,
        scrolled(at, n, Key::Left) == at && scrolled(at, n, Key::Enter) == at,
{
}

/// Law: the list scrolls on MINE and NETWORK alike, and nothing else changes
/// there.
pub proof fn law_lists_scroll_on_both_tabs(a: AppV, st: StatsV, key: Key, members: usize)
    requires
        a.input is None,
        a.tab == Tab::Mine || a.tab == Tab::Network,
        key == Key::Up || key == Key::Down || key == Key::PageUp || key == Key::PageDown || key == Key::Home || key
            == Key::End,
    ensures
        keyed(a, st, key, members).0.list_scroll == scrolled(a.list_scroll, members, key),
        keyed(a, st, key, members).0.cfg == a.cfg,
        keyed(a, st, key, members).0.tab == a.tab,
        keyed(a, st, key, members).1 == st,
{
}

/// Law: the keys of SETUP. Each toggles or opens what it is for, saves what it
/// changes, and leaves the other settings alone.
pub proof fn law_setup_keys(a: AppV, st: StatsV, members: usize)
    requires
        a.input is None,
        a.tab == Tab::Setup,
    ensures
        ({
            let (b, st2, o) = keyed(a, st, Key::Char('c'), members);
            b.cfg == (ConfigV { cpu: !a.cfg.cpu, ..a.cfg }) && o.save && st2 == st
        }),
        ({
            let (b, st2, o) = keyed(a, st, Key::Char('b'), members);
            &&& b.cfg.alerts.bell == !a.cfg.alerts.bell && b.cfg.alerts.desktop == a.cfg.alerts.desktop
            &&& o.save && o.apply && st2 == st
        }),
        ({
            let (b, st2, o) = keyed(a, st, Key::Char('n'), members);
            &&& b.cfg.alerts.desktop == !a.cfg.alerts.desktop && b.cfg.alerts.bell == a.cfg.alerts.bell
            &&& o.save && o.apply && st2 == st
        }),
        ({
            let (b, st2, o) = keyed(a, st, Key::Char('x'), members);
            b.cfg == a.cfg && st2.outbox.len() == st.outbox.len() + 1 && !o.save
        }),
        keyed(a, st, Key::Char('g'), members).2.effect == Effect::Generate,
        keyed(a, st, Key::Char('+'), members).2.effect == Effect::Raise && keyed(
            a,
            st,
            Key::Char('+'),
            members,
        ).2.apply && keyed(a, st, Key::Char('+'), members).2.save,
        keyed(a, st, Key::Char('-'), members).2.effect == Effect::Lower && keyed(
            a,
            st,
            Key::Char('-'),
            members,
        ).2.apply && keyed(a, st, Key::Char('-'), members).2.save,
        keyed(a, st, Key::Char('e'), members).0.input == Some(Input::EditAddr),
        keyed(a, st, Key::Char('e'), members).0.buf.len() == 0,
        keyed(a, st, Key::Char('t'), members).0.input == Some(Input::EditTelegram),
        keyed(a, st, Key::Char('w'), members).0.input == Some(Input::EditWorker),
        keyed(a, st, Key::Char('w'), members).0.buf == a.cfg.worker,
        keyed(a, st, Key::Char('g'), members).0.cfg == a.cfg && keyed(a, st, Key::Char('e'), members).0.cfg == a.cfg
            && keyed(a, st, Key::Char('w'), members).0.cfg == a.cfg && keyed(a, st, Key::Char('t'), members).0.cfg
            == a.cfg,
{
}

/// Law: LEARN turns one page at a time, and stops at either end.
pub proof fn law_pages_turn_by_one(a: AppV, st: StatsV, members: usize)
    requires
        a.wf(),
        a.input is None,
        a.tab == Tab::Learn,
    ensures
        a.learn_page < 3 ==> keyed(a, st, Key::Right, members).0.learn_page == a.learn_page + 1,
        a.learn_page == 3 ==> keyed(a, st, Key::Right, members).0.learn_page == 3,
        a.learn_page > 0 ==> keyed(a, st, Key::Left, members).0.learn_page == a.learn_page - 1,
        a.learn_page == 0 ==> keyed(a, st, Key::Left, members).0.learn_page == 0,
{
}

/// Law: settings that are applied decide what is shown and whose counts are
/// kept; where no pool is selected nothing changes.
pub proof fn law_applied_settings_are_shown(c: ConfigV, st: StatsV, d: DashboardV)
    ensures
        c.selected >= c.stratums.len() ==> applied(c, st, d) == (st, d),
        c.selected < c.stratums.len() ==> {
            let (st2, e) = applied(c, st, d);
            let p = c.stratums[c.selected as int];
            &&& st2.addr == c.addr() && st2.bell == c.alerts.bell
            &&& st2.accepted == st.accepted && st2.rejected == st.rejected && st2.blocks == st.blocks && st2.log
                == st.log && st2.outbox == st.outbox
            &&& e.endpoint == p.url && e.network == p.network && e.mode == mode_of(p.url, p.name)
            &&& e.chirp is None && e.carousel is None && e.balance is None && !e.net_ok
        },
{
}

/// Law: the miner starts on MINE, mining, with its settings as they are and the
/// cursor on the selected pool; nothing is typed.
pub proof fn law_first_screen(cfg: ConfigV)
    ensures
        ({
            let a = first_screen(cfg);
            &&& tab_index(a.tab) == 0
            &&& a.cfg == cfg && a.strat_cur == cfg.selected
            &&& !a.paused && a.input is None && a.buf.len() == 0 && a.msg.len() == 0 && a.list_scroll == 0
        }),
{
}

/// Law: a text that is cancelled, or that is not in its form, changes no
/// setting, and the typing is over: a pool needs a name, an address with a port
/// and a network, and Telegram a token and a chat.
pub proof fn law_refused_texts_change_nothing(a: AppV, st: StatsV, kind: Input, members: usize)
    requires
        a.input == Some(kind),
    ensures
        ({
            let (b, st2, o) = keyed(a, st, Key::Esc, members);
            b.cfg == a.cfg && b.input is None && b.buf.len() == 0 && st2 == st && o == done()
        }),
        kind == Input::AddStratum && !a.buf.contains(',') ==> {
            let (b, st2, o) = keyed(a, st, Key::Enter, members);
            b.cfg == a.cfg && b.input is None && st2 == st && !o.save && b.msg == "format: name,host:port,network"@
        },
        kind == Input::EditTelegram && !a.buf.contains(',') && trimmed(a.buf).len() > 0 ==> {
            let (b, st2, o) = keyed(a, st, Key::Enter, members);
            b.cfg == a.cfg && b.input is None && st2 == st && b.msg
                == "format: <bot_token>,<chat_id>   (empty to disable)"@
        },
{
    if !a.buf.contains(',') {
        crate::text::law_parts_split_off(a.buf, a.buf, ',');
        crate::text::law_unseparated_text_is_whole(a.buf, 3, ',');
    }
}

/// Law: a pool whose address has no port is refused.
pub proof fn law_pools_need_a_port(
    a: AppV,
    st: StatsV,
    members: usize,
    name: Seq<char>,
    url: Seq<char>,
    network: Seq<char>,
)
    requires
        a.input == Some(Input::AddStratum),
        a.buf == name + seq![','] + (url + seq![','] + network),
        !name.contains(','),
        !url.contains(','),
        !contains_text(trimmed(url), ":"@),
    ensures
        keyed(a, st, Key::Enter, members).0.cfg == a.cfg,
        !keyed(a, st, Key::Enter, members).2.save,
{
    crate::text::law_three_parts(name, url, network, ',');
}

/// Law: `Enter` in STRATUMS mines on the pool under the cursor, at once and from
/// then on; `a` opens the typing of a new one.
pub proof fn law_enter_selects_the_pool(a: AppV, st: StatsV, members: usize)
    requires
        a.wf(),
        a.input is None,
        a.tab == Tab::Stratums,
    ensures
        ({
            let (b, st2, o) = keyed(a, st, Key::Enter, members);
            &&& b.cfg == (ConfigV { selected: a.strat_cur, ..a.cfg })
            &&& b.list_scroll == 0 && st2 == st && o.save && o.apply
        }),
        ({
            let (b, st2, o) = keyed(a, st, Key::Char('a'), members);
            b.cfg == a.cfg && b.input == Some(Input::AddStratum) && b.buf.len() == 0 && st2 == st && !o.save
        }),
{
}

/// Law: a key that means nothing on a tab changes nothing there, and a message
/// is shown until the next key.
pub proof fn law_other_keys_do_nothing(a: AppV, st: StatsV, c: char, members: usize)
    requires
        a.input is None,
        !('1' <= c && c <= '7') && c != 'q' && c != 'p',
        a.tab == Tab::Data || a.tab == Tab::Help || a.tab == Tab::Learn || a.tab == Tab::Mine || a.tab == Tab::Network,
    ensures
        keyed(a, st, Key::Char(c), members).0 == (AppV { msg: Seq::empty(), ..a }),
        keyed(a, st, Key::Char(c), members).1 == st,
        keyed(a, st, Key::Char(c), members).2 == done(),
{
}

/// Law: what was typed is confirmed: the login that a worker is mined under, or
/// that there is none, and for Telegram an alert that rings where the bell is
/// on.
pub proof fn law_typed_texts_are_confirmed(a: AppV, st: StatsV, members: usize, token: Seq<char>, chat: Seq<char>)
    requires
        !token.contains(','),
        !chat.contains(','),
    ensures
        a.input == Some(Input::EditWorker) ==> {
            let b = keyed(a, st, Key::Enter, members).0;
            let w = worker_name(trimmed(a.buf));
            &&& w.len() == 0 ==> b.msg == "worker cleared — mining as your bare address"@
            &&& w.len() > 0 ==> b.msg == "worker saved — mining as "@ + login_text(b.cfg.addr(), w)
        },
        a.input == Some(Input::EditTelegram) && a.buf == token + seq![','] + chat && contains_text(trimmed(token), ":"@)
            && trimmed(chat).len() > 0 && trimmed(a.buf).len() > 0 ==> {
            let st2 = keyed(a, st, Key::Enter, members).1;
            &&& st2.bell == a.cfg.alerts.bell
            &&& a.cfg.alerts.bell ==> st2.ring_bell
            &&& st2.outbox.last().title == "alerts armed"@
            &&& st2.accepted == st.accepted && st2.rejected == st.rejected && st2.blocks == st.blocks
        },
{
    if a.buf == token + seq![','] + chat {
        crate::text::law_parts_split_off(token, chat, ',');
        crate::text::law_parts_split_off(chat, chat, ',');
        assert(split_text(a.buf, ',') =~= seq![token, chat]);
    }
}

} // verus!
