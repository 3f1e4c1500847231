//! The saved settings, and the command line that overrides them.

use crate::config::{donates, net_cfg, network_name};
use crate::double::{exactly, units_of, Double};
use crate::engine::{Target, TargetV};
use crate::label::{clean_worker, worker_name};
use crate::pools::{
    default_stratums, find_network, find_url, lemma_on_network, lemma_with_url, on_network, pools, presets, with_url,
    Stratum, StratumV,
};
use crate::text::{
    begins_with, chars_of, first_of, lemma_first_of, parse_uint, parsed, same, splitn_chars, splitn_text, starts_with,
    string_of, trim_chars, trimmed,
};
use vstd::prelude::*;

verus! {

/// The least donation, 2 percent.
pub open spec fn donate_min() -> Double {
    Double { bits: 0x4000_0000_0000_0000 }
}

/// No donation.
pub open spec fn donate_none() -> Double {
    Double { bits: 0 }
}

// ------------------------------------------------------------------ settings

/// How alerts go out.
#[derive(Debug)]
pub struct AlertCfg {
    pub bell: bool,
    pub desktop: bool,
    pub telegram_token: String,
    pub telegram_chat: String,
    pub webhook_url: String,
}

/// Alert settings by what they hold.
pub struct AlertCfgV {
    pub bell: bool,
    pub desktop: bool,
    pub telegram_token: Seq<char>,
    pub telegram_chat: Seq<char>,
    pub webhook_url: Seq<char>,
}

impl View for AlertCfg {
    type V = AlertCfgV;

    open spec fn view(&self) -> AlertCfgV {
        AlertCfgV {
            bell: self.bell,
            desktop: self.desktop,
            telegram_token: self.telegram_token@,
            telegram_chat: self.telegram_chat@,
            webhook_url: self.webhook_url@,
        }
    }
}

impl AlertCfgV {
    /// Bell and desktop on, the rest off.
    pub open spec fn fresh() -> AlertCfgV {
        AlertCfgV {
            bell: true,
            desktop: true,
            telegram_token: Seq::empty(),
            telegram_chat: Seq::empty(),
            webhook_url: Seq::empty(),
        }
    }
}

impl AlertCfg {
    /// Bell and desktop on, the rest off.
    pub fn new() -> (r: AlertCfg)
        ensures
            r@ == AlertCfgV::fresh(),
    {
        let r = AlertCfg {
            bell: true,
            desktop: true,
            telegram_token: String::new(),
            telegram_chat: String::new(),
            webhook_url: String::new(),
        };
        assert(r@.telegram_token =~= Seq::<char>::empty());
        assert(r@.telegram_chat =~= Seq::<char>::empty());
        assert(r@.webhook_url =~= Seq::<char>::empty());
        r
    }

    /// A copy of the settings.
    pub fn copy(&self) -> (r: AlertCfg)
        ensures
            r@ == self@,
    {
        AlertCfg {
            bell: self.bell,
            desktop: self.desktop,
            telegram_token: self.telegram_token.clone(),
            telegram_chat: self.telegram_chat.clone(),
            webhook_url: self.webhook_url.clone(),
        }
    }
}

/// The saved settings.
#[derive(Debug)]
pub struct Config {
    pub stratums: Vec<Stratum>,
    /// The index of the selected pool.
    pub selected: usize,
    /// The address for each network.
    pub addrs: Vec<(String, String)>,
    pub donate: Double,
    pub gpus: Option<u32>,
    pub cpu: bool,
    pub worker: String,
    pub log_file: bool,
    /// 0 where the local API is off.
    pub api_port: u16,
    pub alerts: AlertCfg,
}

/// Settings by what they hold.
#[verifier::ext_equal]
pub struct ConfigV {
    pub stratums: Seq<StratumV>,
    pub selected: usize,
    pub addrs: Map<Seq<char>, Seq<char>>,
    pub donate: Double,
    pub gpus: Option<u32>,
    pub cpu: bool,
    pub worker: Seq<char>,
    pub log_file: bool,
    pub api_port: u16,
    pub alerts: AlertCfgV,
}

/// What a list of pairs says of each key; the last pair with a key counts.
pub open spec fn pairs_map(v: Seq<(String, String)>) -> Map<Seq<char>, Seq<char>>
    decreases v.len(),
{
    if v.len() == 0 { Map::empty() } else { pairs_map(v.drop_last()).insert(v.last().0@, v.last().1@) }
}

impl View for Config {
    type V = ConfigV;

    open spec fn view(&self) -> ConfigV {
        ConfigV {
            stratums: pools(self.stratums@),
            selected: self.selected,
            addrs: pairs_map(self.addrs@),
            donate: self.donate,
            gpus: self.gpus,
            cpu: self.cpu,
            worker: self.worker@,
            log_file: self.log_file,
            api_port: self.api_port,
            alerts: self.alerts@,
        }
    }
}

impl ConfigV {
    /// The settings of a first run.
    pub open spec fn fresh() -> ConfigV {
        ConfigV {
            stratums: presets(),
            selected: 0,
            addrs: Map::empty(),
            donate: donate_min(),
            gpus: None,
            cpu: false,
            worker: Seq::empty(),
            log_file: true,
            api_port: 0,
            alerts: AlertCfgV::fresh(),
        }
    }

    /// The selected pool's network.
    pub open spec fn network(self) -> Seq<char> {
        if self.selected < self.stratums.len() { self.stratums[self.selected as int].network } else { "mainnet"@ }
    }

    /// The address for the selected pool's network.
    pub open spec fn addr(self) -> Seq<char> {
        if self.addrs.contains_key(self.network()) { self.addrs[self.network()] } else { Seq::empty() }
    }

    /// What is donated on a network: nothing but on mainnet, and there the
    /// least donation at least.
    pub open spec fn donation(self, network: Seq<char>) -> Double {
        if !donates(network) {
            donate_none()
        } else if donate_min().spec_below(self.donate) {
            self.donate
        } else {
            donate_min()
        }
    }

    /// What the engine mines under these settings.
    pub open spec fn target(self) -> TargetV {
        TargetV {
            pool: if self.selected < self.stratums.len() {
                self.stratums[self.selected as int].url
            } else {
                Seq::empty()
            },
            addr: self.addr(),
            worker: worker_name(self.worker),
            network: self.network(),
            donate: self.donation(self.network()),
        }
    }
}

fn map_lookup(v: &Vec<(String, String)>, key: &str) -> (r: Option<usize>)
    ensures
        match r {
            Some(i) => i < v@.len() && pairs_map(v@).contains_key(key@) && pairs_map(v@)[key@] == v@[i as int].1@,
            None => !pairs_map(v@).contains_key(key@),
        },
{
    let mut i: usize = v.len();
    assert(v@.take(i as int) =~= v@);
    while i > 0
        invariant
            i <= v@.len(),
            pairs_map(v@).contains_key(key@) == pairs_map(v@.take(i as int)).contains_key(key@),
            pairs_map(v@).contains_key(key@) ==> pairs_map(v@)[key@] == pairs_map(v@.take(i as int))[key@],
        decreases i,
    {
        i = i - 1;
        assert(v@.take(i + 1).drop_last() =~= v@.take(i as int));
        if same(v[i].0.as_str(), key) {
            return Some(i);
        }
    }
    None
}

impl Config {
    /// The settings of a first run.
    pub fn new() -> (r: Config)
        ensures
            r@ == ConfigV::fresh(),
    {
        let r = Config {
            stratums: default_stratums(),
            selected: 0,
            addrs: Vec::new(),
            donate: Double { bits: 0x4000_0000_0000_0000 },
            gpus: None,
            cpu: false,
            worker: String::new(),
            log_file: true,
            api_port: 0,
            alerts: AlertCfg::new(),
        };
        assert(r@ =~= ConfigV::fresh());
        r
    }

    /// The selected pool's network.
    pub fn network(&self) -> (r: String)
        ensures
            r@ == self@.network(),
    {
        if self.selected < self.stratums.len() {
            self.stratums[self.selected].network.clone()
        } else {
            "mainnet".to_owned()
        }
    }

    /// The address for the selected pool's network.
    pub fn addr(&self) -> (r: String)
        ensures
            r@ == self@.addr(),
    {
        let net = self.network();
        match map_lookup(&self.addrs, net.as_str()) {
            Some(i) => self.addrs[i].1.clone(),
            None => {
                let r = String::new();
                assert(r@ =~= Seq::<char>::empty());
                r
            },
        }
    }

    /// Sets the address for a network.
    pub fn set_addr(&mut self, net: String, addr: String)
        ensures
            final(self)@ == (ConfigV { addrs: old(self)@.addrs.insert(net@, addr@), ..old(self)@ }),
    {
        let ghost before = self@;
        let ghost v = self.addrs@;
        let mut out: Vec<(String, String)> = Vec::new();
        let mut i: usize = 0;
        assert(v.take(0).len() == 0);
        assert(pairs_map(out@) =~= pairs_map(v.take(0)).remove(net@));
        while i < self.addrs.len()
            invariant
                i <= self.addrs@.len(),
                self.addrs@ == v,
                self@ == before,
                pairs_map(out@) == pairs_map(v.take(i as int)).remove(net@),
            decreases self.addrs@.len() - i,
        {
            assert(v.take(i + 1).drop_last() =~= v.take(i as int));
            let ghost m = pairs_map(v.take(i as int));
            let ghost k = v[i as int].0@;
            let ghost x = v[i as int].1@;
            if !same(self.addrs[i].0.as_str(), net.as_str()) {
                let ghost was = out@;
                out.push((self.addrs[i].0.clone(), self.addrs[i].1.clone()));
                assert(out@.drop_last() =~= was);
                assert(m.insert(k, x).remove(net@) =~= m.remove(net@).insert(k, x));
            } else {
                assert(m.insert(k, x).remove(net@) =~= m.remove(net@));
            }
            i = i + 1;
        }
        assert(v.take(i as int) =~= v);
        let ghost kept = out@;
        out.push((net, addr));
        assert(out@.drop_last() =~= kept);
        assert(before.addrs.remove(net@).insert(net@, addr@) =~= before.addrs.insert(net@, addr@));
        self.addrs = out;
        assert(self@ =~= ConfigV { addrs: before.addrs.insert(net@, addr@), ..before });
    }

    /// What is donated on a network.
    pub fn donation(&self, network: &str) -> (r: Double)
        ensures
            r == self@.donation(network@),
    {
        let least = Double { bits: 0x4000_0000_0000_0000 };
        if !net_cfg(network).donate {
            Double { bits: 0 }
        } else if least.below(self.donate) {
            self.donate
        } else {
            least
        }
    }

    /// What the engine mines under these settings.
    pub fn target(&self) -> (r: Target)
        ensures
            r@ == self@.target(),
    {
        let pool = if self.selected < self.stratums.len() {
            self.stratums[self.selected].url.clone()
        } else {
            String::new()
        };
        assert(pool@ =~= self@.target().pool);
        let network = self.network();
        let donate = self.donation(network.as_str());
        Target { pool, addr: self.addr(), worker: clean_worker(self.worker.as_str()), network, donate }
    }
}

/// Law: on mainnet at least 2 percent are donated whatever the settings say,
/// and nothing elsewhere.
pub proof fn law_donation_is_bounded(c: ConfigV, network: Seq<char>)
    ensures
        donates(network) ==> !c.donation(network).spec_below(donate_min()),
        !donates(network) ==> c.donation(network) == donate_none(),
        donates(network) && donate_min().spec_below(c.donate) ==> c.donation(network) == c.donate,
{
}

// ------------------------------------------------------------------- devices

/// How many grinders are started, and whether the CPU mines too: all the GPUs
/// that were found unless a number was asked for, and the CPU where it was
/// asked for or nothing else mines.
pub open spec fn devices_of(gpus: Option<u32>, cpu: bool, detected: u32) -> (u32, bool) {
    let n = match gpus {
        Some(n) => n,
        None => if detected > 0 { detected } else { 1 },
    };
    (n, cpu || n == 0)
}

/// Chooses the devices.
pub fn devices(gpus: Option<u32>, cpu: bool, detected: u32) -> (r: (u32, bool))
    ensures
        r == devices_of(gpus, cpu, detected),
{
    let n: u32 = match gpus {
        Some(n) => n,
        None => if detected > 0 { detected } else { 1 },
    };
    (n, cpu || n == 0)
}

// -------------------------------------------------------------- command line

/// An argument of the command line, and the number that it spells where it
/// spells one.
#[derive(Debug)]
pub struct Arg {
    pub text: String,
    pub number: Option<Double>,
}

/// An argument by what it holds.
pub struct ArgV {
    pub text: Seq<char>,
    pub number: Option<Double>,
}

impl View for Arg {
    type V = ArgV;

    open spec fn view(&self) -> ArgV {
        ArgV { text: self.text@, number: self.number }
    }
}

/// The arguments of a list.
pub open spec fn arguments(v: Seq<Arg>) -> Seq<ArgV> {
    Seq::new(v.len(), |i: int| v[i]@)
}

/// What the command line asks for.
#[derive(Debug)]
pub struct Startup {
    pub cfg: Config,
    /// Whether to run without a screen.
    pub headless: bool,
    /// The network to generate an address for.
    pub genaddr: Option<String>,
    /// Whether to print the version and nothing else.
    pub version: bool,
}

/// What the command line asks for, by what it holds.
#[verifier::ext_equal]
pub struct StartupV {
    pub cfg: ConfigV,
    pub headless: bool,
    pub genaddr: Option<Seq<char>>,
    pub version: bool,
}

impl View for Startup {
    type V = StartupV;

    open spec fn view(&self) -> StartupV {
        StartupV {
            cfg: self.cfg@,
            headless: self.headless,
            genaddr: match self.genaddr {
                Some(s) => Some(s@),
                None => None,
            },
            version: self.version,
        }
    }
}

/// A pool named on the command line is selected; one that is not in the list
/// is added to it.
pub open spec fn pool_picked(c: ConfigV, url: Seq<char>) -> ConfigV {
    let i = with_url(c.stratums, url);
    if i < c.stratums.len() {
        ConfigV { selected: i as usize, ..c }
    } else {
        ConfigV {
            stratums: c.stratums.push(
                StratumV { name: "--pool "@ + url, url, network: c.network(), custom: true },
            ),
            selected: c.stratums.len() as usize,
            ..c
        }
    }
}

/// A network named on the command line selects the first pool on it.
pub open spec fn network_picked(c: ConfigV, net: Seq<char>) -> ConfigV {
    let i = on_network(c.stratums, network_name(net));
    if i < c.stratums.len() { ConfigV { selected: i as usize, ..c } } else { c }
}

/// A Telegram token and, after a comma, a chat.
pub open spec fn telegram_set(c: ConfigV, s: Seq<char>) -> ConfigV {
    let parts = splitn_text(s, 2, ',');
    ConfigV {
        alerts: AlertCfgV {
            telegram_token: trimmed(parts[0]),
            telegram_chat: if parts.len() > 1 { trimmed(parts[1]) } else { Seq::empty() },
            ..c.alerts
        },
        ..c
    }
}

/// Whether an option is followed by a value.
pub open spec fn takes_value(name: Seq<char>) -> bool {
    name == "--addr"@ || name == "--network"@ || name == "--net"@ || name == "--chain"@ || name == "--pool"@ || name
        == "--gpus"@ || name == "--worker"@ || name == "--api-port"@ || name == "--telegram"@ || name == "--webhook"@
        || name == "--donate"@
}

/// After an option with its value.
pub open spec fn valued(c: ConfigV, name: Seq<char>, a: ArgV) -> ConfigV {
    if name == "--addr"@ {
        ConfigV { addrs: c.addrs.insert(c.network(), a.text), ..c }
    } else if name == "--network"@ || name == "--net"@ || name == "--chain"@ {
        network_picked(c, a.text)
    } else if name == "--pool"@ {
        pool_picked(c, a.text)
    } else if name == "--gpus"@ {
        ConfigV {
            gpus: match parsed(a.text, 10, 0xffff_ffff) {
                Some(n) => Some(n as u32),
                None => None,
            },
            ..c
        }
    } else if name == "--worker"@ {
        ConfigV { worker: worker_name(a.text), ..c }
    } else if name == "--api-port"@ {
        ConfigV {
            api_port: match parsed(a.text, 10, 0xffff) {
                Some(n) => n as u16,
                None => 0,
            },
            ..c
        }
    } else if name == "--telegram"@ {
        telegram_set(c, a.text)
    } else if name == "--webhook"@ {
        ConfigV { alerts: AlertCfgV { webhook_url: a.text, ..c.alerts }, ..c }
    } else {
        ConfigV {
            donate: match a.number {
                Some(d) => d,
                None => donate_min(),
            },
            ..c
        }
    }
}

/// After an option without a value. Unknown ones change nothing.
pub open spec fn flagged(s: StartupV, name: Seq<char>) -> StartupV {
    if name == "--cpu"@ {
        StartupV { cfg: ConfigV { cpu: true, ..s.cfg }, ..s }
    } else if name == "--no-log-file"@ {
        StartupV { cfg: ConfigV { log_file: false, ..s.cfg }, ..s }
    } else if name == "--no-bell"@ {
        StartupV { cfg: ConfigV { alerts: AlertCfgV { bell: false, ..s.cfg.alerts }, ..s.cfg }, ..s }
    } else if name == "--no-desktop"@ {
        StartupV { cfg: ConfigV { alerts: AlertCfgV { desktop: false, ..s.cfg.alerts }, ..s.cfg }, ..s }
    } else if name == "--headless"@ || name == "--daemon"@ || name == "--no-tui"@ {
        StartupV { headless: true, ..s }
    } else {
        s
    }
}

/// After the arguments from `i` on.
pub open spec fn read_from(s: StartupV, args: Seq<ArgV>, i: int) -> StartupV
    decreases args.len() - i,
{
    if i < 0 || i >= args.len() {
        s
    } else {
        let name = args[i].text;
        if takes_value(name) {
            if i + 1 < args.len() {
                read_from(StartupV { cfg: valued(s.cfg, name, args[i + 1]), ..s }, args, i + 2)
            } else {
                s
            }
        } else if name == "--genaddr"@ || name == "--newaddr"@ {
            if i + 1 < args.len() && !begins_with(args[i + 1].text, "--"@) {
                read_from(StartupV { genaddr: Some(network_name(args[i + 1].text)), ..s }, args, i + 2)
            } else {
                read_from(StartupV { genaddr: Some("mainnet"@), ..s }, args, i + 1)
            }
        } else if name == "--version"@ || name == "-V"@ {
            StartupV { version: true, ..s }
        } else {
            read_from(flagged(s, name), args, i + 1)
        }
    }
}

/// What a command line asks for on top of the saved settings. The first
/// argument is the program's own name.
pub open spec fn started_with(c: ConfigV, args: Seq<ArgV>) -> StartupV {
    read_from(StartupV { cfg: c, headless: false, genaddr: None, version: false }, args, 1)
}

impl Config {
    fn pick_pool(&mut self, url: &str)
        requires
            old(self).stratums@.len() < usize::MAX,
        ensures
            final(self)@ == pool_picked(old(self)@, url@),
    {
        let ghost before = self@;
        let i = find_url(&self.stratums, url);
        if i < self.stratums.len() {
            self.selected = i;
        } else {
            let network = self.network();
            let mut name = "--pool ".to_owned();
            name.append(url);
            let n: usize = self.stratums.len();
            self.stratums.push(Stratum { name, url: url.to_owned(), network, custom: true });
            self.selected = n;
            assert(self@.stratums =~= pool_picked(before, url@).stratums);
        }
        assert(self@ =~= pool_picked(before, url@));
    }

    fn set_telegram(&mut self, s: &str)
        ensures
            final(self)@ == telegram_set(old(self)@, s@),
    {
        let ghost before = self@;
        let parts = splitn_chars(&chars_of(s), 2, ',');
        self.alerts.telegram_token = string_of(&trim_chars(&parts[0]));
        self.alerts.telegram_chat = if parts.len() > 1 { string_of(&trim_chars(&parts[1])) } else { String::new() };
        assert(self@.alerts.telegram_chat =~= telegram_set(before, s@).alerts.telegram_chat);
        assert(self@ =~= telegram_set(before, s@));
    }

    fn set_option(&mut self, name: &str, a: &Arg)
        requires
            takes_value(name@),
            old(self).stratums@.len() < usize::MAX,
        ensures
            final(self)@ == valued(old(self)@, name@, a@),
    {
        let ghost before = self@;
        if same(name, "--addr") {
            let net = self.network();
            self.set_addr(net, a.text.clone());
        } else if same(name, "--network") || same(name, "--net") || same(name, "--chain") {
            let i = find_network(&self.stratums, net_cfg(a.text.as_str()).name);
            if i < self.stratums.len() {
                self.selected = i;
            }
            assert(self@ =~= network_picked(before, a@.text));
        } else if same(name, "--pool") {
            self.pick_pool(a.text.as_str());
        } else if same(name, "--gpus") {
            self.gpus = match parse_uint(&chars_of(a.text.as_str()), 10, 0xffff_ffff) {
                Some(n) => Some(n as u32),
                None => None,
            };
        } else if same(name, "--worker") {
            self.worker = clean_worker(a.text.as_str());
        } else if same(name, "--api-port") {
            self.api_port = match parse_uint(&chars_of(a.text.as_str()), 10, 0xffff) {
                Some(n) => n as u16,
                None => 0,
            };
        } else if same(name, "--telegram") {
            self.set_telegram(a.text.as_str());
        } else if same(name, "--webhook") {
            self.alerts.webhook_url = a.text.clone();
        } else {
            self.donate = match a.number {
                Some(d) => d,
                None => Double { bits: 0x4000_0000_0000_0000 },
            };
        }
        assert(self@ =~= valued(before, name@, a@));
    }
}

fn has_value(name: &str) -> (r: bool)
    ensures
        r == takes_value(name@),
{
    same(name, "--addr") || same(name, "--network") || same(name, "--net") || same(name, "--chain") || same(
        name,
        "--pool",
    ) || same(name, "--gpus") || same(name, "--worker") || same(name, "--api-port") || same(name, "--telegram") || same(
        name,
        "--webhook",
    ) || same(name, "--donate")
}

impl Startup {
    fn set_flag(&mut self, name: &str)
        ensures
            final(self)@ == flagged(old(self)@, name@),
    {
        let ghost before = self@;
        if same(name, "--cpu") {
            self.cfg.cpu = true;
        } else if same(name, "--no-log-file") {
            self.cfg.log_file = false;
        } else if same(name, "--no-bell") {
            self.cfg.alerts.bell = false;
        } else if same(name, "--no-desktop") {
            self.cfg.alerts.desktop = false;
        } else if same(name, "--headless") || same(name, "--daemon") || same(name, "--no-tui") {
            self.headless = true;
        }
        assert(self@ =~= flagged(before, name@));
    }
}

proof fn lemma_few_pools(c: ConfigV, name: Seq<char>, a: ArgV)
    ensures
        valued(c, name, a).stratums.len() <= c.stratums.len() + 1,
{
}

/// Reads the command line.
pub fn read_args(cfg: Config, args: &Vec<Arg>) -> (r: Startup)
    requires
        cfg.stratums@.len() + args@.len() < usize::MAX,
    ensures
        r@ == started_with(cfg@, arguments(args@)),
{
    let ghost all = arguments(args@);
    let ghost n0 = cfg.stratums@.len();
    let mut s = Startup { cfg, headless: false, genaddr: None, version: false };
    let ghost want = started_with(cfg@, all);
    assert(s@ =~= StartupV { cfg: cfg@, headless: false, genaddr: None, version: false });
    let mut i: usize = 1;
    while i < args.len()
        invariant
            1 <= i,
            all == arguments(args@),
            want == started_with(cfg@, all),
            s.cfg.stratums@.len() <= n0 + i,
            n0 + args@.len() < usize::MAX,
            read_from(s@, all, i as int) == want,
        decreases args@.len() + 1 - i,
    {
        let ghost before = s@;
        let name = args[i].text.as_str();
        assert(all[i as int].text == name@);
        if has_value(name) {
            if i + 1 < args.len() {
                proof {
                    lemma_few_pools(s.cfg@, name@, all[i + 1]);
                }
                s.cfg.set_option(name, &args[i + 1]);
                assert(s.cfg@.stratums.len() == s.cfg.stratums@.len());
                assert(s@ =~= StartupV { cfg: valued(before.cfg, name@, all[i + 1]), ..before });
            }
            i = i + 1;
        } else if same(name, "--genaddr") || same(name, "--newaddr") {
            if i + 1 < args.len() && !starts_with(args[i + 1].text.as_str(), "--") {
                s.genaddr = Some(net_cfg(args[i + 1].text.as_str()).name.to_owned());
                assert(s@ =~= StartupV { genaddr: Some(network_name(all[i + 1].text)), ..before });
                i = i + 1;
            } else {
                s.genaddr = Some("mainnet".to_owned());
                assert(s@ =~= StartupV { genaddr: Some("mainnet"@), ..before });
            }
        } else if same(name, "--version") || same(name, "-V") {
            s.version = true;
            assert(s@ =~= StartupV { version: true, ..before });
            return s;
        } else {
            s.set_flag(name);
            assert(s.cfg@.stratums.len() == s.cfg.stratums@.len());
        }
        i = i + 1;
    }
    s
}

/// With the first pool selected where the selected one is not in the list.
pub open spec fn selecting_listed(c: ConfigV) -> ConfigV {
    ConfigV { selected: if c.selected >= c.stratums.len() { 0 } else { c.selected }, ..c }
}

/// Selects the first pool where the selected one is not in the list.
pub fn clamp_selected(c: &mut Config)
    ensures
        final(c)@ == (ConfigV {
            selected: if old(c)@.selected >= old(c)@.stratums.len() { 0 } else { old(c)@.selected },
            ..old(c)@
        }),
        final(c)@ == selecting_listed(old(c)@),
{
    let ghost before = c@;
    if c.selected >= c.stratums.len() {
        c.selected = 0;
    }
    assert(c@ =~= ConfigV {
        selected: if before.selected >= before.stratums.len() { 0 } else { before.selected },
        ..before
    });
}

/// Law: a pool that is named on the command line is the one that is mined, and
/// naming it again adds nothing.
pub proof fn law_named_pool_is_mined(c: ConfigV, url: Seq<char>)
    requires
        c.stratums.len() < usize::MAX,
    ensures
        pool_picked(c, url).target().pool == url,
        pool_picked(pool_picked(c, url), url).stratums == pool_picked(c, url).stratums,
{
    let p = pool_picked(c, url);
    lemma_with_url(c.stratums, url);
    lemma_with_url(p.stratums, url);
    if with_url(c.stratums, url) >= c.stratums.len() {
        assert(p.stratums[c.stratums.len() as int].url == url);
    }
}

/// Law: a network that is named on the command line is the one that is mined
/// on, as long as some pool is on it.
pub proof fn law_named_network_is_selected(c: ConfigV, net: Seq<char>, i: int)
    requires
        0 <= i < c.stratums.len() <= usize::MAX,
        c.stratums[i].network == network_name(net),
    ensures
        network_picked(c, net).network() == network_name(net),
        network_picked(c, net).stratums == c.stratums,
{
    lemma_on_network(c.stratums, network_name(net));
}

/// Law: the saved settings stand where the command line has no options.
pub proof fn law_settings_stand_alone(c: ConfigV, args: Seq<ArgV>)
    requires
        args.len() <= 1,
    ensures
        started_with(c, args) == (StartupV { cfg: c, headless: false, genaddr: None, version: false }),
{
}

// --------------------------------------------------------------------- laws

/// The names of the options, told apart.
proof fn lemma_option_names()
    ensures
        takes_value("--addr"@) && takes_value("--network"@) && takes_value("--pool"@) && takes_value("--gpus"@)
            && takes_value("--worker"@) && takes_value("--api-port"@) && takes_value("--telegram"@) && takes_value(
            "--webhook"@,
        ) && takes_value("--donate"@),
        "--addr"@ != "--pool"@,
        "--addr"@ != "--gpus"@,
        "--pool"@ != "--gpus"@,
        "--network"@ != "--webhook"@,
        "--worker"@ != "--donate"@,
        "--api-port"@ != "--telegram"@,
        "--net"@.len() == 5 && "--addr"@.len() == 6 && "--chain"@.len() == 7 && "--worker"@.len() == 8
            && "--network"@.len() == 9 && "--api-port"@.len() == 10,
        "--pool"@.len() == 6 && "--gpus"@.len() == 6 && "--donate"@.len() == 8 && "--webhook"@.len() == 9
            && "--telegram"@.len() == 10,
{
    reveal_strlit("--addr");
    reveal_strlit("--network");
    reveal_strlit("--net");
    reveal_strlit("--chain");
    reveal_strlit("--pool");
    reveal_strlit("--gpus");
    reveal_strlit("--worker");
    reveal_strlit("--api-port");
    reveal_strlit("--telegram");
    reveal_strlit("--webhook");
    reveal_strlit("--donate");
    assert("--addr"@[2] == 'a' && "--pool"@[2] == 'p' && "--gpus"@[2] == 'g' && "--network"@[2] == 'n'
        && "--webhook"@[2] == 'w' && "--worker"@[2] == 'w' && "--donate"@[2] == 'd' && "--api-port"@[2] == 'a'
        && "--telegram"@[2] == 't');
}

/// Law: each option of the command line sets what it names, and leaves the
/// other settings alone.
pub proof fn law_options_set_what_they_name(c: ConfigV, a: ArgV)
    ensures
        valued(c, "--addr"@, a) == (ConfigV { addrs: c.addrs.insert(c.network(), a.text), ..c }),
        valued(c, "--worker"@, a) == (ConfigV { worker: worker_name(a.text), ..c }),
        valued(c, "--gpus"@, a).gpus == match parsed(a.text, 10, 0xffff_ffff) {
            Some(n) => Some(n as u32),
            None => None::<u32>,
        },
        valued(c, "--gpus"@, a) == (ConfigV { gpus: valued(c, "--gpus"@, a).gpus, ..c }),
        parsed(a.text, 10, 0xffff) is Some ==> valued(c, "--api-port"@, a).api_port == parsed(a.text, 10, 0xffff)->0,
        parsed(a.text, 10, 0xffff) is None ==> valued(c, "--api-port"@, a).api_port == 0,
        valued(c, "--api-port"@, a) == (ConfigV { api_port: valued(c, "--api-port"@, a).api_port, ..c }),
        valued(c, "--webhook"@, a).alerts == (AlertCfgV { webhook_url: a.text, ..c.alerts }),
        valued(c, "--webhook"@, a) == (ConfigV { alerts: valued(c, "--webhook"@, a).alerts, ..c }),
        a.number is Some ==> valued(c, "--donate"@, a) == (ConfigV { donate: a.number->0, ..c }),
        a.number is None ==> exactly(valued(c, "--donate"@, a).donate, 2),
        valued(c, "--pool"@, a) == pool_picked(c, a.text),
        valued(c, "--network"@, a) == network_picked(c, a.text),
        valued(c, "--net"@, a) == network_picked(c, a.text),
        valued(c, "--chain"@, a) == network_picked(c, a.text),
        valued(c, "--telegram"@, a) == telegram_set(c, a.text),
{
    lemma_option_names();
    lemma_least_donation();
    if parsed(a.text, 10, 0xffff) is Some {
        assert(parsed(a.text, 10, 0xffff)->0 <= 0xffff);
    }
}

proof fn lemma_least_donation()
    ensures
        exactly(donate_min(), 2),
        exactly(donate_none(), 0),
{
    let m = 0x4000_0000_0000_0000int;
    assert(m / 0x10_0000_0000_0000 == 1024 && m % 0x10_0000_0000_0000 == 0);
    vstd::arithmetic::power2::lemma2_to64();
    vstd::arithmetic::power2::lemma2_to64_rest();
    vstd::arithmetic::power2::lemma_pow2_adds(52, 1023);
    vstd::arithmetic::power2::lemma_pow2_adds(1, 1074);
    assert(units_of(0) == 0);
}

/// Law: the flags of the command line. Each sets what it names and leaves the
/// rest alone.
pub proof fn law_flags_set_what_they_name(s: StartupV, name: Seq<char>)
    ensures
        flagged(s, "--cpu"@) == (StartupV { cfg: ConfigV { cpu: true, ..s.cfg }, ..s }),
        flagged(s, "--no-log-file"@) == (StartupV { cfg: ConfigV { log_file: false, ..s.cfg }, ..s }),
        !flagged(s, "--no-bell"@).cfg.alerts.bell,
        flagged(s, "--no-bell"@).cfg.alerts.desktop == s.cfg.alerts.desktop,
        !flagged(s, "--no-desktop"@).cfg.alerts.desktop,
        flagged(s, "--no-desktop"@).cfg.alerts.bell == s.cfg.alerts.bell,
        flagged(s, "--headless"@).headless && flagged(s, "--daemon"@).headless && flagged(s, "--no-tui"@).headless,
        flagged(s, "--headless"@).cfg == s.cfg,
        flagged(s, name).cfg.stratums == s.cfg.stratums && flagged(s, name).cfg.selected == s.cfg.selected && flagged(
            s,
            name,
        ).cfg.addrs == s.cfg.addrs && flagged(s, name).cfg.donate == s.cfg.donate && flagged(s, name).cfg.gpus
            == s.cfg.gpus && flagged(s, name).cfg.worker == s.cfg.worker && flagged(s, name).cfg.api_port
            == s.cfg.api_port && flagged(s, name).genaddr == s.genaddr && flagged(s, name).version == s.version,
        name != "--cpu"@ && name != "--no-log-file"@ && name != "--no-bell"@ && name != "--no-desktop"@ && name
            != "--headless"@ && name != "--daemon"@ && name != "--no-tui"@ ==> flagged(s, name) == s,
{
    reveal_strlit("--cpu");
    reveal_strlit("--no-log-file");
    reveal_strlit("--no-bell");
    reveal_strlit("--no-desktop");
    reveal_strlit("--headless");
    reveal_strlit("--daemon");
    reveal_strlit("--no-tui");
    assert("--cpu"@.len() == 5 && "--no-log-file"@.len() == 13 && "--no-bell"@.len() == 9 && "--no-desktop"@.len() == 12
        && "--headless"@.len() == 10 && "--daemon"@.len() == 8 && "--no-tui"@.len() == 8);
    assert("--daemon"@[2] == 'd' && "--no-tui"@[2] == 'n');
}

/// Law: the command line is read from left to right. An option takes the next
/// argument as its value; one without a value at the end is ignored, and so is
/// everything behind a request for the version.
pub proof fn law_arguments_are_read_in_order(s: StartupV, args: Seq<ArgV>, i: int)
    requires
        0 <= i < args.len(),
    ensures
        takes_value(args[i].text) && i + 1 < args.len() ==> read_from(s, args, i) == read_from(
            StartupV { cfg: valued(s.cfg, args[i].text, args[i + 1]), ..s },
            args,
            i + 2,
        ),
        takes_value(args[i].text) && i + 1 == args.len() ==> read_from(s, args, i) == s,
        args[i].text == "--cpu"@ ==> read_from(s, args, i) == read_from(
            StartupV { cfg: ConfigV { cpu: true, ..s.cfg }, ..s },
            args,
            i + 1,
        ),
        args[i].text == "--version"@ || args[i].text == "-V"@ ==> read_from(s, args, i) == (StartupV {
            version: true,
            ..s
        }),
        args[i].text == "--genaddr"@ && i + 1 < args.len() && !begins_with(args[i + 1].text, "--"@) ==> read_from(
            s,
            args,
            i,
        ) == read_from(StartupV { genaddr: Some(network_name(args[i + 1].text)), ..s }, args, i + 2),
        read_from(s, args, args.len() as int) == s,
{
    lemma_option_names();
    law_flags_set_what_they_name(s, args[i].text);
    reveal_strlit("--cpu");
    reveal_strlit("--version");
    reveal_strlit("-V");
    reveal_strlit("--genaddr");
    reveal_strlit("--newaddr");
    reveal_strlit("--network");
    reveal_strlit("--net");
    reveal_strlit("--webhook");
    assert("--cpu"@.len() == 5 && "--cpu"@[2] == 'c' && "--net"@[2] == 'n');
    assert("--version"@.len() == 9 && "--version"@[2] == 'v' && "--network"@[2] == 'n' && "--webhook"@[2] == 'w');
    assert("-V"@.len() == 2);
    assert("--genaddr"@.len() == 9 && "--genaddr"@[2] == 'g' && "--newaddr"@.len() == 9);
    assert("--newaddr"@[2] == 'n' && "--newaddr"@[4] == 'w' && "--genaddr"@[4] == 'n');
}

/// Law: a Telegram setting is the token before the first comma and the chat
/// behind it, without the space around them.
pub proof fn law_telegram_is_token_and_chat(c: ConfigV, token: Seq<char>, chat: Seq<char>)
    requires
        !token.contains(','),
    ensures
        telegram_set(c, token + seq![','] + chat).alerts.telegram_token == trimmed(token),
        telegram_set(c, token + seq![','] + chat).alerts.telegram_chat == trimmed(chat),
        telegram_set(c, token).alerts.telegram_token == trimmed(token),
        telegram_set(c, token).alerts.telegram_chat.len() == 0,
        telegram_set(c, token).alerts.bell == c.alerts.bell,
{
    let s = token + seq![','] + chat;
    lemma_first_of(s, ',');
    lemma_first_of(token, ',');
    let k = first_of(s, ',');
    if k < token.len() {
        assert(s[k] == token[k]);
        assert(token.contains(token[k]));
    }
    assert(s[token.len() as int] == ',');
    assert(k == token.len());
    assert(s.take(k) =~= token);
    assert(s.skip(k + 1) =~= chat);
    reveal_with_fuel(splitn_text, 3);
    let j = first_of(token, ',');
    if j < token.len() {
        assert(token.contains(token[j]));
    }
}

/// Law: what is mined follows the selected pool: its URL and network, the
/// address for that network, and the worker's name as the pool can take it.
pub proof fn law_target_follows_the_selection(c: ConfigV)
    requires
        c.selected < c.stratums.len(),
    ensures
        ({
            let p = c.stratums[c.selected as int];
            let t = c.target();
            &&& t.pool == p.url
            &&& t.network == p.network
            &&& c.addrs.contains_key(p.network) ==> t.addr == c.addrs[p.network]
            &&& !c.addrs.contains_key(p.network) ==> t.addr.len() == 0
            &&& t.worker == worker_name(c.worker)
            &&& donates(p.network) && !c.donate.nan() && c.donate.units() > donate_min().units() ==> t.donate
                == c.donate
            &&& donates(p.network) && (c.donate.nan() || c.donate.units() <= donate_min().units()) ==> exactly(
                t.donate,
                2,
            )
            &&& !donates(p.network) ==> exactly(t.donate, 0)
        }),
{
    lemma_least_donation();
}

/// Law: all GPUs that were found mine unless a number was asked for, at least
/// one is tried, and the CPU mines where it was asked for or no GPU does.
pub proof fn law_devices_are_chosen(gpus: Option<u32>, cpu: bool, detected: u32)
    ensures
        gpus is Some ==> devices_of(gpus, cpu, detected).0 == gpus->0,
        gpus is None && detected > 0 ==> devices_of(gpus, cpu, detected).0 == detected,
        gpus is None && detected == 0 ==> devices_of(gpus, cpu, detected).0 == 1,
        devices_of(gpus, cpu, detected).1 <==> cpu || devices_of(gpus, cpu, detected).0 == 0,
{
}

/// Law: a pool named on the command line that is not in the list is added at
/// its end as the user's own, on the network mined on; the others stay.
pub proof fn law_unknown_pools_are_added(c: ConfigV, url: Seq<char>)
    requires
        c.stratums.len() < usize::MAX,
        forall|i: int| 0 <= i < c.stratums.len() ==> (#[trigger] c.stratums[i]).url != url,
    ensures
        pool_picked(c, url).stratums.drop_last() == c.stratums,
        pool_picked(c, url).stratums.last().url == url,
        pool_picked(c, url).stratums.last().network == c.network(),
        pool_picked(c, url).stratums.last().custom,
        pool_picked(c, url).selected == c.stratums.len(),
        pool_picked(c, url).addrs == c.addrs && pool_picked(c, url).donate == c.donate && pool_picked(c, url).worker
            == c.worker,
{
    lemma_with_url(c.stratums, url);
    assert(pool_picked(c, url).stratums.drop_last() =~= c.stratums);
}

/// Law: of addresses saved for the same network the last counts.
pub proof fn law_last_address_counts(v: Seq<(String, String)>, i: int)
    requires
        0 <= i < v.len(),
        forall|j: int| i < j < v.len() ==> (#[trigger] v[j]).0@ != v[i].0@,
    ensures
        pairs_map(v).contains_key(v[i].0@),
        pairs_map(v)[v[i].0@] == v[i].1@,
    decreases v.len(),
{
    if i < v.len() - 1 {
        let d = v.drop_last();
        assert(d[i] == v[i]);
        assert(v[v.len() - 1].0@ != v[i].0@);
        assert forall|j: int| i < j < d.len() implies (#[trigger] d[j]).0@ != d[i].0@ by {
            assert(v[j].0@ != v[i].0@);
        }
        law_last_address_counts(d, i);
    }
}

/// Law: where there are pools, one of them is selected; a selection that is in
/// the list stays, and so does every other setting.
pub proof fn law_a_listed_pool_is_selected(c: ConfigV)
    ensures
        c.stratums.len() > 0 ==> selecting_listed(c).selected < c.stratums.len(),
        c.selected < c.stratums.len() ==> selecting_listed(c) == c,
        selecting_listed(c).stratums == c.stratums && selecting_listed(c).addrs == c.addrs && selecting_listed(c).worker
            == c.worker && selecting_listed(c).donate == c.donate && selecting_listed(c).alerts == c.alerts,
{
}

/// Law: fresh settings mine the first default pool, on mainnet, without an
/// address yet, with every GPU and not the CPU, with the bell and desktop alerts
/// and a log file, and with nothing sent anywhere.
pub proof fn law_fresh_settings()
    ensures
        ({
            let c = ConfigV::fresh();
            &&& c.selected == 0 && c.stratums.len() > 0 && c.network() == "mainnet"@
            &&& c.addr().len() == 0 && c.worker.len() == 0
            &&& c.gpus is None && !c.cpu
            &&& c.log_file && c.api_port == 0
            &&& c.alerts.bell && c.alerts.desktop
            &&& c.alerts.telegram_token.len() == 0 && c.alerts.telegram_chat.len() == 0 && c.alerts.webhook_url.len() == 0
            &&& c.donate == donate_min()
        }),
{
}

/// Law: the network is the selected pool's, and mainnet where none is selected;
/// then there is no pool to mine on either.
pub proof fn law_network_is_the_selected_pools(c: ConfigV)
    ensures
        c.selected < c.stratums.len() ==> c.network() == c.stratums[c.selected as int].network,
        c.selected >= c.stratums.len() ==> c.network() == "mainnet"@ && c.target().pool.len() == 0,
        c.addrs.contains_key(c.network()) ==> c.addr() == c.addrs[c.network()],
        !c.addrs.contains_key(c.network()) ==> c.addr().len() == 0,
{
}

/// Law: a request for a new address is for the network that is named behind it,
/// and for mainnet where none is; either name of the option will do.
pub proof fn law_new_addresses_are_asked_for(s: StartupV, args: Seq<ArgV>, i: int)
    requires
        0 <= i < args.len(),
        args[i].text == "--genaddr"@ || args[i].text == "--newaddr"@,
    ensures
        i + 1 == args.len() ==> read_from(s, args, i) == (StartupV { genaddr: Some("mainnet"@), ..s }),
        i + 1 < args.len() && begins_with(args[i + 1].text, "--"@) ==> read_from(s, args, i) == read_from(
            StartupV { genaddr: Some("mainnet"@), ..s },
            args,
            i + 1,
        ),
        i + 1 < args.len() && !begins_with(args[i + 1].text, "--"@) ==> read_from(s, args, i) == read_from(
            StartupV { genaddr: Some(network_name(args[i + 1].text)), ..s },
            args,
            i + 2,
        ),
{
    lemma_option_names();
    reveal_strlit("--genaddr");
    reveal_strlit("--newaddr");
    reveal_strlit("--network");
    reveal_strlit("--webhook");
    assert("--genaddr"@.len() == 9 && "--genaddr"@[2] == 'g' && "--newaddr"@.len() == 9);
    assert("--newaddr"@[2] == 'n' && "--newaddr"@[4] == 'w' && "--network"@[4] == 't' && "--webhook"@[2] == 'w');
}

/// Law: the program's own name means nothing, and without arguments the saved
/// settings stand and nothing else is asked for.
pub proof fn law_own_name_is_not_read(c: ConfigV, args: Seq<ArgV>, name: ArgV)
    ensures
        args.len() <= 1 ==> started_with(c, args) == (StartupV {
            cfg: c,
            headless: false,
            genaddr: None,
            version: false,
        }),
        args.len() > 0 ==> started_with(c, args.update(0, name)) == started_with(c, args),
        args.len() > 1 && args[1].text == "--cpu"@ ==> started_with(c, args) == started_with(
            ConfigV { cpu: true, ..c },
            args.remove(1),
        ),
{
    if args.len() > 0 {
        lemma_name_is_not_read(StartupV { cfg: c, headless: false, genaddr: None, version: false }, args, name, 1);
    }
    if args.len() > 1 && args[1].text == "--cpu"@ {
        let s = StartupV { cfg: c, headless: false, genaddr: None, version: false };
        law_arguments_are_read_in_order(s, args, 1);
        lemma_read_after_removal(StartupV { cfg: ConfigV { cpu: true, ..c }, ..s }, args, 2);
    }
}

proof fn lemma_name_is_not_read(s: StartupV, args: Seq<ArgV>, name: ArgV, i: int)
    requires
        args.len() > 0,
        i >= 1,
    ensures
        read_from(s, args.update(0, name), i) == read_from(s, args, i),
    decreases args.len() - i,
{
    let u = args.update(0, name);
    if i < args.len() {
        let n = args[i].text;
        assert(u[i] == args[i]);
        if takes_value(n) {
            if i + 1 < args.len() {
                assert(u[i + 1] == args[i + 1]);
                lemma_name_is_not_read(StartupV { cfg: valued(s.cfg, n, args[i + 1]), ..s }, args, name, i + 2);
            }
        } else if n == "--genaddr"@ || n == "--newaddr"@ {
            if i + 1 < args.len() && !begins_with(args[i + 1].text, "--"@) {
                assert(u[i + 1] == args[i + 1]);
                lemma_name_is_not_read(
                    StartupV { genaddr: Some(network_name(args[i + 1].text)), ..s },
                    args,
                    name,
                    i + 2,
                );
            } else {
                lemma_name_is_not_read(StartupV { genaddr: Some("mainnet"@), ..s }, args, name, i + 1);
            }
        } else if !(n == "--version"@ || n == "-V"@) {
            lemma_name_is_not_read(flagged(s, n), args, name, i + 1);
        }
    }
}

proof fn lemma_read_after_removal(s: StartupV, args: Seq<ArgV>, i: int)
    requires
        args.len() > 1,
        i >= 2,
    ensures
        read_from(s, args.remove(1), i - 1) == read_from(s, args, i),
    decreases args.len() - i,
{
    let u = args.remove(1);
    if i < args.len() {
        let n = args[i].text;
        assert(u[i - 1] == args[i]);
        if takes_value(n) {
            if i + 1 < args.len() {
                assert(u[i] == args[i + 1]);
                lemma_read_after_removal(StartupV { cfg: valued(s.cfg, n, args[i + 1]), ..s }, args, i + 2);
            }
        } else if n == "--genaddr"@ || n == "--newaddr"@ {
            if i + 1 < args.len() && !begins_with(args[i + 1].text, "--"@) {
                assert(u[i] == args[i + 1]);
                lemma_read_after_removal(
                    StartupV { genaddr: Some(network_name(args[i + 1].text)), ..s },
                    args,
                    i + 2,
                );
            } else {
                if i + 1 < args.len() {
                    assert(u[i] == args[i + 1]);
                }
                lemma_read_after_removal(StartupV { genaddr: Some("mainnet"@), ..s }, args, i + 1);
            }
        } else if !(n == "--version"@ || n == "-V"@) {
            lemma_read_after_removal(flagged(s, n), args, i + 1);
        }
    }
}

} // verus!
