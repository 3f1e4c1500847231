use pyblock_miner::chirp::{read_info, read_members, ChirpInfo, Shown};
use pyblock_miner::config::{balance_query, net_stats_url, PoolMode};
use pyblock_miner::controls::{App, Effect, Input, Key, Outcome, Tab};
use pyblock_miner::dashboard::{Dashboard, Follower};
use pyblock_miner::double::Double;
use pyblock_miner::feeds::{read_carousel, CarouselInfo, NetStats};
use pyblock_miner::keys::{address_of, gen_address, net_chain, Chain};
use pyblock_miner::pools::{default_stratums, find_network, find_url, reconcile_defaults, Stratum};
use pyblock_miner::settings::{clamp_selected, devices, read_args, Arg, Config, Startup};
use pyblock_miner::stats::Stats;
use pyblock_miner::system::{
    after_write, config_base, grinder_file, kernel_dir, key_entry, log_entry, log_is_full, output_lines, poll_due,
    report_key, version_line, NextWrite, Written,
};

const ADDR: &str = "bc1qw508d6qejxtdg4y5r3zarvary0c5xw7kv8f3t4";

fn d(x: f64) -> Double {
    Double { bits: x.to_bits() }
}

fn args(v: &[&str]) -> Vec<Arg> {
    let mut r = vec![Arg { text: "pyblockMiner".to_string(), number: None }];
    for s in v {
        r.push(Arg { text: s.to_string(), number: s.parse::<f64>().ok().map(d) });
    }
    r
}

fn started(v: &[&str]) -> Startup {
    read_args(Config::new(), &args(v))
}

fn custom(name: &str, url: &str) -> Stratum {
    Stratum { name: name.to_string(), url: url.to_string(), network: "mainnet".to_string(), custom: true }
}

// ---- pools

#[test]
fn defaults_reach_saved_settings() {
    let mut v = vec![
        Stratum {
            name: "PyBLØCK · mainnet".to_string(),
            url: "pool.pyblock.xyz:4445".to_string(),
            network: "mainnet".to_string(),
            custom: false,
        },
        custom("mine", "10.0.0.5:3333"),
    ];
    assert!(reconcile_defaults(&mut v));
    assert_eq!(v.len(), 6);
    assert_eq!(v[0].name, "PyBLØCK · LOTTO");
    assert_eq!(v[1].name, "mine");
    assert_eq!(v[2].url, "pool.pyblock.xyz:5574");
    assert_eq!(v[5].network, "regtest");
    assert!(!reconcile_defaults(&mut v));
    assert_eq!(v.len(), 6);
}

#[test]
fn added_pools_are_not_renamed() {
    let mut v = vec![custom("relay", "pool.pyblock.xyz:4445")];
    assert!(reconcile_defaults(&mut v));
    assert_eq!(v[0].name, "relay");
    assert_eq!(v.len(), 6);
    assert_eq!(v[1].name, "PyBLØCK · LOTTO");
}

#[test]
fn pools_are_found() {
    let v = default_stratums();
    assert_eq!(find_url(&v, "pool.pyblock.xyz:30110"), 2);
    assert_eq!(find_url(&v, "nowhere:1"), 5);
    assert_eq!(find_network(&v, "testnet4"), 3);
    assert_eq!(find_network(&v, "signet"), 5);
    assert_eq!(v[4].copy().name, "PyBLØCK · regtest");
}

// ---- settings and the command line

#[test]
fn fresh_settings() {
    let c = Config::new();
    assert_eq!(c.stratums.len(), 5);
    assert_eq!(c.donate, d(2.0));
    assert!(c.log_file && c.alerts.bell && c.alerts.desktop);
    assert_eq!(c.api_port, 0);
    assert_eq!(c.network(), "mainnet");
    assert_eq!(c.addr(), "");
    let t = c.target();
    assert_eq!(t.pool, "pool.pyblock.xyz:4445");
    assert_eq!(t.donate, d(2.0));
}

#[test]
fn donation_has_a_floor_on_mainnet_only() {
    let mut c = Config::new();
    c.donate = d(0.5);
    assert_eq!(c.donation("mainnet"), d(2.0));
    c.donate = d(7.5);
    assert_eq!(c.donation("mainnet"), d(7.5));
    assert_eq!(c.donation("testnet4"), d(0.0));
    assert_eq!(c.donation("regtest"), d(0.0));
    c.donate = Double { bits: f64::NAN.to_bits() };
    assert_eq!(c.donation("mainnet"), d(2.0));
}

#[test]
fn settings_stand_without_options() {
    let mut c = Config::new();
    c.selected = 2;
    c.worker = "rig".to_string();
    let s = read_args(c, &args(&[]));
    assert_eq!((s.cfg.selected, s.cfg.worker.as_str(), s.headless), (2, "rig", false));
    assert_eq!(read_args(Config::new(), &vec![]).cfg.stratums.len(), 5);
}

#[test]
fn options_with_values() {
    let s = started(&[
        "--addr", ADDR, "--gpus", "2", "--worker", "rig #1!", "--api-port", "8080", "--telegram", "1:a , 42", "--webhook",
        "http://x/", "--donate", "3.5",
    ]);
    assert_eq!(s.cfg.addr(), ADDR);
    assert_eq!(s.cfg.gpus, Some(2));
    assert_eq!(s.cfg.worker, "rig1");
    assert_eq!(s.cfg.api_port, 8080);
    assert_eq!(s.cfg.alerts.telegram_token, "1:a");
    assert_eq!(s.cfg.alerts.telegram_chat, "42");
    assert_eq!(s.cfg.alerts.webhook_url, "http://x/");
    assert_eq!(s.cfg.donate, d(3.5));
    assert!(!s.headless && !s.version && s.genaddr.is_none());
}

#[test]
fn options_that_cannot_be_read() {
    let s = started(&["--gpus", "x", "--api-port", "70000", "--donate", "lots", "--telegram", "1:a"]);
    assert_eq!(s.cfg.gpus, None);
    assert_eq!(s.cfg.api_port, 0);
    assert_eq!(s.cfg.donate, d(2.0));
    assert_eq!(s.cfg.alerts.telegram_chat, "");
    let s = started(&["--unknown", "--cpu", "--addr"]);
    assert!(s.cfg.cpu);
    assert_eq!(s.cfg.addr(), "");
}

#[test]
fn plain_options() {
    let s = started(&["--cpu", "--no-log-file", "--no-bell", "--no-desktop", "--daemon"]);
    assert!(s.cfg.cpu && !s.cfg.log_file && !s.cfg.alerts.bell && !s.cfg.alerts.desktop && s.headless);
    for f in ["--headless", "--no-tui"] {
        assert!(started(&[f]).headless);
    }
    let s = started(&["-V", "--cpu"]);
    assert!(s.version && !s.cfg.cpu);
    assert!(started(&["--version"]).version);
}

#[test]
fn pools_and_networks_on_the_command_line() {
    let s = started(&["--network", "testnet", "--addr", "tb1qx"]);
    assert_eq!(s.cfg.selected, 3);
    assert_eq!(s.cfg.addr(), "tb1qx");
    assert_eq!(started(&["--chain", "reg"]).cfg.selected, 4);
    assert_eq!(started(&["--net", "anything"]).cfg.selected, 0);
    let s = started(&["--pool", "pool.pyblock.xyz:5574"]);
    assert_eq!(s.cfg.selected, 1);
    assert_eq!(s.cfg.stratums.len(), 5);
    let s = started(&["--network", "t4", "--pool", "h:1"]);
    assert_eq!(s.cfg.selected, 5);
    assert_eq!(s.cfg.stratums[5].name, "--pool h:1");
    assert_eq!(s.cfg.stratums[5].network, "testnet4");
    assert!(s.cfg.stratums[5].custom);
    assert_eq!(s.cfg.target().pool, "h:1");
    let s = read_args(s.cfg, &args(&["--pool", "h:1"]));
    assert_eq!((s.cfg.selected, s.cfg.stratums.len()), (5, 6));
}

#[test]
fn addresses_on_the_command_line() {
    assert_eq!(started(&["--genaddr"]).genaddr.as_deref(), Some("mainnet"));
    assert_eq!(started(&["--newaddr", "t4"]).genaddr.as_deref(), Some("testnet4"));
    let s = started(&["--genaddr", "--cpu"]);
    assert_eq!(s.genaddr.as_deref(), Some("mainnet"));
    assert!(s.cfg.cpu);
}

#[test]
fn selection_is_brought_back() {
    let mut c = Config::new();
    c.selected = 4;
    clamp_selected(&mut c);
    assert_eq!(c.selected, 4);
    c.selected = 5;
    assert_eq!(c.network(), "mainnet");
    assert_eq!(c.target().pool, "");
    clamp_selected(&mut c);
    assert_eq!(c.selected, 0);
}

#[test]
fn devices_are_counted() {
    assert_eq!(devices(None, false, 0), (1, false));
    assert_eq!(devices(None, false, 3), (3, false));
    assert_eq!(devices(Some(2), false, 3), (2, false));
    assert_eq!(devices(Some(0), false, 3), (0, true));
    assert_eq!(devices(Some(1), true, 0), (1, true));
}

#[test]
fn service_addresses() {
    assert_eq!(net_stats_url("testnet4"), Some("https://pool.pyblock.xyz:8443/api/blake_stats_t4.php"));
    assert_eq!(net_stats_url("regtest"), Some("https://pool.pyblock.xyz:8443/api/blake_stats.php"));
    assert_eq!(balance_query("mainnet", ""), None);
    assert_eq!(
        balance_query("testnet4", "tb1q").as_deref(),
        Some("https://pool.pyblock.xyz:8443/api/blake_balance_t4.php?addr=tb1q")
    );
    assert_eq!(
        balance_query("regtest", "m1").as_deref(),
        Some("https://pool.pyblock.xyz:8443/api/blake_balance.php?addr=m1")
    );
}

// ---- keys

const PUBLIC: [u8; 33] = [
    0x02, 0x79, 0xbe, 0x66, 0x7e, 0xf9, 0xdc, 0xbb, 0xac, 0x55, 0xa0, 0x62, 0x95, 0xce, 0x87, 0x0b, 0x07, 0x02, 0x9b, 0xfc,
    0xdb, 0x2d, 0xce, 0x28, 0xd9, 0x59, 0xf2, 0x81, 0x5b, 0x16, 0xf8, 0x17, 0x98,
];

#[test]
fn addresses_of_a_known_key() {
    let mut secret = [0u8; 32];
    secret[31] = 1;
    let (a, w) = address_of(&secret, &PUBLIC, "mainnet").unwrap();
    assert_eq!(a, ADDR);
    assert_eq!(w, "KwDiBf89QgGbjEhKnhXJuH7LrciVrZi3qYjgd9M7rFU73sVHnoWn");
    let (a, w) = address_of(&secret, &PUBLIC, "testnet4").unwrap();
    assert_eq!(a, "tb1qw508d6qejxtdg4y5r3zarvary0c5xw7kxpjzsx");
    assert_eq!(w, "cMahea7zqjxrtgAbB7LSGbcQUr1uX1ojuat9jZodMN87JcbXMTcA");
    let (a, _) = address_of(&secret, &PUBLIC, "regtest").unwrap();
    assert_eq!(a, "bcrt1qw508d6qejxtdg4y5r3zarvary0c5xw7kygt080");
}

#[test]
fn bytes_that_are_no_key() {
    assert!(address_of(&[0u8; 32], &PUBLIC, "mainnet").is_none());
    let mut secret = [0u8; 32];
    secret[31] = 1;
    assert!(address_of(&secret, &[0u8; 33], "mainnet").is_none());
}

#[test]
fn generated_addresses_fit_their_network() {
    assert_eq!(net_chain("regtest"), Chain::Regtest);
    for (net, head) in [("mainnet", "bc1q"), ("testnet4", "tb1q"), ("regtest", "bcrt1q")] {
        let (a, w) = gen_address(net).unwrap();
        assert!(a.starts_with(head));
        assert_eq!(w.len(), 52);
        assert_ne!(gen_address(net).unwrap().0, a);
    }
}

// ---- keys on the keyboard

fn app() -> App {
    App::start(Config::new())
}

fn press(a: &mut App, st: &mut Stats, keys: &str) -> Outcome {
    let mut o = a.handle_key(Key::Other, st, 0);
    for c in keys.chars() {
        let k = match c {
            '\n' => Key::Enter,
            '\t' => Key::Tab,
            '\u{8}' => Key::Backspace,
            '\u{1b}' => Key::Esc,
            '^' => Key::Up,
            'v' if a.input.is_none() => Key::Down,
            c => Key::Char(c),
        };
        o = a.handle_key(k, st, 25);
    }
    o
}

#[test]
fn tabs_are_reached() {
    let (mut a, mut st) = (app(), Stats::new());
    press(&mut a, &mut st, "3");
    assert_eq!(a.tab, Tab::Stratums);
    press(&mut a, &mut st, "7\t");
    assert_eq!(a.tab, Tab::Mine);
    assert!(press(&mut a, &mut st, "q").quit);
    assert!(press(&mut a, &mut st, "\u{1b}").quit);
    assert!(!press(&mut a, &mut st, "8").quit);
}

#[test]
fn pause_works_on_every_tab() {
    let (mut a, mut st) = (app(), Stats::new());
    for t in ["1", "2", "3", "4", "5", "6", "7"] {
        press(&mut a, &mut st, t);
        press(&mut a, &mut st, "p");
        assert!(a.paused);
        assert_eq!(a.msg, "⏸ mining paused — press p to resume");
        press(&mut a, &mut st, "p");
        assert!(!a.paused);
        assert_eq!(a.msg, "▶ mining resumed");
    }
}

#[test]
fn pools_are_added_switched_and_deleted() {
    let (mut a, mut st) = (app(), Stats::new());
    press(&mut a, &mut st, "3a");
    assert_eq!(a.input, Some(Input::AddStratum));
    let o = press(&mut a, &mut st, "home , 10.0.0.5:3333 , reg\n");
    assert!(o.save && !o.apply && !o.quit);
    assert_eq!(a.msg, "stratum added");
    assert_eq!(a.cfg.stratums[5].name, "home");
    assert_eq!(a.cfg.stratums[5].url, "10.0.0.5:3333");
    assert_eq!(a.cfg.stratums[5].network, "regtest");
    let o = press(&mut a, &mut st, "vvvvvvv\n");
    assert!(o.save && o.apply);
    assert_eq!((a.strat_cur, a.cfg.selected), (5, 5));
    assert_eq!(a.msg, "switched to home · payout rules are the pool operator's — check their site");
    let o = press(&mut a, &mut st, "d");
    assert!(o.save);
    assert_eq!(a.msg, "deleted");
    assert_eq!((a.cfg.stratums.len(), a.strat_cur, a.cfg.selected), (5, 4, 0));
    let o = press(&mut a, &mut st, "d");
    assert!(!o.save);
    assert_eq!(a.msg, "can't delete a default stratum");
    press(&mut a, &mut st, "^^^^^^^");
    assert_eq!(a.strat_cur, 0);
}

#[test]
fn odd_pools_are_refused() {
    let (mut a, mut st) = (app(), Stats::new());
    for text in ["home,10.0.0.5", "home,10.0.0.5,mainnet", ""] {
        let o = press(&mut a, &mut st, &format!("3a{}\n", text));
        assert_eq!(a.msg, "format: name,host:port,network");
        assert!(!o.save);
        assert_eq!(a.cfg.stratums.len(), 5);
        assert!(a.input.is_none());
    }
}

#[test]
fn typing_can_be_undone() {
    let (mut a, mut st) = (app(), Stats::new());
    press(&mut a, &mut st, "3aqp7");
    assert_eq!(a.buf, "qp7");
    assert!(!a.paused);
    press(&mut a, &mut st, "\u{8}");
    assert_eq!(a.buf, "qp");
    let o = press(&mut a, &mut st, "\u{1b}");
    assert!(!o.quit && a.input.is_none() && a.buf.is_empty());
    press(&mut a, &mut st, &format!("a{}", "x".repeat(130)));
    assert_eq!(a.buf.len(), 120);
}

#[test]
fn addresses_are_checked() {
    let (mut a, mut st) = (app(), Stats::new());
    let o = press(&mut a, &mut st, "6etb1qwrong\n");
    assert_eq!(a.msg, "not a valid mainnet address");
    assert!(!o.save && !o.apply);
    assert_eq!(a.cfg.addr(), "");
    let o = press(&mut a, &mut st, &format!("e  {} \n", ADDR));
    assert!(o.save && o.apply);
    assert_eq!(a.msg, "address saved");
    assert_eq!(a.cfg.addr(), ADDR);
    let mut shown = Dashboard::new();
    let x = a.apply_target(&mut st, &mut shown).unwrap();
    assert_eq!(x.target.addr, ADDR);
    assert_eq!(x.mode, PoolMode::Lotto);
    assert_eq!(st.addr, ADDR);
    assert_eq!((shown.endpoint.as_str(), shown.network.as_str()), ("pool.pyblock.xyz:4445", "mainnet"));
    a.cfg.selected = 99;
    a.cfg.worker = "rig".to_string();
    assert!(a.apply_target(&mut st, &mut shown).is_none());
    assert_eq!((shown.endpoint.as_str(), shown.worker.as_str()), ("pool.pyblock.xyz:4445", ""));
}

fn network(latest: &str) -> NetStats {
    NetStats {
        miners: 3,
        ghs: d(8.5),
        height: 9,
        blake2b_active: Some(true),
        activation_height: 7,
        blocks_until: 1,
        latest: latest.to_string(),
    }
}

fn rotation() -> CarouselInfo {
    read_carousel(&Some(b"{\"current\":\"x\",\"miners\":2}".to_vec()), 5).unwrap()
}

fn syndicate(list: &str) -> ChirpInfo {
    let members = read_members(&Some(list.as_bytes().to_vec())).unwrap();
    read_info(members, &None, &None, 100)
}

const NUMBERS: Shown = Shown { pct: "1.00", days: "8.0", min_days: "7" };

#[test]
fn switching_drops_what_the_old_pool_said() {
    let (mut a, mut st, mut shown) = (app(), Stats::new(), Dashboard::new());
    a.take_address("mainnet", ADDR);
    a.cfg.worker = "rig".to_string();
    let mut target = a.cfg.target();
    let mut f = Follower::start(0);
    for k in [Key::Char('3'), Key::Down, Key::Enter] {
        a.press(k, &mut st, &mut shown, &mut target);
    }
    assert_eq!(shown.mode, PoolMode::Chirp);
    assert_eq!(target.pool, "pool.pyblock.xyz:5574");
    shown.take_members(syndicate("[{\"address\":\"a\"}]"), &mut f, &mut st, NUMBERS, 100);
    shown.take_network(Some(network("")));
    shown.take_balance(Some(d(1.5)));
    assert_eq!((shown.members(), shown.net_ok, shown.balance), (1, true, Some(d(1.5))));
    a.press(Key::Down, &mut st, &mut shown, &mut target);
    assert_eq!((shown.members(), target.pool.as_str()), (1, "pool.pyblock.xyz:5574"));
    let o = a.press(Key::Enter, &mut st, &mut shown, &mut target);
    assert!(o.save && o.apply);
    assert_eq!(target.pool, "pool.pyblock.xyz:30110");
    assert_eq!((shown.endpoint.as_str(), shown.network.as_str()), ("pool.pyblock.xyz:30110", "mainnet"));
    assert_eq!((shown.worker.as_str(), st.addr.as_str()), ("rig", ADDR));
    assert_eq!((shown.mode, shown.donate), (PoolMode::Carousel, a.cfg.target().donate));
    assert!(shown.chirp.is_none() && shown.carousel.is_none() && shown.balance.is_none() && !shown.net_ok);
}

#[test]
fn late_data_is_not_shown() {
    let (mut shown, mut st, mut f) = (Dashboard::new(), Stats::new(), Follower::start(0));
    shown.take_members(syndicate("[]"), &mut f, &mut st, NUMBERS, 100);
    shown.take_rotation(rotation());
    assert!(shown.chirp.is_none() && shown.carousel.is_none() && f.standing.is_none());
    shown.mode = PoolMode::Carousel;
    shown.take_rotation(rotation());
    assert_eq!(shown.carousel.unwrap().current, "x");
}

#[test]
fn network_numbers_are_taken_over() {
    let mut shown = Dashboard::new();
    shown.take_network(Some(network("99.0.0")));
    assert!(shown.net_ok && shown.update_available);
    assert_eq!((shown.net_miners, shown.net_ghs, shown.net_height), (3, d(8.5), 9));
    assert_eq!((shown.active, shown.activation_height, shown.blocks_until), (Some(true), 7, 1));
    shown.take_network(Some(network("")));
    assert!(shown.update_available);
    assert_eq!(shown.latest_version, "99.0.0");
    shown.take_network(Some(network("0.0.1")));
    assert!(!shown.update_available);
    shown.take_network(None);
    assert!(!shown.net_ok);
    assert_eq!(shown.net_height, 9);
}

#[test]
fn standing_is_forgotten_with_the_mode() {
    let (mut shown, mut st, mut f) = (Dashboard::new(), Stats::new(), Follower::start(0));
    let (out, inside) = ("[]", "[{\"address\":\"me\",\"eligible\":true,\"last_seen\":100}]");
    st.addr = "me".to_string();
    shown.mode = PoolMode::Chirp;
    assert!(f.due(PoolMode::Chirp, 1));
    assert!(!f.due(PoolMode::Chirp, 15_000_000_000));
    shown.take_members(syndicate(out), &mut f, &mut st, NUMBERS, 100);
    assert!(st.outbox.is_empty());
    assert!(f.due(PoolMode::Chirp, 15_000_000_001));
    shown.take_members(syndicate(inside), &mut f, &mut st, NUMBERS, 100);
    assert_eq!(st.outbox.len(), 1);
    assert!(f.due(PoolMode::Lotto, 15_000_000_002));
    assert!(f.due(PoolMode::Chirp, 15_000_000_003));
    assert!(f.standing.is_none());
    shown.take_members(syndicate(out), &mut f, &mut st, NUMBERS, 100);
    assert_eq!(st.outbox.len(), 1);
}

#[test]
fn workers_are_named() {
    let (mut a, mut st) = (app(), Stats::new());
    press(&mut a, &mut st, &format!("6e{}\n", ADDR));
    let o = press(&mut a, &mut st, "wgarage 1\n");
    assert!(o.save && o.apply);
    assert_eq!(a.cfg.worker, "garage1");
    assert_eq!(a.msg, format!("worker saved — mining as {}.garage1", ADDR));
    press(&mut a, &mut st, "w");
    assert_eq!(a.buf, "garage1");
    press(&mut a, &mut st, "\u{8}\u{8}\u{8}\u{8}\u{8}\u{8}\u{8}\n");
    assert_eq!(a.cfg.worker, "");
    assert_eq!(a.msg, "worker cleared — mining as your bare address");
}

#[test]
fn telegram_is_set() {
    let (mut a, mut st) = (app(), Stats::new());
    press(&mut a, &mut st, "6tnonsense\n");
    assert_eq!(a.msg, "format: <bot_token>,<chat_id>   (empty to disable)");
    assert!(st.outbox.is_empty());
    let o = press(&mut a, &mut st, "t 1:ab , 77 \n");
    assert!(o.save && o.apply);
    assert_eq!(a.cfg.alerts.telegram_token, "1:ab");
    assert_eq!(a.cfg.alerts.telegram_chat, "77");
    assert_eq!(a.msg, "telegram alerts on — a test message is on its way");
    assert_eq!(st.outbox[0].title, "alerts armed");
    press(&mut a, &mut st, "t  \n");
    assert_eq!(a.cfg.alerts.telegram_token, "");
    assert_eq!(a.msg, "telegram alerts off");
}

#[test]
fn setup_keys() {
    let (mut a, mut st) = (app(), Stats::new());
    press(&mut a, &mut st, "6");
    assert_eq!(press(&mut a, &mut st, "g").effect, Effect::Generate);
    assert_eq!(press(&mut a, &mut st, "+").effect, Effect::Raise);
    assert_eq!(press(&mut a, &mut st, "-").effect, Effect::Lower);
    press(&mut a, &mut st, "b");
    assert_eq!(a.msg, "bell off");
    press(&mut a, &mut st, "n");
    assert_eq!(a.msg, "desktop notifications off");
    press(&mut a, &mut st, "c");
    assert!(a.cfg.cpu);
    press(&mut a, &mut st, "x");
    assert_eq!(st.outbox[0].title, "test alert");
    assert_eq!(a.msg, "test alert sent — check bell / desktop / telegram");
    a.take_address("mainnet", ADDR);
    a.generated(ADDR, "wif", Some("/k/keys.txt"));
    assert_eq!(a.msg, format!("generated {} · WIF saved to /k/keys.txt — BACK IT UP", ADDR));
    a.generated(ADDR, "wif", None);
    assert_eq!(a.msg, format!("generated {} · WIF wif — SAVE THIS (could not write keys.txt!)", ADDR));
}

#[test]
fn members_are_scrolled() {
    let (mut a, mut st) = (app(), Stats::new());
    let mut go = |k: Key, n: usize| {
        a.handle_key(k, &mut st, n);
        a.list_scroll
    };
    assert_eq!(go(Key::Up, 25), 0);
    assert_eq!(go(Key::Down, 25), 1);
    assert_eq!(go(Key::PageDown, 25), 11);
    assert_eq!(go(Key::PageDown, 25), 21);
    assert_eq!(go(Key::PageDown, 25), 24);
    assert_eq!(go(Key::Down, 25), 24);
    assert_eq!(go(Key::PageUp, 25), 14);
    assert_eq!(go(Key::Home, 25), 0);
    assert_eq!(go(Key::End, 25), 24);
    assert_eq!(go(Key::End, 0), 0);
    assert_eq!(go(Key::PageDown, 0), 0);
}

#[test]
fn learn_pages_are_turned() {
    let (mut a, mut st) = (app(), Stats::new());
    press(&mut a, &mut st, "4");
    for want in [1, 2, 3, 3] {
        a.handle_key(Key::Right, &mut st, 0);
        assert_eq!(a.learn_page, want);
    }
    for want in [2, 1, 0, 0] {
        a.handle_key(Key::Left, &mut st, 0);
        assert_eq!(a.learn_page, want);
    }
}

// ---- files, processes and sockets

#[test]
fn settings_have_a_place() {
    assert_eq!(config_base(Some("/x"), Some("/a"), Some("/h"), None), "/x");
    assert_eq!(config_base(None, Some("/a"), Some("/h"), None), "/a");
    assert_eq!(config_base(None, None, Some("/h"), Some("/p")), "/h/.config");
    assert_eq!(config_base(None, None, None, Some("/p")), "/p/.config");
    assert_eq!(config_base(None, None, None, None), ".");
}

#[test]
fn grinders_have_a_place() {
    let c = |s: &str, b: bool| (s.to_string(), b);
    assert_eq!(kernel_dir(&vec![c("a", false), c("b", true), c("c", true)]), "b");
    assert_eq!(kernel_dir(&vec![c("a", false)]), ".");
    assert_eq!(grinder_file(true, ""), "metal_grind");
    assert_eq!(grinder_file(false, ".exe"), "gpu_grind.exe");
    assert_eq!(output_lines(" GeForce \r\n\n  Radeon"), vec!["GeForce".to_string(), "Radeon".to_string()]);
    assert!(output_lines(" \n").is_empty());
}

#[test]
fn lines_of_files() {
    assert!(!log_is_full(5_000_000));
    assert!(log_is_full(5_000_001));
    assert_eq!(log_entry(1_700_000_000, "x"), "2023-11-14 22:13:20  x");
    assert_eq!(key_entry("regtest", "a", "w"), "regtest\ta\tw\n");
    assert_eq!(version_line(), "pyblockMiner 0.2.20");
    let r = report_key("testnet4", "tb1q", "w", None);
    assert_eq!(r[0], "── PyBLØCK · BLAKE2b mining address · TESTNET4 ──");
    assert_eq!(r[3], "  ⚠ could not write keys.txt — SAVE THE WIF ABOVE");
    assert_eq!(r[4], "  mine    : pyblockMiner --network testnet4 --addr tb1q --pool <host:port>");
    assert_eq!(report_key("regtest", "a", "w", Some("/k"))[3], "  saved   : /k (0600) — BACK IT UP");
}

#[test]
fn writing_a_line() {
    assert_eq!(after_write(0, 10, Written::Bytes(4), 0), NextWrite::Write(4));
    assert_eq!(after_write(4, 10, Written::Bytes(6), 0), NextWrite::Stop);
    assert_eq!(after_write(4, 10, Written::Bytes(0), 0), NextWrite::Stop);
    assert_eq!(after_write(4, 10, Written::WouldBlock, 5_000_000_000), NextWrite::Pause(4));
    assert_eq!(after_write(4, 10, Written::WouldBlock, 5_000_000_001), NextWrite::Stop);
    assert_eq!(after_write(4, 10, Written::Interrupted, 9_000_000_000), NextWrite::Write(4));
    assert_eq!(after_write(4, 10, Written::Failed, 0), NextWrite::Stop);
}

#[test]
fn polling_follows_the_mode() {
    assert!(poll_due(None, PoolMode::Chirp, 0, 0));
    assert!(poll_due(Some(PoolMode::Lotto), PoolMode::Chirp, 0, 0));
    assert!(!poll_due(Some(PoolMode::Chirp), PoolMode::Chirp, 0, 14_999_999_999));
    assert!(poll_due(Some(PoolMode::Chirp), PoolMode::Chirp, 0, 15_000_000_000));
}
