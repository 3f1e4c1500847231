use pyblock_miner::api::{stats_json, workers_now, Snapshot, WorkerNow};
use pyblock_miner::chirp::{
    arrange, changed, read_info, read_members, tell, Change, ChirpInfo, ChirpMember, Shown, Standing, Status,
};
use pyblock_miner::config::PoolMode;
use pyblock_miner::controls::{App, Input, Tab};
use pyblock_miner::double::Double;
use pyblock_miner::feeds::{read_balance, read_carousel, read_net_stats, update_of, CarouselInfo};
use pyblock_miner::grinder::SECOND;
use pyblock_miner::guide::{help_lines, info_page, setup_lines};
use pyblock_miner::json::Json;
use pyblock_miner::mine::{
    gpu_rows, header, header_rows, panel_height, show_log, show_net_tiles, show_workers, show_your_tiles, stalled,
    ChirpTexts, HeaderIn, NetTexts,
};
use pyblock_miner::pages::{
    data_lines, footer, network_lines, show_data_tiles, show_shares, stratum_help, stratum_list, tab_bar, version_corner,
    ChirpData, DataTexts,
};
use pyblock_miner::paint::{Ink, Row};
use pyblock_miner::panels::{
    carousel_panel, chirp_panel, custom_panel, lotto_panel, mode_panel_rows, window, HeadTexts, MemberTexts, Odds,
};
use pyblock_miner::reports::{
    api_started, banner, desktop_title, headless_banner, http_answer, macos_script, metrics_text, route, status_line,
    telegram_post, unquote, webhook_post, Metrics, Route,
};
use pyblock_miner::settings::{AlertCfg, Config};
use pyblock_miner::stats::{Alert, Stats};

fn d(x: f64) -> Double {
    Double { bits: x.to_bits() }
}

fn s(x: &str) -> String {
    x.to_string()
}

fn text(r: &Row) -> String {
    r.pieces.iter().map(|p| p.text.clone()).collect()
}

fn bytes(x: &str) -> Option<Vec<u8>> {
    Some(x.as_bytes().to_vec())
}

fn member(addr: &str, days: f64, weight: f64, eligible: bool, seen: u64) -> ChirpMember {
    ChirpMember { addr: s(addr), days: d(days), power: d(5.0), weight: d(weight), eligible, last_seen: seen }
}

fn info(members: Vec<ChirpMember>) -> ChirpInfo {
    read_info(members, &None, &None, 100_000)
}

// ---- feeds

#[test]
fn members_are_read_in_order() {
    let list = r#"[
        {"address":"c\u001b[1m","days":3,"weight":99,"eligible":false},
        {"address":"a","days":8.5,"power":10,"weight":1,"eligible":true,"last_seen":7},
        {"address":"b","days":9,"weight":2.5,"eligible":true},
        {"address":"e","days":12,"weight":1,"eligible":true},
        {"days":"x"}
    ]"#;
    let m = read_members(&bytes(list)).unwrap();
    let names: Vec<&str> = m.iter().map(|x| x.addr.as_str()).collect();
    assert_eq!(names, vec!["b", "e", "a", "c1m", ""]);
    assert_eq!(m[2].days, d(8.5));
    assert_eq!(m[2].power, d(10.0));
    assert_eq!(m[2].last_seen, 7);
    assert_eq!(m[4].days, d(0.0));
    assert!(read_members(&None).is_none());
    assert!(read_members(&bytes("{}")).is_none());
    assert!(read_members(&bytes("[")).is_none());
}

#[test]
fn equal_members_stay_in_order() {
    let m = arrange(vec![
        member("x", 1.0, 2.0, false, 0),
        member("y", 1.0, 2.0, false, 0),
        member("z", 1.0, 2.0, true, 0),
    ]);
    let names: Vec<&str> = m.iter().map(|x| x.addr.as_str()).collect();
    assert_eq!(names, vec!["z", "x", "y"]);
}

#[test]
fn ineligible_members_stand_by_tenure() {
    let m = arrange(vec![
        member("new", 1.0, 2.0, false, 0),
        member("old", 5.0, 1.0, false, 0),
        member("light", 9.0, 1.0, true, 0),
        member("heavy", 8.0, 2.0, true, 0),
        member("strong", 5.0, 3.0, false, 0),
    ]);
    let names: Vec<&str> = m.iter().map(|x| x.addr.as_str()).collect();
    assert_eq!(names, vec!["heavy", "light", "strong", "old", "new"]);
}

#[test]
fn workers_without_numbers() {
    let w = workers_now(&vec![s("A"), s("B")], &vec![d(1.5)], &vec![true]);
    assert_eq!(w.len(), 2);
    assert_eq!((w[0].name.as_str(), w[0].ghs, w[0].offline), ("A", d(1.5), true));
    assert_eq!((w[1].name.as_str(), w[1].ghs, w[1].offline), ("B", d(0.0), false));
    assert!(workers_now(&vec![], &vec![d(1.0)], &vec![true]).is_empty());
}

#[test]
fn syndicate_is_read() {
    let pool = bytes(r#"{"candidates":3,"workers":4,"blocks":5,"hashrate":8.42,"min_power":2}"#);
    let coinbase = bytes(r#"{"reward_sats":312500000,"height":9}"#);
    let c = read_info(vec![member("a", 1.0, 1.0, true, 0)], &pool, &coinbase, 77);
    assert_eq!((c.candidates, c.workers, c.blocks), (3, 4, 5));
    assert_eq!(c.hashrate_ths, d(8.42));
    assert_eq!(c.min_days, d(7.0));
    assert_eq!(c.min_power, d(2.0));
    assert_eq!((c.reward_sats, c.height, c.fee_bps, c.fetched), (312500000, 9, 90, 77));
    let c = info(vec![member("a", 1.0, 1.0, true, 0), member("b", 1.0, 1.0, false, 0)]);
    assert_eq!(c.candidates, 1);
    assert_eq!(c.fee_bps, 0);
    assert_eq!(c.min_days, d(7.0));
}

#[test]
fn weights_count_in_the_draw() {
    let c = info(vec![member("a", 9.0, 75.0, true, 0), member("b", 9.0, 25.0, true, 0), member("c", 1.0, 9.0, false, 0)]);
    assert_eq!(c.eligible_weights(), vec![d(75.0), d(25.0)]);
    assert_eq!(c.my_weight("b"), Some(d(25.0)));
    assert_eq!(c.my_weight("c"), None);
    assert_eq!(c.my_weight(""), None);
    assert_eq!(c.me("c").unwrap().days, d(1.0));
}

fn stand(listed: bool, eligible: bool, stale: bool) -> Standing {
    Standing { listed, eligible, stale }
}

#[test]
fn changes_are_told() {
    let c = info(vec![member("a", 9.0, 1.0, true, 96_399), member("b", 1.0, 1.0, false, 96_400)]);
    assert_eq!(c.standing("a", 100_000), stand(true, true, true));
    assert_eq!(c.standing("b", 100_000), stand(true, false, false));
    assert_eq!(c.standing("z", 100_000), stand(false, false, false));
    let out = stand(false, false, false);
    assert_eq!(changed(None, stand(true, true, false)), None);
    assert_eq!(changed(Some(out), out), None);
    assert_eq!(changed(Some(out), stand(true, true, true)), Some(Change::InTheDraw));
    assert_eq!(changed(Some(out), stand(true, false, false)), Some(Change::OnTheList));
    assert_eq!(changed(Some(stand(true, true, false)), out), Some(Change::Dropped));
    assert_eq!(changed(Some(stand(true, true, false)), stand(true, false, false)), Some(Change::EligibilityLost));
    assert_eq!(changed(Some(stand(true, true, false)), stand(true, true, true)), Some(Change::FallingOut));
    assert_eq!(changed(Some(stand(true, true, true)), stand(true, true, false)), None);
    let mut st = Stats::new();
    let shown = || Shown { pct: "2.50", days: "3.0", min_days: "7" };
    for c in [Change::InTheDraw, Change::OnTheList, Change::Dropped, Change::EligibilityLost, Change::FallingOut] {
        tell(&mut st, Some(c), shown());
    }
    tell(&mut st, None, shown());
    let bodies: Vec<&str> = st.outbox.iter().map(|a| a.body.as_str()).collect();
    assert_eq!(
        bodies,
        vec![
            "your slice of every block: 2.50%",
            "3.0 of 7 days to the coinbase draw — keep mining",
            "the pool no longer lists your address — reconnect and mine to re-enter",
            "tenure 3.0 d · check your power / connection",
            "no shares from you for 1h+ — you drop off the list 24h after your last share",
        ]
    );
}

#[test]
fn members_have_a_status() {
    let now = 1_000_000;
    let st = |days: f64, eligible: bool, seen: u64| member("a", days, 1.0, eligible, seen).status(d(7.0), d(5.0), now);
    assert_eq!(st(6.9, false, now), Status::Waiting);
    assert_eq!(st(7.0, false, now), Status::Pending);
    assert_eq!(member("a", 8.0, 1.0, false, now).status(d(7.0), d(5.5), now), Status::Weak);
    assert_eq!(st(8.0, true, now - 3600), Status::Eligible);
    assert_eq!(st(8.0, true, now - 3601), Status::Offline(3601));
    assert_eq!(st(8.0, true, now - 72_001), Status::Dropping(4));
    assert_eq!(st(8.0, true, 0), Status::Dropping(0));
    assert_eq!(st(8.0, true, now + 5), Status::Eligible);
}

const WHEEL: &str = r#"{"suppliers":["Ec1ipse"," Ocean ",5],"recent":[["Ocean",1],"Ec1ipse",[],[7]],"current":"Ocean","miners":3,"hashrate":1.5e12,"live":true}"#;

#[test]
fn rotation_is_read() {
    let k = read_carousel(&bytes(WHEEL), 50).unwrap();
    assert_eq!(k.suppliers, vec![s("Ec1ipse"), s("Ocean")]);
    assert_eq!(k.recent, vec![s("Ocean"), s("Ec1ipse")]);
    assert_eq!(k.current, "Ocean");
    assert_eq!(k.hashrate, d(1.5e12));
    assert!(k.live);
    assert_eq!((k.miners, k.fetched), (3, 50));
    let k = read_carousel(&bytes("7"), 1).unwrap();
    assert!(k.suppliers.is_empty() && k.current.is_empty() && !k.live);
    assert!(read_carousel(&bytes("oops"), 1).is_none());
    assert!(read_carousel(&None, 1).is_none());
}

#[test]
fn rotation_names_are_cleaned() {
    let text = format!(r#"{{"suppliers":["a\u001b[2Jb\u0007","{}"],"current":"\u009bx"}}"#, "y".repeat(60));
    let k = read_carousel(&bytes(&text), 0).unwrap();
    assert_eq!(k.suppliers, vec![s("a[2Jb"), "y".repeat(40)]);
    assert_eq!(k.current, "x");
}

#[test]
fn network_is_read() {
    let n = read_net_stats(&bytes(
        r#"{"ok":true,"miners":12,"network_hashrate_ghs":3.5,"block_height":9,"blake2b_active":false,"activation_height":100,"blocks_until_activation":91,"miner_latest":"v0.3.0"}"#,
    ))
    .unwrap();
    assert_eq!((n.miners, n.height, n.activation_height, n.blocks_until), (12, 9, 100, 91));
    assert_eq!(n.ghs, d(3.5));
    assert_eq!(n.blake2b_active, Some(false));
    assert_eq!(update_of(&n.latest), Some(true));
    assert_eq!(update_of("0.2.20"), Some(false));
    assert_eq!(update_of(""), None);
    let n = read_net_stats(&bytes(r#"{"ok":true,"blake2b_active":null}"#)).unwrap();
    assert_eq!(n.blake2b_active, None);
    assert_eq!(n.latest, "");
    assert!(read_net_stats(&bytes(r#"{"ok":false,"miners":1}"#)).is_none());
    assert!(read_net_stats(&bytes("[]")).is_none());
}

#[test]
fn balance_is_read() {
    assert_eq!(read_balance(&bytes(r#"{"ok":true,"balance_btc":1.25}"#)), Some(d(1.25)));
    assert_eq!(read_balance(&bytes(r#"{"ok":true,"balance_btc":2}"#)), Some(d(2.0)));
    assert_eq!(read_balance(&bytes(r#"{"ok":true}"#)), None);
    assert_eq!(read_balance(&bytes(r#"{"ok":1,"balance_btc":1}"#)), None);
    assert_eq!(read_balance(&None), None);
}

// ---- reports

fn an_alert() -> Alert {
    Alert { title: s("T \"x\""), body: s("B\n\"y\"") }
}

#[test]
fn alerts_are_posted() {
    let mut c = AlertCfg::new();
    assert!(telegram_post(&c, &an_alert()).is_none());
    assert!(webhook_post(&c, &an_alert(), 5).is_none());
    c.telegram_token = s("1:ab");
    assert!(telegram_post(&c, &an_alert()).is_none());
    c.telegram_chat = s("77");
    let p = telegram_post(&c, &an_alert()).unwrap();
    assert_eq!(p.url, "https://api.telegram.org/bot1:ab/sendMessage");
    assert_eq!(p.payload, r#"{"chat_id":"77","text":"⛏ pyblockMiner · T \"x\"\nB\n\"y\""}"#);
    c.webhook_url = s("http://h/");
    let p = webhook_post(&c, &an_alert(), 5).unwrap();
    assert_eq!(p.url, "http://h/");
    assert_eq!(
        p.payload,
        r#"{"body":"B\n\"y\"","source":"pyblockMiner","title":"T \"x\"","ts":5,"version":"0.2.20"}"#
    );
}

#[test]
fn alerts_are_shown() {
    assert_eq!(unquote("a\"b\""), "a'b'");
    assert_eq!(desktop_title(&an_alert()), "⛏ T \"x\"");
    assert_eq!(
        macos_script(&an_alert()),
        "display notification \"B\n'y'\" with title \"pyblockMiner · T 'x'\""
    );
}

fn some_metrics() -> Metrics {
    Metrics {
        hashrate: s("1.5"),
        connected: true,
        paused: false,
        blocks: s("1"),
        accepted: s("2"),
        rejected: s("3"),
        best_diff: s("4"),
        difficulty: s("5"),
        net_hashrate: s("6"),
        net_miners: s("7"),
        uptime: s("8"),
        balance: None,
        chirp: None,
        workers: vec![(s("GPU \"A\""), s("1.5"))],
    }
}

#[test]
fn metrics_are_written() {
    let t = metrics_text(&some_metrics());
    assert!(t.starts_with(
        "# HELP pyblock_hashrate_ghs total hashrate in GH/s\n# TYPE pyblock_hashrate_ghs gauge\npyblock_hashrate_ghs 1.5\n"
    ));
    assert!(t.contains("\npyblock_connected 1\n"));
    assert!(t.contains("\npyblock_paused 0\n"));
    assert!(t.ends_with("# TYPE pyblock_worker_hashrate_ghs gauge\npyblock_worker_hashrate_ghs{worker=\"GPU 'A'\",index=\"0\"} 1.5\n"));
    assert!(!t.contains("balance") && !t.contains("chirp"));
    let mut m = some_metrics();
    m.balance = Some(s("0.25"));
    m.chirp = Some((s("9"), s("10"), s("11")));
    let t = metrics_text(&m);
    assert!(t.contains("\npyblock_balance_btc 0.25\n"));
    assert!(t.contains("\npyblock_chirp_slice_pct 9\n"));
    assert!(t.contains("\npyblock_chirp_candidates 10\n"));
    assert!(t.contains("\npyblock_chirp_hashrate_ths 11\n"));
    assert_eq!(t.lines().filter(|l| l.starts_with("# TYPE")).count(), 16);
}

#[test]
fn requests_are_answered() {
    assert_eq!(route("GET /metrics HTTP/1.1\r\n"), Route::Metrics);
    assert_eq!(route("GET /metrics/x HTTP/1.1"), Route::Metrics);
    assert_eq!(route("GET / HTTP/1.1"), Route::Stats);
    assert_eq!(route(""), Route::Stats);
    assert_eq!(route("/metrics"), Route::Stats);
    assert_eq!(
        http_answer(Route::Stats, "é"),
        "HTTP/1.0 200 OK\r\nContent-Type: application/json\r\nAccess-Control-Allow-Origin: *\r\nContent-Length: 2\r\nConnection: close\r\n\r\né"
    );
    assert!(http_answer(Route::Metrics, "").contains("Content-Type: text/plain; version=0.0.4\r\n"));
    let mut st = Stats::new();
    api_started(&mut st, 80, None);
    api_started(&mut st, 80, Some("denied"));
    assert_eq!(st.log[0], "api: http://127.0.0.1:80/  (JSON)  ·  /metrics  (Prometheus)");
    assert_eq!(st.log[1], "api: cannot bind 127.0.0.1:80 — denied");
}

#[test]
fn plain_output() {
    assert_eq!(banner("h:1", "a.w"), "pyblockMiner v0.2.20 starting · h:1 · login a.w");
    assert_eq!(
        headless_banner("mainnet", "h:1", "a", "2.0"),
        "pyblockMiner (headless) · network=mainnet · pool=h:1 · addr=a · donate=2.0%"
    );
    let mut st = Stats::new();
    assert_eq!(
        status_line(&st, "mainnet", "1.5", 2, 9, "—"),
        "mainnet · waiting · 1.5 GH/s (2w) · blocks 0 · 0 acc (rej 0) · net_h 9 · best —"
    );
    st.connected = true;
    assert!(status_line(&st, "regtest", "0.0", 0, 0, "1.00K").starts_with("regtest · LIVE · 0.0 GH/s (0w)"));
}

fn snapshot() -> Snapshot {
    Snapshot {
        ts: 1,
        uptime: 2,
        pool: s("h:1"),
        mode: PoolMode::Chirp,
        network: s("mainnet"),
        worker: s("w"),
        active: None,
        hashrate: d(1.5),
        workers: vec![WorkerNow { name: s("A"), ghs: d(1.5), offline: true }],
        best_diff: d(9.0),
        balance: None,
        net_ok: true,
        net_miners: 3,
        net_ghs: d(4.0),
        net_height: 5,
        chirp: Some(info(vec![member("me", 8.0, 2.0, true, 0)])),
        slice_pct: Some(d(100.0)),
        expected: None,
        reward: d(3.125),
        carousel: read_carousel(&bytes(WHEEL), 50),
        carousel_ths: d(1.5),
    }
}

#[test]
fn statistics_as_json() {
    let mut st = Stats::new();
    st.addr = s("me");
    st.accepted = 4;
    let j = stats_json(&snapshot(), &st);
    assert_eq!(j.field_str("version"), Some("0.2.20"));
    assert_eq!(j.field_str("mode"), Some("CHIRP"));
    assert_eq!(j.field_u64("shares_accepted"), Some(4));
    assert_eq!(j.field_as_double("hashrate_ghs"), Some(d(1.5)));
    assert!(j.get("blake2b_active").unwrap().is_null());
    assert!(j.get("balance_btc").unwrap().is_null());
    let w = j.get("workers").unwrap().at(0).unwrap();
    assert_eq!(w.field_bool("offline"), Some(true));
    let c = j.get("chirp").unwrap();
    assert_eq!(c.field_bool("listed"), Some(true));
    assert_eq!(c.field_as_double("tenure_days"), Some(d(8.0)));
    assert!(c.get("expected_btc_day").unwrap().is_null());
    assert_eq!(j.get("net").unwrap().field_u64("height"), Some(5));
    assert_eq!(j.get("carousel").unwrap().get("suppliers").unwrap().at(1).unwrap().as_str(), Some("Ocean"));
    assert!(matches!(&j, Json::Object(v) if v.len() == 24));
    let j = stats_json(&Snapshot { best_diff: d(f64::INFINITY), hashrate: d(f64::NAN), ..snapshot() }, &st);
    assert!(j.get("best_share_diff").unwrap().is_null() && j.get("hashrate_ghs").unwrap().is_null());
    st.addr = s("other");
    let j = stats_json(&Snapshot { chirp: None, carousel: None, ..snapshot() }, &st);
    assert!(j.get("chirp").unwrap().is_null() && j.get("carousel").unwrap().is_null());
    let j = stats_json(&snapshot(), &st);
    assert_eq!(j.get("chirp").unwrap().field_bool("listed"), Some(false));
    assert!(j.get("chirp").unwrap().get("tenure_days").unwrap().is_null());
}

// ---- MINE

fn head() -> HeaderIn {
    HeaderIn {
        mode: PoolMode::Lotto,
        network: s("mainnet"),
        endpoint: s("h:1"),
        worker: s("rig"),
        active: None,
        activation_height: 100,
        blocks_until: 9,
        update: None,
        balance: Some(s("0.00000001")),
        donation: Some(s("2.0")),
        last_tick: Some(0),
    }
}

fn texts() -> ChirpTexts {
    ChirpTexts { pct: s("2.50"), days: s("3.0"), min_days: s("7") }
}

#[test]
fn header_shows_the_state() {
    let mut st = Stats::new();
    st.addr = s("bc1q");
    let first = |st: &Stats, h: &HeaderIn, now: u64| text(&header(h, st, &None, &texts(), 200, now).lines[0]);
    assert_eq!(first(&st, &head(), 1), "🎰 LOTTO BLAKE2b   MAINNET   ● OFFLINE   h:1");
    st.connected = true;
    assert!(first(&st, &head(), 20 * SECOND).contains("● LIVE"));
    assert!(first(&st, &head(), 20 * SECOND + 1).contains("⚠ ENGINE STALLED"));
    assert!(stalled(&head(), &st, 20 * SECOND + 1));
    let gated = HeaderIn { active: Some(false), network: s("testnet4"), update: Some(s("0.3.0")), ..head() };
    assert_eq!(
        first(&st, &gated, 99 * SECOND),
        "🎰 LOTTO BLAKE2b   TESTNET4   ⏳ WAITING · SHA-256d   h:1   ⛔ BLAKE2b @ 100 (9 to go) — not mining, saving power   ⬆ v0.3.0 — git pull && ./build.sh"
    );
    st.paused = true;
    assert!(first(&st, &gated, 1).contains("⏸ PAUSED"));
}

#[test]
fn header_says_who_is_paid() {
    let mut st = Stats::new();
    st.addr = s("me");
    let c = header(&head(), &st, &None, &texts(), 132, 0);
    assert_eq!(c.title, "⛏ Bitcoin BLAKE2b · solo lottery");
    assert_eq!(c.accent, Ink::Yellow);
    assert_eq!(c.lines.len(), 2);
    assert_eq!(
        text(&c.lines[1]),
        "your address  me.rig   balance 0.00000001 BTC   keep 99.1% · fee 0.9% · donation 2.0% → PyBLØCK"
    );
    let narrow = HeaderIn { mode: PoolMode::Chirp, worker: s(""), balance: None, donation: None, ..head() };
    let pay = |i: Option<ChirpInfo>| text(&header(&narrow, &st, &i, &texts(), 131, 0).lines[2]);
    assert_eq!(pay(None), "payout        weighted split · loading the coinbase draw… · fee 0.9%");
    assert_eq!(
        pay(Some(info(vec![]))),
        "payout        not in the coinbase draw yet · mine here to enter · fee 0.9%"
    );
    assert_eq!(
        pay(Some(info(vec![member("me", 3.0, 1.0, false, 0)]))),
        "payout        joining the draw · 3.0 of 7 days · fee 0.9%"
    );
    assert_eq!(
        pay(Some(info(vec![member("me", 9.0, 1.0, true, 0)]))),
        "payout        your slice of every block  2.50% · fee 0.9%"
    );
    assert_eq!(text(&header(&narrow, &st, &None, &texts(), 131, 0).lines[1]), "your address  me   balance —   ");
}

#[test]
fn tiles_show_the_numbers() {
    let mut st = Stats::new();
    st.accepted = 5;
    st.bits = 11;
    let t = show_your_tiles(&st, "1.5", 2, "3000", "4.10K");
    assert_eq!(text(&t[0].value), "1.5 GH/s");
    assert_eq!(t[0].sub, "2 worker(s)");
    assert_eq!(t[1].sub, "5 shares acc · 0 rej · 0 don");
    assert_eq!(text(&t[2].value), "bits 11");
    assert_eq!(t[2].sub, "diff 3000 · best 4.10K");
    assert_eq!(t[0].label_ink(), Ink::Muted);
    let n = NetTexts { rate: s("8.42 TH/s"), reward: None, cut: Some(s("0.01")), miners: Some(3), height: 9 };
    let t = show_net_tiles(PoolMode::Lotto, &None, &None, &n);
    assert_eq!((text(&t[0].value), text(&t[1].value), text(&t[2].value)), (s("3"), s("8.42 TH/s"), s("9")));
    assert_eq!(t[2].sub, "PyBLØCK LOTTO network");
    let none = NetTexts { miners: None, ..n };
    let t = show_net_tiles(PoolMode::Chirp, &None, &None, &none);
    assert_eq!((text(&t[1].value), t[2].sub.as_str()), (s("—"), "syndicate data loading…"));
    let t = show_net_tiles(PoolMode::Chirp, &Some(info(vec![])), &None, &none);
    assert_eq!((text(&t[2].value), t[2].sub.as_str()), (s("— BTC"), "your cut ≈ 0.01 BTC"));
    let k = read_carousel(&bytes(WHEEL), 50);
    let t = show_net_tiles(PoolMode::Carousel, &None, &k, &none);
    assert_eq!((text(&t[0].value), text(&t[2].value)), (s("2"), s("Ocean")));
    let t = show_net_tiles(PoolMode::Carousel, &None, &None, &none);
    assert_eq!(t[2].sub, "rotation data loading…");
}

#[test]
fn workers_and_log_are_shown() {
    let r = show_workers(&vec![s("A")], &vec![s("1.50"), s("0.00")], &vec![false, true]);
    assert_eq!(text(&r[0]), format!("   0  {:<28}{:>7} GH/s", "A", "1.50"));
    assert_eq!(text(&r[1]), format!("   1  {:<28}○ offline · auto-respawning", "GPU 1"));
    assert_eq!(text(&show_workers(&vec![], &vec![], &vec![])[0]), "  warming up…");
    let mut st = Stats::new();
    for l in ["first", "BLOCK FOUND x", "a rejected one", "plain"] {
        st.logline(s(l));
    }
    let r = show_log(&st, 5);
    assert_eq!(r.iter().map(text).collect::<Vec<_>>(), vec![s("  BLOCK FOUND x"), s("  a rejected one"), s("  plain")]);
    assert_eq!(r.iter().map(|x| x.pieces[0].look.ink).collect::<Vec<_>>(), vec![Ink::Green, Ink::Amber, Ink::Muted]);
    assert!(show_log(&st, 2).is_empty());
    assert_eq!(show_log(&st, 60).len(), 4);
}

#[test]
fn rows_are_shared_out() {
    assert_eq!((header_rows(131), header_rows(132)), (5, 4));
    assert_eq!((gpu_rows(0), gpu_rows(3), gpu_rows(7), gpu_rows(50)), (3, 5, 9, 9));
    assert_eq!(panel_height(3, 200, 60, 1), 5);
    assert_eq!(panel_height(20, 200, 60, 1), 22);
    assert_eq!(panel_height(100, 200, 60, 1), 33);
    assert_eq!(panel_height(100, 200, 10, 1), 5);
    assert_eq!(mode_panel_rows(PoolMode::Lotto, None, &None, 80), 3);
    assert_eq!(mode_panel_rows(PoolMode::Custom, None, &None, 80), 2);
    assert_eq!(mode_panel_rows(PoolMode::Chirp, Some(9), &None, 80), 12);
    assert_eq!(mode_panel_rows(PoolMode::Chirp, None, &None, 80), 1);
    assert_eq!(mode_panel_rows(PoolMode::Carousel, None, &None, 80), 1);
    let k = read_carousel(&bytes(WHEEL), 50);
    assert_eq!(mode_panel_rows(PoolMode::Carousel, None, &k, 80), 5);
    assert_eq!(mode_panel_rows(PoolMode::Carousel, None, &k, 10), 1 + 2 + 2 + 6);
}

// ---- panels

#[test]
fn lotto_shows_the_odds() {
    let c = lotto_panel(&Some(Odds { time: s("3.0 d"), rate: s("1.5"), per_day: s("0.3333") }));
    assert_eq!(c.title, "🎰 LOTTO · solo lottery");
    assert_eq!(
        text(&c.lines[1]),
        "  your odds    ~3.0 d per block  at 1.5 GH/s · mean, high variance · ~0.3333 blocks/day"
    );
    assert!(text(&lotto_panel(&None).lines[1]).contains("waiting for hashrate"));
    let c = custom_panel("h:1");
    assert_eq!(text(&c.lines[0]), "  stratum  h:1");
    assert_eq!(text(&c.lines[1]), "  payout   payout rules are the pool operator's — check their site");
}

#[test]
fn carousel_shows_the_wheel() {
    let k = read_carousel(&bytes(WHEEL), 50);
    let c = carousel_panel(&k, "1.50 TH/s", 170);
    assert_eq!(c.title, "🎠 CAROUSEL · rotating clean templates · updated 2m ago");
    assert_eq!(text(&c.lines[0]), "  now mining  Ocean's clean template   · 2 suppliers · 3 miners · 1.50 TH/s");
    assert_eq!(text(&c.lines[1]), "  rotation    Ec1ipse · ▶ Ocean");
    assert_eq!(text(&c.lines[2]), "  recent      Ocean › Ec1ipse");
    assert!(text(&c.lines[3]).contains("finder keeps 96% · supplier 3% · PyBLØCK 1%"));
    let still = CarouselInfo { live: false, current: s(""), ..k.unwrap() };
    let c = carousel_panel(&Some(still), "—", 50);
    assert!(text(&c.lines[0]).starts_with("  now mining  —   ·"));
    assert!(text(&c.lines[0]).ends_with(" · — · rotation paused"));
    let c = carousel_panel(&None, "—", 0);
    assert_eq!(c.title, "🎠 CAROUSEL · rotating clean templates");
    assert_eq!(text(&c.lines[0]), "  loading the rotation from the pool…");
}

fn head_texts() -> HeadTexts {
    HeadTexts {
        rate: s("8.42 TH/s"),
        reward: Some(s("3.1250")),
        pct: s("75.00"),
        cut: s("2.32266"),
        expected: s("0.10000 BTC"),
        days: s("9.0"),
        power: s("5"),
        min_days: s("7"),
        cells: 4,
    }
}

fn member_texts(n: usize) -> Vec<MemberTexts> {
    (0..n)
        .map(|_| MemberTexts { days: s("9.0"), power: s("57.3M"), pct: s("75.00"), missing: s("6.0"), cells: 3 })
        .collect()
}

#[test]
fn coinbase_lists_the_members() {
    let c = Some(info(vec![
        member("me", 9.0, 75.0, true, 100_000),
        member("bc1qjdqlvwfxum8dh4t5v9mvskdarjvlek2a9g5pw2", 9.0, 25.0, true, 100_000 - 7200),
        member("c", 1.0, 9.0, false, 0),
    ]));
    let p = chirp_panel(&c, "me", &head_texts(), &member_texts(3), 0, 100, 20, 100_059);
    assert_eq!(p.title, "🌌 CHIRP · who is in the coinbase · 3 miners · updated 59s ago");
    assert_eq!(
        text(&p.lines[0]),
        "  2 eligible miners share every block · 8.42 TH/s · 0 workers · 0 blocks · last reward 3.1250 BTC"
    );
    assert_eq!(
        text(&p.lines[1]),
        "  you  75.00% of every block ≈ 2.32266 BTC · ≈ 0.10000 BTC / day expected · tenure 9.0 d · power 5"
    );
    assert_eq!(
        text(&p.lines[2]),
        "     #  MINER           TENURE  POWER 24h  SHARE                STATUS"
    );
    assert_eq!(
        text(&p.lines[3]),
        "  ▶  1  me               9.0 d      57.3M  ▰▰▰▱▱▱▱▱▱▱  75.00%   ● eligible  you"
    );
    assert_eq!(
        text(&p.lines[4]),
        "     2  bc1qjd…5pw2      9.0 d      57.3M  ▰▰▰▱▱▱▱▱▱▱  75.00%   ● offline 2h"
    );
    assert_eq!(
        text(&p.lines[5]),
        "     3  c                9.0 d      57.3M  ▰▰▰▱▱▱▱▱▱▱      —   ⏳ 6.0 d to go"
    );
}

#[test]
fn coinbase_tells_the_user() {
    let you = |m: Vec<ChirpMember>, addr: &str| {
        let n = m.len();
        let p = chirp_panel(&Some(info(m)), addr, &head_texts(), &member_texts(n), 0, 80, 20, 0);
        text(&p.lines[1])
    };
    assert_eq!(
        you(vec![], "me"),
        "  you  not in the draw yet — mine here 7 days to enter · the pool lists you once it sees your shares"
    );
    assert_eq!(
        you(vec![member("me", 3.0, 1.0, false, 0)], "me"),
        "  you  joining the draw · 9.0 of 7 days  ▰▰▰▰▱▱▱▱▱▱  keep mining, stay connected"
    );
    let p = chirp_panel(&None, "me", &head_texts(), &vec![], 0, 80, 20, 0);
    assert_eq!(p.title, "🌌 CHIRP · who is in the coinbase");
    assert_eq!(text(&p.lines[0]), "  loading the coinbase draw from the pool…");
}

#[test]
fn coinbase_scrolls() {
    let many = || Some(info((0..20).map(|i| member(&format!("m{}", i), 9.0, 1.0, true, 100_000)).collect()));
    let p = chirp_panel(&many(), "", &head_texts(), &member_texts(20), 15, 80, 15, 100_000);
    assert_eq!(p.lines.len(), 3 + 10);
    assert!(p.title.contains(" · ↑↓ 11–20 of 20 · "));
    assert!(text(&p.lines[3]).starts_with("    11  m10 "));
    let p = chirp_panel(&many(), "", &head_texts(), &member_texts(20), 2, 80, 4, 100_000);
    assert_eq!(p.lines.len(), 3);
    assert!(!p.title.contains("↑↓"));
    assert_eq!((window(5, 20, 10), window(50, 20, 10), window(3, 5, 10)), (5, 10, 0));
}

// ---- the other tabs

fn data() -> DataTexts {
    DataTexts {
        average: s("1.40"),
        peak: s("1.60"),
        rate: s("1.50"),
        net_share: None,
        uptime: s("2.0 h"),
        reject_pct: s("10.0"),
        many_rejects: true,
        best: s("4.10K"),
        diff: s("3000"),
        block_time: s("3.0 d"),
        per_day: None,
        chirp: None,
    }
}

#[test]
fn data_is_shown() {
    let t = show_data_tiles(&data());
    assert_eq!((text(&t[0].value), t[0].sub.as_str()), (s("1.40 GH/s"), "now 1.50 GH/s"));
    assert_eq!(text(&t[2].value), "—");
    assert_eq!(t[0].label_ink(), Ink::Muted);
    assert_eq!(t[2].label_ink(), Ink::Cyan);
    let mut st = Stats::new();
    st.rejected = 1;
    let l = data_lines(&st, &data(), true);
    assert_eq!(l.len(), 12);
    assert_eq!(text(&l[2]), format!("  {:<22}1  (10.0%)", "shares rejected"));
    assert_eq!(l[2].pieces[1].look.ink, Ink::Amber);
    assert_eq!(text(&l[8]), format!("  {:<22}—", "expected blocks / day"));
    assert_eq!(text(&l[11]), format!("  {:<22}0  (log: miner.log)", "alerts sent"));
    let c = ChirpData { rate: s("8.42 TH/s"), block_time: s("1.0 h"), per_day: s("24.000"), mine: None };
    let l = data_lines(&st, &DataTexts { chirp: Some(c), ..data() }, false);
    assert_eq!(l.len(), 16);
    assert_eq!(text(&l[11]), format!("  {:<22}8.42 TH/s · ~1.0 h per block · ~24.000 blocks/day", "CHIRP syndicate"));
    assert_eq!(text(&l[12]), format!("  {:<22}not eligible yet", "your slice"));
    assert_eq!(text(&l[13]), format!("  {:<22}—", "expected income"));
}

#[test]
fn shares_of_the_workers() {
    let r = show_shares(&vec![s("A")], &vec![s("1.50"), s("0.50")], &vec![s("75.0"), s("25.0")]);
    assert_eq!(text(&r[0]), format!(" {:<26}{:>8} GH/s   {:>5}%", "A", "1.50", "75.0"));
    assert_eq!(text(&r[1]), format!(" {:<26}{:>8} GH/s   {:>5}%", "worker 1", "0.50", "25.0"));
    assert_eq!(text(&show_shares(&vec![], &vec![], &vec![])[0]), " warming up…");
}

#[test]
fn bars_and_lists() {
    let mut a = App::start(Config::new());
    assert_eq!(text(&tab_bar(Tab::Data)), "PyBLØCK  1·MINE  2·DATA  3·STRATUMS  4·LEARN  5·NETWORK  6·SETUP  7·HELP ");
    assert_eq!(tab_bar(Tab::Data).pieces[2].look.on, Ink::Green);
    assert_eq!(text(&footer(&a, PoolMode::Lotto, false)), " 1-7  tabs · Tab next · p pause · q quit");
    assert_eq!(text(&footer(&a, PoolMode::Chirp, true)), " 1-7  tabs · Tab next · ↑↓ coinbase list · p resume · q quit");
    a.msg = s("hello");
    assert_eq!(text(&footer(&a, PoolMode::Lotto, false)), "hello");
    a.input = Some(Input::EditAddr);
    a.buf = s("bc1");
    assert_eq!(text(&footer(&a, PoolMode::Lotto, false)), " address > bc1_   Enter=ok  Esc=cancel");
    assert_eq!(version_corner(), "pyblockMiner v0.2.20 ");
    let l = stratum_list(&a);
    assert_eq!(l.len(), 5);
    assert!(l[0].cursor && !l[1].cursor);
    assert_eq!(
        text(&l[0].first),
        format!(" ● 🎰 {:<24}{:<26}{:<10}{:<8}● LIVE", "PyBLØCK · LOTTO", "pool.pyblock.xyz:4445", "mainnet", "")
    );
    assert!(text(&l[2].second).ends_with("finder keeps 96% · supplier 3% · PyBLØCK 1%"));
    assert!(text(&stratum_help()).ends_with("d delete custom"));
}

#[test]
fn network_and_you() {
    let a = App::start(Config::new());
    let st = Stats::new();
    let l = network_lines(&a, &st, &None, &None);
    assert_eq!(text(&l[0]), "  you     mainnet ·  · balance — · 0 blocks · 0 shares acc · 0 rej");
    assert!(text(&l[1]).starts_with("  chain   pyblockMiner network: — miners · — · pool height — ·"));
    let l = network_lines(&a, &st, &Some(s("1.00000000")), &Some((s("3"), s("8.42 TH/s"), s("9"))));
    assert!(text(&l[0]).contains("balance 1.00000000 BTC"));
    assert!(text(&l[1]).contains("3 miners · 8.42 TH/s · pool height 9"));
}

#[test]
fn guide_pages() {
    let (title, lines) = info_page(0);
    assert_eq!(title, " LEARN — 1/4 · What is this?   (←/→ pages) ");
    assert_eq!(lines.len(), 5);
    let (title, lines) = info_page(1);
    assert_eq!(title, " LEARN — 2/4 · The hardfork — honest status   (←/→ pages) ");
    assert_eq!(lines[5].pieces[0].look.ink, Ink::Amber);
    assert_eq!(lines[0].pieces[0].look.ink, Ink::Green);
    assert_eq!(info_page(99).0, info_page(3).0);
    let h = help_lines();
    assert_eq!(text(&h[0]), " Keys");
    assert!(h.iter().any(|r| text(r).contains("PgUp PgDn Home")));
    assert!(h.iter().any(|r| text(r).contains("it retries with backoff, 3s to 60s")));
    assert!(h.iter().any(|r| text(r).contains("SETUP [6]")));
    assert!(text(&lines[0]).contains("MAINNET is live"));
    assert!(info_page(3).1.iter().any(|r| text(r).contains("STRATUMS [3]")));
}

#[test]
fn setup_is_shown() {
    let mut a = App::start(Config::new());
    let l = setup_lines(&a, "2.0", "/x/miner.log");
    assert_eq!(text(&l[0]), format!("  {:<18}PyBLØCK · LOTTO  [mainnet]", "selected stratum"));
    assert_eq!(text(&l[1]), format!("  {:<18}— not set —", "your address"));
    assert_eq!(text(&l[3]), format!("  {:<18}2.0% (mainnet)", "donation"));
    assert_eq!(text(&l[4]), format!("  {:<18}auto   cpu: off", "gpus"));
    assert_eq!(text(&l[6]), format!("  {:<18}/x/miner.log", "log file"));
    assert_eq!(text(&l[7]), format!("  {:<18}off  (--api-port <port>)", "local api"));
    a.cfg.selected = 3;
    a.cfg.worker = s("rig");
    a.cfg.api_port = 80;
    a.cfg.log_file = false;
    a.cfg.gpus = Some(2);
    a.cfg.alerts.telegram_token = s("1:ab");
    a.cfg.alerts.telegram_chat = s("77");
    let l = setup_lines(&a, "2.0", "/x/miner.log");
    assert_eq!(text(&l[2]), format!("  {:<18}rig   → login .rig", "worker name"));
    assert_eq!(text(&l[3]), format!("  {:<18}off (testnet/regtest)", "donation"));
    assert_eq!(text(&l[4]), format!("  {:<18}2   cpu: off", "gpus"));
    assert!(text(&l[5]).contains("bell on · desktop on · telegram on → chat 77 · webhook off"));
    assert_eq!(text(&l[6]), format!("  {:<18}off (--no-log-file)", "log file"));
    assert!(text(&l[7]).contains("http://127.0.0.1:80/"));
}
