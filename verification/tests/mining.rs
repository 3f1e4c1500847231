use pyblock_miner::double::Double;
use pyblock_miner::engine::{
    choose_work, connect_wait, cpu_fallback, dead_workers, device_name, examine, judge, net_bits, peak_and_total,
    recent_samples, report_troubles, respawned, sample, still_current, submit_winners, workers_ready, Action, Choice,
    Engine, Rates, Target, Tick,
};
use pyblock_miner::grinder::{
    job_line, plan_sweep, read_printed, read_ready, Capacity, Grinder, Part, Printed, Trouble, SECOND,
};
use pyblock_miner::json::{parse_json, Json, Scalar};
use pyblock_miner::session::{request, since, Incoming, Session};
use pyblock_miner::stats::Stats;
use pyblock_miner::work::{cpu_grind, cpu_ranges, grind_range, nonce_hash, work_unit, Fields};
use std::collections::VecDeque;

const PREV: &str = "000102030405060708090a0b0c0d0e0f101112131415161718191a1b1c1d1e1f";
const ROOT: &str = "202122232425262728292a2b2c2d2e2f303132333435363738393a3b3c3d3e3f";

fn d(x: f64) -> Double {
    Double { bits: x.to_bits() }
}

fn hex_of(h: &[u8]) -> String {
    h.iter().map(|b| format!("{:02x}", b)).collect()
}

fn text(s: &str) -> Json {
    Json::Text(s.to_string())
}

fn a_job() -> Vec<Json> {
    vec![
        text("j1"),
        text(PREV),
        text("aabb"),
        text(""),
        Json::List(vec![]),
        text("20000000"),
        text("1d00ffff"),
        text("11223344"),
    ]
}

fn lines(s: &str) -> Incoming {
    Incoming::Data(s.as_bytes().to_vec())
}

fn log(st: &Stats) -> Vec<String> {
    st.log.iter().cloned().collect()
}

// ---- work

#[test]
fn work_unit_hashes_the_leaf() {
    let u = work_unit("01020304", &a_job(), 0, 8);
    assert_eq!(u.prevhash, PREV);
    assert_eq!(u.ntime, "11223344");
    assert_eq!(u.version, "20000000");
    assert_eq!(u.job_id, "j1");
    assert_eq!(u.en2hex, "0000000000000000");
    assert_eq!(u.work_root, "eb0fcb6e0a92835f437d3bcbf59598897b031ecbb9045fcddf799419d12b7444");
    let u = work_unit("01020304", &a_job(), 258, 8);
    assert_eq!(u.en2hex, "0201000000000000");
    assert_eq!(u.work_root, "8e568c475ec9582a7f4accaab76c5340a426944dbb739d53f7f9a94fccd02f01");
}

#[test]
fn work_unit_fits_the_extranonce() {
    let u = work_unit("01020304", &a_job(), 258, 2);
    assert_eq!(u.en2hex, "0201");
    assert_eq!(u.work_root, "8e568c475ec9582a7f4accaab76c5340a426944dbb739d53f7f9a94fccd02f01");
    let u = work_unit("01020304", &a_job(), 5, 0);
    assert_eq!(u.en2hex, "00");
    assert_eq!(u.work_root, "eb0fcb6e0a92835f437d3bcbf59598897b031ecbb9045fcddf799419d12b7444");
    let u = work_unit("01020304", &a_job(), 7, 4);
    assert_eq!(u.en2hex, "07000000");
    assert_eq!(u.work_root, "8844d93bc42570f9b08d6cd02597795551c71ba9e35282ae346333e7d5855fd7");
    assert_eq!(work_unit("", &a_job(), 1, 10).en2hex, "01000000000000000000");
}

#[test]
fn work_unit_of_an_odd_job() {
    let job: Vec<Json> = (0..8).map(|_| Json::Null).collect();
    let u = work_unit("zz", &job, 0, 1);
    assert_eq!(u.prevhash, "");
    assert_eq!(u.job_id, "");
    assert_eq!(u.en2hex, "00");
    assert_eq!(u.work_root.len(), 64);
}

#[test]
fn nonces_are_hashed_with_the_header() {
    let h = nonce_hash(PREV, "11223344", ROOT, "00000000").unwrap();
    assert_eq!(hex_of(&h), "3ece2736444b640fd78a914f88ad4c074b1ae3e5baa6d25f3c268bad42d56b0e");
    let h = nonce_hash(PREV, "11223344", ROOT, "01020304").unwrap();
    assert_eq!(hex_of(&h), "493058021d7f0eeeebb2614f8266626cb07e366ddff7f65cd315fa42d667f809");
    let f = Fields::decode(PREV, "11223344", ROOT).unwrap();
    assert_eq!(f.header_bytes(0x01020304).len(), 80);
    assert_eq!(&f.header_bytes(0x01020304)[32..40], &[4, 3, 2, 1, 0, 0, 0, 0]);
    assert_eq!(f.hash(0x01020304), h);
}

#[test]
fn nonces_that_cannot_be_hashed() {
    assert_eq!(nonce_hash("00", "11223344", ROOT, "0"), None);
    assert_eq!(nonce_hash(PREV, "11223344", "zz", "0"), None);
    assert_eq!(nonce_hash(PREV, "11223344", ROOT, "xyz"), None);
    assert_eq!(nonce_hash(PREV, "11223344", ROOT, ""), None);
    assert_eq!(nonce_hash(PREV, "11223344", ROOT, "100000000"), None);
    assert!(nonce_hash(PREV, "not hex", ROOT, "ffffffff").is_some());
    assert_eq!(nonce_hash(PREV, "not hex", ROOT, "0"), nonce_hash(PREV, "", ROOT, "+0"));
}

#[test]
fn cpu_parts_tile_the_range() {
    assert_eq!(cpu_ranges(3, 10, 10), vec![(10, 13), (13, 16), (16, 20)]);
    assert_eq!(cpu_ranges(0, 5, 2), vec![(5, 7)]);
    assert_eq!(cpu_ranges(4, 0, 2), vec![(0, 0), (0, 0), (0, 0), (0, 2)]);
}

#[test]
fn cpu_search_of_a_job_that_cannot_be_read() {
    assert!(cpu_grind("", "", "", 0, 2, 0, 1000).is_empty());
    assert!(cpu_grind(PREV, "11223344", ROOT, 0, 2, 0, 2000).is_empty());
}

#[test]
fn cpu_search_finds_a_share() {
    let n: u64 = 4_173_148_433;
    let won = vec![format!("{:08x}", n)];
    assert_eq!(cpu_grind(PREV, "44332211", ROOT, 0, 3, n - 500, 1000), won);
    assert_eq!(cpu_grind(PREV, "44332211", ROOT, 1, 1, n, 1), won);
    assert!(cpu_grind(PREV, "44332211", ROOT, 2, 1, n, 1).is_empty());
    assert!(cpu_grind(PREV, "44332211", ROOT, 0, 1, n + 1, 100).is_empty());
    let f = Fields::decode(PREV, "44332211", ROOT).unwrap();
    assert_eq!(grind_range(&f, 0, n, n + 1), won);
    let h = nonce_hash(PREV, "44332211", ROOT, &won[0]).unwrap();
    assert_eq!(&h[..5], &[0, 0, 0, 0, 0x78]);
}

#[test]
fn cpu_search_ends_with_the_nonces() {
    assert!(cpu_grind(PREV, "11223344", ROOT, 0, 1, 0xffff_fff0, 1000).is_empty());
    assert!(cpu_grind(PREV, "11223344", ROOT, 0, 2, 0x1_0000_0000, 1 << 40).is_empty());
}

// ---- JSON

#[test]
fn json_is_read_as_a_tree() {
    let j = parse_json(br#"{"a":[1,-2,3.5,"x",null,true],"b":{"c":7}}"#).unwrap();
    let a = j.get("a").unwrap();
    assert_eq!(a.at(0).unwrap().as_u64(), Some(1));
    assert_eq!(a.at(1).unwrap().as_u64(), None);
    assert_eq!(a.at(1).unwrap().as_double(), Some(d(-2.0)));
    assert_eq!(a.at(2).unwrap().as_double(), Some(d(3.5)));
    assert_eq!(a.at(0).unwrap().as_double(), Some(d(1.0)));
    assert_eq!(a.at(3).unwrap().as_str(), Some("x"));
    assert!(a.at(4).unwrap().is_null());
    assert_eq!(a.at(5).unwrap().as_bool(), Some(true));
    assert!(a.at(6).is_none());
    assert_eq!(j.get("b").unwrap().field_u64("c"), Some(7));
    assert!(j.get("z").is_none());
    assert!(parse_json(b"{").is_none());
    let copy = j.copy();
    assert_eq!(copy.get("b").unwrap().field_u64("c"), Some(7));
    assert_eq!(parse_json(b"18446744073709551615").unwrap().as_double(), Some(d(18446744073709551615u64 as f64)));
}

#[test]
fn requests_are_one_line_of_json() {
    let r = request(7, "m", vec![Scalar::Text("a\nb\"".to_string()), Scalar::Uint(1)]);
    assert_eq!(r, "{\"id\":7,\"method\":\"m\",\"params\":[\"a\\nb\\\"\",1]}\n");
    let j = parse_json(r.trim_end().as_bytes()).unwrap();
    assert_eq!(j.field_u64("id"), Some(7));
    assert_eq!(j.field_str("method"), Some("m"));
    assert_eq!(j.get("params").unwrap().at(0).unwrap().as_str(), Some("a\nb\""));
}

// ---- session

#[test]
fn session_greets_the_pool() {
    let s = Session::open("bc1qme.rig", false, 5);
    let g = s.greeting();
    assert_eq!(g.len(), 3);
    assert_eq!(
        g[0],
        "{\"id\":1,\"method\":\"mining.subscribe\",\"params\":[\"PyBLOCK-GPU/BLAKE2b/0.2.20\"]}\n"
    );
    assert_eq!(g[1], "{\"id\":2,\"method\":\"mining.authorize\",\"params\":[\"bc1qme.rig\",\"x\"]}\n");
    assert_eq!(g[2], "{\"id\":3,\"method\":\"mining.suggest_difficulty\",\"params\":[1]}\n");
    let dev = Session::open("dev", true, 5);
    assert!(dev.greeting()[0].contains("PyBLOCK-GPU/BLAKE2b-donate/"));
    assert_eq!(s.subid, 100);
    assert_eq!(s.en2size, 8);
    assert_eq!(s.diff, d(1.0));
    assert!(s.ready().is_none());
}

fn job_text() -> String {
    format!(
        "{{\"id\":null,\"method\":\"mining.notify\",\"params\":[\"j1\",\"{}\",\"aabb\",\"\",[],\"20000000\",\"1d00ffff\",\"11223344\",true]}}\n",
        PREV
    )
}

#[test]
fn session_follows_the_pool() {
    let mut st = Stats::new();
    let mut s = Session::open("bc1qme", false, 0);
    let sub = "{\"id\":1,\"result\":[[[\"a\",\"b\"]],\"01020304\",4],\"error\":null}\n";
    assert!(s.pump(&mut st, lines(sub), 10));
    assert_eq!(s.en1.as_deref(), Some("01020304"));
    assert_eq!(s.en2size, 4);
    assert_eq!(s.idle, 10);
    assert!(s.pump(&mut st, lines("{\"method\":\"mining.set_difficulty\",\"params\":[3000]}\n"), 11));
    assert_eq!(s.diff, d(3000.0));
    assert_eq!(st.bits, 11);
    assert_eq!(st.diff, d(3000.0));
    assert!(s.pump(&mut st, lines(&job_text()), 12));
    assert_eq!(s.last_notify, 12);
    let (en1, job) = s.ready().unwrap();
    assert_eq!(en1, "01020304");
    assert_eq!(job.len(), 9);
    assert_eq!(
        log(&st),
        vec!["subscribed · extranonce1=01020304".to_string(), "difficulty set · bits=11".to_string()]
    );
    let w = s.build_work(&en1, &job);
    assert_eq!(w.en2hex, "00000000");
    assert_eq!(s.en2ctr, 1);
    assert_eq!(s.build_work(&en1, &job).en2hex, "01000000");
}

#[test]
fn chunks_of_a_line_make_the_line() {
    let sub = "{\"id\":1,\"result\":[[],\"0a0b\"]}\n{\"method\":\"mining.set_difficulty\",\"params\":[2]}\n";
    let mut st1 = Stats::new();
    let mut s1 = Session::open("a", false, 0);
    s1.pump(&mut st1, lines(sub), 1);
    let mut st2 = Stats::new();
    let mut s2 = Session::open("a", false, 0);
    for b in sub.bytes() {
        s2.pump(&mut st2, Incoming::Data(vec![b]), 1);
    }
    assert_eq!(s1.en1, s2.en1);
    assert_eq!(s1.en2size, 8);
    assert_eq!(s1.diff, s2.diff);
    assert_eq!(st1.log, st2.log);
    assert!(s2.buf.is_empty());
    s2.pump(&mut st2, lines("rest without an end"), 2);
    assert_eq!(s2.buf, b"rest without an end".to_vec());
}

#[test]
fn reads_may_come_at_any_time() {
    let text = format!(
        "{}noise\n{}{}",
        "{\"id\":1,\"result\":[[],\"0a0b\"]}\n",
        "{\"method\":\"mining.set_difficulty\",\"params\":[2]}\n",
        job_text()
    );
    let mut st1 = Stats::new();
    let mut s1 = Session::open("a", false, 0);
    s1.pump(&mut st1, lines(&text), 50);
    let mut st2 = Stats::new();
    let mut s2 = Session::open("a", false, 0);
    for (i, b) in text.bytes().enumerate() {
        s2.pump(&mut st2, Incoming::Data(vec![b]), i as u64);
    }
    assert_eq!((s1.en1, s1.en2size, s1.diff), (s2.en1, s2.en2size, s2.diff));
    assert_eq!(s1.job.map(|j| j.len()), s2.job.map(|j| j.len()));
    assert_eq!(st1.log, st2.log);
    assert_eq!(s1.last_notify, 50);
    assert_eq!(s2.last_notify, text.len() as u64 - 1);
}

#[test]
fn whole_difficulties_are_exact() {
    for (n, bits) in [(1u64, 0), (2, 1), (4095, 11), (4096, 12), (9007199254740991, 52), (9007199254740992, 53)] {
        let mut st = Stats::new();
        let mut s = Session::open("a", false, 0);
        s.pump(&mut st, lines(&format!("{{\"method\":\"mining.set_difficulty\",\"params\":[{}]}}\n", n)), 1);
        assert_eq!(s.diff, d(n as f64));
        assert_eq!(st.bits, bits);
    }
    assert_eq!(Json::Uint(0).as_double(), Some(d(0.0)));
    assert_eq!(Json::Int(-9007199254740992).as_double(), Some(d(-9007199254740992.0)));
    assert_eq!(Json::Int(i64::MIN).as_double(), Some(d(i64::MIN as f64)));
    assert_eq!(Json::Uint(9007199254740993).as_double(), Some(d(9007199254740992.0)));
}

#[test]
fn odd_lines_change_nothing() {
    let mut st = Stats::new();
    let mut s = Session::open("a", false, 0);
    s.pump(&mut st, lines("not json\n\n{\"id\":1,\"result\":null}\n{\"id\":55,\"result\":true}\n[]\n"), 1);
    assert!(s.en1.is_none());
    assert_eq!(st.accepted, 0);
    assert!(st.log.is_empty());
    s.pump(&mut st, lines("{\"method\":\"mining.set_difficulty\",\"params\":[\"x\"]}\n"), 1);
    assert_eq!(s.diff, d(1.0));
    s.pump(&mut st, lines(&job_text()), 2);
    assert!(s.job.is_some());
    s.pump(&mut st, lines("{\"method\":\"mining.notify\",\"params\":3}\n"), 3);
    assert!(s.job.is_none());
}

#[test]
fn closed_connection_ends_the_session() {
    let mut st = Stats::new();
    let mut s = Session::open("a", false, 7);
    assert!(!s.pump(&mut st, Incoming::Closed, 9));
    assert!(s.pump(&mut st, Incoming::Nothing, 9));
    assert_eq!(s.idle, 7);
}

fn submitted_session(is_dev: bool, is_block: bool, height: u64) -> (Session, Stats) {
    let mut st = Stats::new();
    st.addr = "bc1qme".to_string();
    let mut s = Session::open("bc1qme", is_dev, 0);
    let w = work_unit("01020304", &a_job(), 0, 8);
    let line = s.submit(&w, "deadbeef", is_block, height, 1000);
    assert_eq!(
        line,
        "{\"id\":101,\"method\":\"mining.submit\",\"params\":[\"bc1qme\",\"j1\",\"0000000000000000\",\"11223344\",\"deadbeef\",\"20000000\"]}\n"
    );
    (s, st)
}

#[test]
fn accepted_share_is_counted_once() {
    let (mut s, mut st) = submitted_session(false, false, 0);
    let reply = "{\"id\":101,\"result\":true,\"error\":null}\n";
    s.pump(&mut st, lines(reply), 2000);
    assert_eq!((st.accepted, st.rejected, st.blocks), (1, 0, 0));
    assert_eq!(log(&st), vec!["✓ share accepted (#1) · nonce deadbeef".to_string()]);
    s.pump(&mut st, lines(reply), 3000);
    assert_eq!((st.accepted, st.rejected, st.blocks), (1, 0, 0));
    assert!(s.pending.is_empty());
}

#[test]
fn block_is_counted_and_told() {
    let (mut s, mut st) = submitted_session(false, true, 968001);
    s.pump(&mut st, lines("{\"id\":101,\"result\":true}\n"), 2000);
    assert_eq!((st.accepted, st.blocks, st.alerts_sent), (1, 1, 1));
    assert!(st.ring_bell);
    assert_eq!(log(&st)[0], "🎉 BLOCK FOUND height 968001 (#1)  paid to your address · nonce deadbeef");
    assert_eq!(
        log(&st)[1],
        "🔔 🎉 BLOCK FOUND — height 968001 block #1 this session · paid to bc1qme"
    );
    assert_eq!(st.outbox[0].title, "🎉 BLOCK FOUND");
}

#[test]
fn rejected_share_shows_the_error() {
    let (mut s, mut st) = submitted_session(false, false, 0);
    s.pump(&mut st, lines("{\"id\":101,\"result\":null,\"error\":[21, \"stale\", null]}\n"), 2000);
    assert_eq!((st.accepted, st.rejected), (0, 1));
    assert_eq!(log(&st), vec!["✗ rejected ([21,\"stale\",null])  nonce deadbeef".to_string()]);
}

#[test]
fn donation_counts_apart() {
    let (mut s, mut st) = submitted_session(true, true, 0);
    s.pump(&mut st, lines("{\"id\":101,\"result\":true}\n"), 2000);
    assert_eq!((st.accepted, st.blocks, st.donated), (0, 0, 1));
    assert_eq!(log(&st), vec!["💚 donation BLOCK (#1) → developer · thank you! · nonce deadbeef".to_string()]);
    let (mut s, mut st) = submitted_session(true, false, 0);
    s.pump(&mut st, lines("{\"id\":101,\"error\":\"no\"}\n"), 2000);
    assert_eq!(log(&st), vec!["✗ donation rejected (\"no\")  nonce deadbeef".to_string()]);
    let mut s = Session::open("dev", true, 0);
    let mut st = Stats::new();
    s.pump(&mut st, lines("{\"method\":\"mining.set_difficulty\",\"params\":[64]}\n"), 1);
    assert_eq!(s.diff, d(64.0));
    assert_eq!(st.bits, 0);
    assert!(st.log.is_empty());
}

#[test]
fn unanswered_shares_are_forgotten() {
    let (mut s, mut st) = submitted_session(false, false, 0);
    s.pump(&mut st, Incoming::Nothing, 1000 + 120 * SECOND - 1);
    assert_eq!(s.pending.len(), 1);
    s.pump(&mut st, Incoming::Nothing, 1000 + 120 * SECOND);
    assert!(s.pending.is_empty());
    s.pump(&mut st, lines("{\"id\":101,\"result\":true}\n"), 1000 + 121 * SECOND);
    assert_eq!(st.accepted, 0);
    assert_eq!(since(10, 4), 0);
}

#[test]
fn log_keeps_the_last_lines() {
    let mut st = Stats::new();
    for i in 0..305 {
        st.logline(format!("line {}", i));
    }
    assert_eq!(st.log.len(), 300);
    assert_eq!(st.log[0], "line 5");
    assert_eq!(st.log[299], "line 304");
    assert_eq!(st.unsaved.len(), 305);
    st.bell = false;
    st.alert("t", "b");
    assert!(!st.ring_bell);
    assert_eq!(st.log[299], "🔔 t — b");
    assert_eq!(st.fresh_lines(298), vec!["line 304".to_string(), "🔔 t — b".to_string()]);
    assert!(st.fresh_lines(300).is_empty());
    assert!(st.fresh_lines(1000).is_empty());
}

// ---- grinders

fn gpu(want: u64) -> Capacity {
    Capacity { dead: false, want }
}

#[test]
fn sweep_is_shared_by_speed() {
    let s = plan_sweep(&vec![gpu(30_000_000), gpu(10_000_000)], 2, 0);
    assert_eq!(s.gpus[0], Some(Part { start: 0, span: 30_000_000 }));
    assert_eq!(s.gpus[1], Some(Part { start: 30_000_000, span: 10_000_000 }));
    assert_eq!(s.cpu, Some(Part { start: 40_000_000, span: 2_000_000 }));
}

#[test]
fn sweep_never_exceeds_the_nonces() {
    let s = plan_sweep(&vec![gpu(1 << 33), gpu(1 << 33)], 0, 0);
    assert_eq!(s.gpus[0], Some(Part { start: 0, span: 1 << 31 }));
    assert_eq!(s.gpus[1], Some(Part { start: 1 << 31, span: 1 << 31 }));
    assert_eq!(s.cpu, None);
    let s = plan_sweep(&vec![gpu(7), gpu(1 << 33), gpu(0)], 1, 1);
    let end = s.cpu.unwrap();
    assert_eq!(end.start + end.span, 1 << 32);
}

#[test]
fn dead_grinders_get_nothing() {
    let s = plan_sweep(&vec![Capacity { dead: true, want: 9 }, gpu(0)], 0, 0);
    assert_eq!(s.gpus[0], None);
    assert_eq!(s.gpus[1], Some(Part { start: 0, span: 1 << 22 }));
    let s = plan_sweep(&vec![Capacity { dead: true, want: 9 }], 0, 0);
    assert_eq!(s.gpus[0], None);
    assert_eq!(s.cpu, None);
    let s = plan_sweep(&vec![], 4, 5_000_000);
    assert_eq!(s.cpu, Some(Part { start: 0, span: 5_000_000 }));
}

#[test]
fn grinder_lines() {
    assert_eq!(job_line("p", "t", "r", 11, Part { start: 5, span: 0 }), "p t r 11 5 1");
    assert_eq!(job_line("p", "t", "r", 0, Part { start: 0, span: 77 }), "p t r 0 0 77");
    assert!(matches!(read_printed(" END 1.25\n"), Printed::End(s) if s == "1.25"));
    assert!(matches!(read_printed("0badf00d\r"), Printed::Nonce(s) if s == "0badf00d"));
    assert!(matches!(read_printed("END"), Printed::Nonce(s) if s == "END"));
    assert!(matches!(read_printed("   "), Printed::Blank));
    assert_eq!(read_ready("READY Radeon RX \n", "GPU 0").as_deref(), Some("Radeon RX"));
    assert_eq!(read_ready("READY\n", "GPU 0").as_deref(), Some("GPU 0"));
    assert_eq!(read_ready("error: no device", "GPU 0"), None);
}

#[test]
fn grinders_back_off() {
    let mut g = Grinder::start(0, "Arc".to_string(), 0);
    let want = [10, 20, 40, 80, 160, 300, 300];
    for (i, w) in want.iter().enumerate() {
        let e = g.give_up(Trouble::Exited, 1000);
        assert_eq!(e, format!("⚠ Arc grinder exited — respawning in {}s", w));
        assert_eq!(g.fails as usize, i + 1);
        assert!(!g.is_due(1000 + w * SECOND - 1));
        assert!(g.is_due(1000 + w * SECOND));
    }
    let e = g.give_up(Trouble::Silent("7"), 0);
    assert_eq!(e, "⚠ Arc unresponsive for 7s — killed · respawning in 300s");
    g.finish(300 * SECOND);
    assert_eq!(g.fails, 8);
    g.finish(300 * SECOND + 1);
    assert_eq!(g.fails, 0);
}

#[test]
fn grinders_come_back() {
    let mut st = Stats::new();
    let mut g = Grinder::start(1, "Arc".to_string(), 0);
    g.give_up(Trouble::Exited, 0);
    respawned(&mut g, None, &mut st, 50);
    assert_eq!((g.fails, g.died_at, g.dead), (2, 50, true));
    assert_eq!(log(&st), vec!["✗ Arc still not starting — next try in 20s".to_string()]);
    respawned(&mut g, Some(Grinder::start(1, "Arc B".to_string(), 60)), &mut st, 60);
    assert_eq!((g.fails, g.dead), (2, false));
    assert_eq!(log(&st)[1], "🔔 GPU back online — Arc B is hashing again");
    report_troubles(&mut st, &vec!["x".to_string(), "y".to_string()]);
    assert_eq!(log(&st)[3], "🔔 GPU down — y");
    assert_eq!(dead_workers(&vec![g], 4), vec![false, false]);
}

#[test]
fn workers_are_listed() {
    let mut st = Stats::new();
    let r = workers_ready(&mut st, vec!["A".to_string(), "B".to_string()], 8);
    assert_eq!(r, vec!["A".to_string(), "B".to_string(), "CPU (8 threads)".to_string()]);
    assert_eq!(log(&st), vec!["3 worker(s) ready: A, B, CPU (8 threads)".to_string()]);
    assert_eq!(workers_ready(&mut st, vec![], 0).len(), 0);
    assert_eq!(log(&st)[1], "0 worker(s) ready: ");
    assert_eq!(cpu_fallback(0, 0, 16), 16);
    assert_eq!(cpu_fallback(1, 0, 16), 0);
    assert_eq!(cpu_fallback(0, 3, 16), 3);
    assert_eq!(device_name(&vec!["A".to_string()], 0), "A");
    assert_eq!(device_name(&vec!["A".to_string()], 3), "GPU 3");
}

// ---- engine

#[test]
fn connecting_backs_off() {
    let mut e = Engine { fails: 0, dev_retry: 0 };
    let mut st = Stats::new();
    let waits: Vec<u64> = (0..8).map(|_| e.connect_failed(&mut st, "h:1")).collect();
    assert_eq!(waits, vec![3, 6, 12, 24, 48, 60, 60, 60]);
    assert_eq!(log(&st)[0], "connection failed to h:1 — retry in 3s (attempt 1)");
    assert_eq!(st.alerts_sent, 1);
    assert_eq!(st.outbox[0].body, "h:1 — 3 failed attempts, retrying with backoff · not mining");
    assert_eq!(connect_wait(0), 3);
    e.connected(&mut st, "h:1", "me.rig", Some("2.0"));
    assert!(st.connected);
    assert_eq!(st.outbox[1].body, "connected to h:1 after 8 attempts · mining");
    assert_eq!(st.log.back().unwrap(), "hashrate donation 2.0% → PyBLØCK");
    e.no_address(&mut st);
    assert!(!st.connected);
}

#[test]
fn early_drops_count_as_failures() {
    let mut e = Engine { fails: 0, dev_retry: 0 };
    let mut st = Stats::new();
    assert_eq!(e.session_over(&mut st, false, 0, 10 * SECOND - 1), Some(3));
    assert_eq!(log(&st), vec!["session dropped early — reconnecting in 3s".to_string()]);
    assert_eq!(e.session_over(&mut st, true, 0, 1), None);
    assert_eq!(e.fails, 0);
    e.fails = 4;
    assert_eq!(e.session_over(&mut st, false, 0, 10 * SECOND), None);
    assert_eq!(e.fails, 0);
    e.switching(&mut st, "p:2");
    assert_eq!(st.log.back().unwrap(), "switching stratum → p:2");
}

fn tick() -> Tick {
    Tick {
        read: Incoming::Nothing,
        dev_read: Incoming::Nothing,
        donating: false,
        stall: 90 * SECOND,
        paused: false,
        active: None,
    }
}

#[test]
fn engine_works_unless_told_otherwise() {
    let mut rates = Rates::start(0);
    let mut e = Engine { fails: 0, dev_retry: 0 };
    let mut st = Stats::new();
    st.connected = true;
    let mut user = Session::open("a", false, 0);
    let mut dev = None;
    assert_eq!(e.step(&mut user, &mut dev, &mut st, &mut rates, tick(), 1), (Action::Work, false));
    assert_eq!(
        e.step(&mut user, &mut dev, &mut st, &mut rates, Tick { active: Some(false), ..tick() }, 1),
        (Action::Wait, false)
    );
    assert_eq!(
        e.step(&mut user, &mut dev, &mut st, &mut rates, Tick { active: Some(true), ..tick() }, 1),
        (Action::Work, false)
    );
    assert!(st.log.is_empty());
}

#[test]
fn engine_pauses_and_resumes() {
    let mut rates = Rates::start(0);
    let mut e = Engine { fails: 0, dev_retry: 0 };
    let mut st = Stats::new();
    st.connected = true;
    let mut user = Session::open("a", false, 0);
    let mut dev = None;
    for _ in 0..2 {
        let r = e.step(&mut user, &mut dev, &mut st, &mut rates, Tick { paused: true, ..tick() }, 1);
        assert_eq!(r, (Action::Pause, false));
        assert!(st.paused && st.connected);
    }
    assert_eq!(e.step(&mut user, &mut dev, &mut st, &mut rates, tick(), 1).0, Action::Work);
    assert!(!st.paused);
    assert_eq!(log(&st), vec!["⏸ mining paused".to_string(), "▶ mining resumed".to_string()]);
}

#[test]
fn resting_workers_have_no_rate() {
    let mut e = Engine { fails: 0, dev_retry: 0 };
    let mut st = Stats::new();
    st.connected = true;
    let mut user = Session::open("a", false, 0);
    let mut dev = None;
    let busy = || Rates { total: d(3.5), workers: vec![d(1.5), d(2.0)] };
    let mut rates = busy();
    e.step(&mut user, &mut dev, &mut st, &mut rates, tick(), 1);
    assert_eq!((rates.total, rates.workers), (d(3.5), vec![d(1.5), d(2.0)]));
    for t in [Tick { paused: true, ..tick() }, Tick { active: Some(false), ..tick() }] {
        let mut rates = busy();
        e.step(&mut user, &mut dev, &mut st, &mut rates, t, 1);
        assert_eq!((rates.total, rates.workers), (d(0.0), vec![d(0.0), d(0.0)]));
        assert!(st.connected);
    }
    assert_eq!(Rates::start(3).workers, vec![d(0.0); 3]);
}

#[test]
fn engine_watches_the_session() {
    let mut rates = Rates::start(0);
    let mut e = Engine { fails: 0, dev_retry: 0 };
    let mut st = Stats::new();
    st.connected = true;
    let mut user = Session::open("a", false, 0);
    let mut dev = None;
    let r = e.step(&mut user, &mut dev, &mut st, &mut rates, Tick { read: Incoming::Closed, ..tick() }, 1);
    assert_eq!(r, (Action::Reconnect, false));
    assert!(!st.connected);
    let r = e.step(&mut user, &mut dev, &mut st, &mut rates, Tick { stall: 600 * SECOND, ..tick() }, 90 * SECOND + 1);
    assert_eq!(r.0, Action::Reconnect);
    user.idle = 91 * SECOND;
    let r = e.step(&mut user, &mut dev, &mut st, &mut rates, tick(), 91 * SECOND);
    assert_eq!(r.0, Action::Reconnect);
    assert_eq!(
        log(&st),
        vec![
            "disconnected — reconnecting…".to_string(),
            "no data for 90s — reconnecting…".to_string(),
            "no new job in 90s — resubscribing…".to_string(),
        ]
    );
}

#[test]
fn engine_reopens_the_donation() {
    let mut rates = Rates::start(0);
    let mut e = Engine { fails: 0, dev_retry: 0 };
    let mut st = Stats::new();
    let mut user = Session::open("a", false, 0);
    let mut dev = Some(Session::open("dev", true, 0));
    let t = Tick { dev_read: Incoming::Closed, donating: true, ..tick() };
    assert_eq!(e.step(&mut user, &mut dev, &mut st, &mut rates, t, 5), (Action::Work, false));
    assert!(dev.is_none());
    assert_eq!(e.dev_retry, 5);
    let t = Tick { donating: true, ..tick() };
    assert_eq!(e.step(&mut user, &mut dev, &mut st, &mut rates, t, 5 + 20 * SECOND), (Action::Work, false));
    let t = Tick { donating: true, ..tick() };
    assert_eq!(e.step(&mut user, &mut dev, &mut st, &mut rates, t, 6 + 20 * SECOND), (Action::Work, true));
    assert_eq!(e.dev_retry, 6 + 20 * SECOND);
}

#[test]
fn work_is_chosen() {
    let mut st = Stats::new();
    let mut user = Session::open("a", false, 0);
    let mut dev = Session::open("dev", true, 0);
    assert_eq!(choose_work(true, &None, &user), Choice::Nobody);
    let sub = "{\"id\":1,\"result\":[[],\"0a\",4]}\n";
    user.pump(&mut st, lines(sub), 1);
    user.pump(&mut st, lines(&job_text()), 1);
    assert_eq!(choose_work(true, &None, &user), Choice::Own);
    dev.pump(&mut st, lines(sub), 1);
    dev.pump(&mut st, lines(&job_text()), 1);
    let dev = Some(dev);
    assert_eq!(choose_work(false, &dev, &user), Choice::Own);
    assert_eq!(choose_work(true, &dev, &user), Choice::Donation);
}

#[test]
fn tip_and_target_come_from_the_job() {
    assert_eq!(net_bits(&a_job()), 0x1d00ffff);
    assert_eq!(net_bits(&vec![]), 0);
    let mut s = Session::open("a", false, 0);
    assert!(still_current(&s, "anything"));
    s.job = Some(a_job());
    assert!(still_current(&s, PREV));
    assert!(!still_current(&s, "other"));
    s.job = Some(vec![Json::Null, Json::Null]);
    assert!(still_current(&s, "other"));
}

#[test]
fn winners_are_looked_at_again() {
    let w = work_unit("01020304", &a_job(), 0, 8);
    let c = examine(&w, "00000000".to_string(), 0x1d00ffff);
    assert!(c.hash.is_some());
    assert!(!c.is_block);
    let c = examine(&w, "00000000".to_string(), 0x207fffff);
    assert_eq!(c.is_block, c.hash.unwrap()[0] < 0x80);
    let c = examine(&w, "zz".to_string(), 0x207fffff);
    assert!(c.hash.is_none() && !c.is_block);
    assert!(!judge(c, true).meets_diff);
    let c = examine(&w, "zz".to_string(), 0x207fffff);
    assert!(!judge(c, false).meets_diff);
    let c = examine(&w, "1".to_string(), 0);
    assert!(judge(c, true).meets_diff);
    let c = examine(&w, "1".to_string(), 0);
    assert!(!c.is_block);
    assert!(!judge(c, false).meets_diff);
}

#[test]
fn only_good_winners_are_submitted() {
    let w = work_unit("01020304", &a_job(), 0, 8);
    let won = |s: &str, ok: bool| judge(examine(&w, s.to_string(), 0x1d00ffff), ok);
    let list =
        vec![won("00000001", true), won("00000002", false), won("zz", true), won("00000003", true)];
    let mut s = Session::open("me", false, 0);
    let lines = submit_winners(&mut s, &w, &list, true, 9, 10);
    assert_eq!(lines.len(), 2);
    assert!(lines[0].contains("\"00000001\"") && lines[0].starts_with("{\"id\":101,"));
    assert!(lines[1].contains("\"00000003\"") && lines[1].starts_with("{\"id\":102,"));
    assert_eq!(s.pending.len(), 2);
    assert_eq!(s.pending[1].height, 9);
    let mut t = Session::open("me", false, 0);
    assert!(submit_winners(&mut t, &w, &list, false, 9, 10).is_empty());
    assert!(t.pending.is_empty());
}

#[test]
fn targets_are_compared() {
    let t = |p: &str, donate: f64| Target {
        pool: p.to_string(),
        addr: "a".to_string(),
        worker: "w".to_string(),
        network: "mainnet".to_string(),
        donate: d(donate),
    };
    assert!(!t("p", 2.0).changed(&t("p", 2.0)));
    assert!(!t("p", 0.0).changed(&t("p", -0.0)));
    assert!(t("p", 2.0).changed(&t("p", 3.0)));
    assert!(t("p", 2.0).changed(&t("q", 2.0)));
    assert!(!t("p", 2.0).moved("p", "a"));
    assert!(t("p", 2.0).moved("p", "b"));
}

#[test]
fn history_keeps_the_last_samples() {
    let mut h: VecDeque<u64> = VecDeque::new();
    assert_eq!(peak_and_total(&h), (0, 0));
    for i in 0..520 {
        sample(&mut h, i);
    }
    assert_eq!(h.len(), 512);
    assert_eq!(h[0], 8);
    assert_eq!(recent_samples(&h, 3), vec![517, 518, 519]);
    assert_eq!(recent_samples(&h, 0), vec![519]);
    assert_eq!(peak_and_total(&h), (519, (8..520u128).sum()));
}
