use pyblock_miner::chirp::{ChirpInfo, ChirpMember};
use pyblock_miner::clock::{fmt_ago, fmt_ts};
use pyblock_miner::config::{pool_mode, PoolMode};
use pyblock_miner::double::Double;
use pyblock_miner::label::{clean_address, clean_label, clean_worker, is_newer, login, mask_addr};
use pyblock_miner::paint::bar;
use pyblock_miner::target::{floor_pot, hash_le_target, hash_top, nbits_to_target, target_be};

fn d(x: f64) -> Double {
    Double { bits: x.to_bits() }
}

fn f(d: Double) -> f64 {
    f64::from_bits(d.bits)
}

fn hash_diff(h: &[u8; 32]) -> f64 {
    (2f64).powi(96) / (hash_top(h) as f64)
}

#[test]
fn floor_pot_is_log2_floor() {
    assert_eq!(floor_pot(d(1.0)), 0);
    assert_eq!(floor_pot(d(2.0)), 1);
    assert_eq!(floor_pot(d(3.0)), 1);
    assert_eq!(floor_pot(d(4096.0)), 12);
    assert_eq!(floor_pot(d(0.5)), 0);
}

#[test]
fn floor_pot_at_the_edges() {
    assert_eq!(floor_pot(d(0.0)), 0);
    assert_eq!(floor_pot(d(-8.0)), 0);
    assert_eq!(floor_pot(d(f64::NAN)), 0);
    assert_eq!(floor_pot(d(f64::INFINITY)), 63);
    assert_eq!(floor_pot(d(1e300)), 63);
    assert_eq!(floor_pot(d(9.3e18)), 63);
    assert_eq!(floor_pot(d(4.6e18)), 61);
    assert_eq!(floor_pot(d(3000.0)), 11);
    assert_eq!(floor_pot(d(0.9999999999999999)), 0);
}

#[test]
fn share_target_matches_difficulty() {
    let t = target_be(0);
    assert_eq!(&t[..4], &[0, 0, 0, 0]);
    assert!(t[4..].iter().all(|&b| b == 0xff));
    let t1 = target_be(1);
    assert_eq!(t1[4], 0x7f);
    let t12 = target_be(12);
    assert_eq!(&t12[..5], &[0, 0, 0, 0, 0]);
    assert_eq!(t12[5], 0x0f);
}

#[test]
fn share_target_far_out() {
    assert_eq!(target_be(223)[31], 1);
    assert_eq!(target_be(224), [0u8; 32]);
    assert_eq!(target_be(100_000), [0u8; 32]);
}

#[test]
fn nbits_decodes_like_bitcoin() {
    let t = nbits_to_target(0x1d00ffff);
    assert_eq!(&t[..3], &[0, 0, 0]);
    assert_eq!(&t[3..6], &[0x00, 0xff, 0xff]);
    assert!(t[6..].iter().all(|&b| b == 0));
}

#[test]
fn nbits_at_the_edges() {
    assert_eq!(nbits_to_target(0), [0u8; 32]);
    let mut one = [0u8; 32];
    one[31] = 0x12;
    assert_eq!(nbits_to_target(0x01123456), one);
    let mut top = [0u8; 32];
    top[0] = 0x34;
    top[1] = 0x56;
    assert_eq!(nbits_to_target(0x21123456), top);
    assert_eq!(nbits_to_target(0x23123456), [0u8; 32]);
    let mut sign = [0u8; 32];
    sign[29] = 0x7f;
    sign[30] = 0xff;
    sign[31] = 0xff;
    assert_eq!(nbits_to_target(0x03ffffff), sign);
}

#[test]
fn hash_diff_is_monotonic_and_calibrated() {
    let mut h = [0xffu8; 32];
    h[..4].copy_from_slice(&[0, 0, 0, 0]);
    let d1 = hash_diff(&h);
    assert!((d1 - 1.0).abs() < 1e-6, "{}", d1);
    let mut h2 = h;
    h2[4] = 0x7f;
    assert!(hash_diff(&h2) > 1.99 && hash_diff(&h2) < 2.01);
    assert!(hash_le_target(&h, &target_be(0)) && !hash_le_target(&h, &target_be(1)));
}

#[test]
fn equal_hash_meets_target() {
    let t = target_be(7);
    assert!(hash_le_target(&t, &t));
    let mut above = t;
    above[5] = 0xff;
    above[4] = t[4] + 1;
    assert!(!hash_le_target(&above, &t));
    assert_eq!(hash_top(&[0xff; 32]), u128::MAX);
}

#[test]
fn pool_mode_from_port_then_name() {
    assert_eq!(pool_mode("pool.pyblock.xyz:5574", "x"), PoolMode::Chirp);
    assert_eq!(pool_mode("pool.pyblock.xyz:30110", "x"), PoolMode::Carousel);
    assert_eq!(pool_mode("pool.pyblock.xyz:4445", "x"), PoolMode::Lotto);
    assert_eq!(pool_mode("10.0.0.5:3333", "my CHIRP relay"), PoolMode::Chirp);
    assert_eq!(pool_mode("10.0.0.5:3333", "home node"), PoolMode::Custom);
}

#[test]
fn pool_mode_of_other_names() {
    assert_eq!(pool_mode("h:1", "Carrousel two"), PoolMode::Carousel);
    assert_eq!(pool_mode("h:1", "carousel"), PoolMode::Carousel);
    assert_eq!(pool_mode("h:1", "a lotto pool"), PoolMode::Lotto);
    assert_eq!(pool_mode("h:23110", "CHIRP"), PoolMode::Lotto);
    assert_eq!(pool_mode("h:5554", ""), PoolMode::Chirp);
    assert_eq!(pool_mode("h:30000", ""), PoolMode::Carousel);
    assert_eq!(pool_mode("h:23111", ""), PoolMode::Lotto);
    assert_eq!(pool_mode("4445", ""), PoolMode::Lotto);
    assert_eq!(pool_mode("", ""), PoolMode::Custom);
}

#[test]
fn mode_texts() {
    assert_eq!(PoolMode::Carousel.label(), "CAROUSEL");
    assert_eq!(PoolMode::Chirp.icon(), "🌌");
    assert_eq!(PoolMode::Lotto.tagline(), "solo lottery");
    assert_eq!(PoolMode::Custom.payout_short(), "operator's rules");
    assert_eq!(
        PoolMode::Carousel.payout(),
        "you mine independent suppliers' clean templates · finder keeps 96% · supplier 3% · PyBLØCK 1%"
    );
    assert_eq!(PoolMode::default(), PoolMode::Lotto);
}

#[test]
fn version_compare_is_semver() {
    assert!(is_newer("0.2.20", "0.2.19"));
    assert!(is_newer("v0.3.0", "0.2.99"));
    assert!(is_newer("1.0.0", "0.9.9"));
    assert!(!is_newer("0.2.19", "0.2.19"));
    assert!(!is_newer("0.2.18", "0.2.19"));
    assert!(!is_newer("", "0.2.19"));
}

#[test]
fn versions_with_odd_parts() {
    assert!(is_newer(" v1 ", "0.9"));
    assert!(!is_newer("x.y.z", "0.0.0"));
    assert!(is_newer("0.0.1", "x"));
    assert!(!is_newer("0.2.19.5", "0.2.19"));
    assert!(!is_newer("99999999999.0.0", "0.0.1"));
}

#[test]
fn address_masking_and_labels() {
    assert_eq!(mask_addr("bc1qjdqlvwfxum8dh4t5v9mvskdarjvlek2a9g5pw2", false), "bc1qjd…5pw2");
    assert_eq!(mask_addr("bc1qjdqlvwfxum8dh4t5v9mvskdarjvlek2a9g5pw2", true).len(), 42);
    assert_eq!(mask_addr("short", false), "short");
    assert_eq!(clean_label("  Ec1ipse\x1b[31m\u{7f} "), "Ec1ipse[31m");
    assert_eq!(clean_label(&"a".repeat(100)).len(), 40);
}

#[test]
fn masking_at_the_limit() {
    assert_eq!(mask_addr("12345678901234", false), "12345678901234");
    assert_eq!(mask_addr("123456789012345", false), "123456…2345");
    assert_eq!(mask_addr("", false), "");
    assert_eq!(clean_label("ñ\u{85}ü"), "ñü");
    assert_eq!(clean_address("bc1q-\x1b[0m zz"), "bc1q0mzz");
    assert_eq!(clean_address(&"x".repeat(200)).len(), 90);
}

#[test]
fn formatting_helpers() {
    assert_eq!(bar(0, 10), "▱▱▱▱▱▱▱▱▱▱");
    assert_eq!(bar(4, 4), "▰▰▰▰");
    assert_eq!(bar(2, 4), "▰▰▱▱");
    assert_eq!(bar(3, 3), "▰▰▰");
    assert_eq!(fmt_ago(59), "59s");
    assert_eq!(fmt_ago(7200), "2h");
}

#[test]
fn ago_at_the_limits() {
    assert_eq!(fmt_ago(0), "0s");
    assert_eq!(fmt_ago(60), "1m");
    assert_eq!(fmt_ago(3599), "59m");
    assert_eq!(fmt_ago(86_399), "23h");
    assert_eq!(fmt_ago(86_400), "1d");
    assert_eq!(bar(9, 3), "▰▰▰");
    assert_eq!(bar(1, 0), "");
}

#[test]
fn timestamps_and_logins() {
    assert_eq!(fmt_ts(0), "1970-01-01 00:00:00");
    assert_eq!(fmt_ts(1_700_000_000), "2023-11-14 22:13:20");
    assert_eq!(fmt_ts(951_782_400), "2000-02-29 00:00:00");
    assert_eq!(clean_worker("rig #1 (garage)!"), "rig1garage");
    assert_eq!(clean_worker(&"x".repeat(40)).len(), 24);
    assert_eq!(login("bc1qabc", ""), "bc1qabc");
    assert_eq!(login("bc1qabc", "rig1"), "bc1qabc.rig1");
}

#[test]
fn timestamps_across_years() {
    assert_eq!(fmt_ts(86_399), "1970-01-01 23:59:59");
    assert_eq!(fmt_ts(68_169_600), "1972-02-29 00:00:00");
    assert_eq!(fmt_ts(4_107_542_399), "2100-02-28 23:59:59");
    assert_eq!(fmt_ts(4_107_542_400), "2100-03-01 00:00:00");
    assert_eq!(fmt_ts(1_767_225_599), "2025-12-31 23:59:59");
    assert_eq!(fmt_ts(253_402_300_800), "10000-01-01 00:00:00");
}

#[test]
fn chirp_share_math() {
    let mk = |a: &str, w: f64, e: bool| ChirpMember {
        addr: a.into(),
        days: d(0.0),
        power: d(0.0),
        weight: d(w),
        eligible: e,
        last_seen: 0,
    };
    let c = ChirpInfo {
        members: vec![mk("A", 75.0, true), mk("B", 25.0, true), mk("C", 999.0, false)],
        candidates: 0,
        workers: 0,
        blocks: 0,
        hashrate_ths: d(0.0),
        min_days: d(0.0),
        min_power: d(0.0),
        reward_sats: 0,
        height: 0,
        fee_bps: 0,
        fetched: 0,
    };
    let sum: f64 = c.eligible_weights().iter().map(|w| f(*w)).sum();
    assert_eq!(sum, 100.0);
    let pct = |a: &str| c.my_weight(a).map(|w| f(w) / sum * 100.0);
    assert_eq!(pct("B"), Some(25.0));
    assert_eq!(pct("C"), None);
    assert_eq!(pct(""), None);
}

#[test]
fn doubles_compare_as_numbers() {
    for &a in &[0.0, -0.0, 1.0, -1.0, 2.5, 1e-320, -1e-320, 1e300, f64::INFINITY, f64::NEG_INFINITY, f64::NAN] {
        for &b in &[0.0, -0.0, 1.0, -1.0, 2.5, 1e-320, -1e-320, 1e300, f64::INFINITY, f64::NEG_INFINITY, f64::NAN] {
            assert_eq!(d(a).below(d(b)), a < b, "{} < {}", a, b);
            assert_eq!(d(a).equals(d(b)), a == b, "{} == {}", a, b);
        }
    }
}
