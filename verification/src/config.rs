//! Networks, pools and settings.

use crate::text::{
    after_last, begins_with, contains, contains_text, last_part, law_last_part_is_the_end, same, starts_with, to_upper,
    uppercase,
};
use vstd::prelude::*;

verus! {

/// The miner's version.
pub const VERSION: &'static str = "0.2.20";

/// Where the hashrate donation mines.
pub const DONATE_POOL: &'static str = "pool.pyblock.xyz:4445";

/// The address that the donation's session mines to.
pub const DEV_DONATION_ADDR: &'static str = "1PyBLoCKdiaC46vD9CWcmxa3ey2VzSc5Q2";

/// Where the syndicate's members are read.
pub const CHIRP_MINERS: &'static str = "https://pool.pyblock.xyz:8443/chirp_api.php?mode=miners&chain=blake2b";

/// Where the syndicate's numbers are read.
pub const CHIRP_POOL: &'static str = "https://pool.pyblock.xyz:8443/chirp_api.php?mode=pool&chain=blake2b";

/// Where the last reward is read.
pub const CHIRP_COINBASE: &'static str = "https://pool.pyblock.xyz:8443/chirp_api.php?mode=coinbase&chain=blake2b";

/// Where the rotation is read.
pub const CAROUSEL_API: &'static str = "https://b.pyblock.xyz:8443/carousel.php?carrousel=1";

// ---------------------------------------------------------------- networks

/// A network: its name, and whether hashrate is donated there.
#[derive(Debug)]
pub struct NetCfg {
    pub name: &'static str,
    pub donate: bool,
}

/// The network that a name or its short form stands for. Anything else is
/// mainnet.
pub open spec fn network_name(net: Seq<char>) -> Seq<char> {
    if net == "testnet4"@ || net == "testnet"@ || net == "t4"@ {
        "testnet4"@
    } else if net == "regtest"@ || net == "reg"@ {
        "regtest"@
    } else {
        "mainnet"@
    }
}

/// Whether hashrate is donated on a network: only on mainnet.
pub open spec fn donates(net: Seq<char>) -> bool {
    network_name(net) == "mainnet"@
}

/// Looks a network up.
pub fn net_cfg(net: &str) -> (r: NetCfg)
    ensures
        r.name@ == network_name(net@),
        r.donate == donates(net@),
{
    proof {
        lemma_names_differ();
    }
    if same(net, "testnet4") || same(net, "testnet") || same(net, "t4") {
        NetCfg { name: "testnet4", donate: false }
    } else if same(net, "regtest") || same(net, "reg") {
        NetCfg { name: "regtest", donate: false }
    } else {
        NetCfg { name: "mainnet", donate: true }
    }
}

proof fn lemma_names_differ()
    ensures
        "testnet4"@ != "mainnet"@,
        "regtest"@ != "mainnet"@,
        "testnet4"@ != "regtest"@,
        network_name("mainnet"@) == "mainnet"@,
        network_name("testnet4"@) == "testnet4"@,
        network_name("regtest"@) == "regtest"@,
{
    reveal_strlit("testnet4");
    reveal_strlit("mainnet");
    reveal_strlit("regtest");
    reveal_strlit("testnet");
    reveal_strlit("t4");
    reveal_strlit("reg");
    assert("testnet4"@[0] == 't' && "mainnet"@[0] == 'm' && "regtest"@[0] == 'r');
    assert("testnet"@[0] == 't' && "t4"@[0] == 't');
    assert("reg"@.len() == 3 && "regtest"@.len() == 7 && "mainnet"@.len() == 7);
}

/// Law: a network's own name stands for that network.
pub proof fn law_network_names_are_stable(net: Seq<char>)
    ensures
        network_name(network_name(net)) == network_name(net),
{
    lemma_names_differ();
}

/// Whether an address is of a network's kind, as its first characters tell.
pub open spec fn addr_fits(net: Seq<char>, a: Seq<char>) -> bool {
    if net == "testnet4"@ {
        begins_with(a, "tb1"@) || begins_with(a, "m"@) || begins_with(a, "n"@) || begins_with(a, "2"@)
    } else if net == "regtest"@ {
        begins_with(a, "bcrt1"@) || begins_with(a, "m"@) || begins_with(a, "n"@) || begins_with(a, "2"@)
    } else {
        begins_with(a, "bc1"@) || begins_with(a, "1"@) || begins_with(a, "3"@)
    }
}

/// Whether an address is of a network's kind.
pub fn addr_ok(net: &str, a: &str) -> (r: bool)
    ensures
        r == addr_fits(net@, a@),
{
    if same(net, "testnet4") {
        starts_with(a, "tb1") || starts_with(a, "m") || starts_with(a, "n") || starts_with(a, "2")
    } else if same(net, "regtest") {
        starts_with(a, "bcrt1") || starts_with(a, "m") || starts_with(a, "n") || starts_with(a, "2")
    } else {
        starts_with(a, "bc1") || starts_with(a, "1") || starts_with(a, "3")
    }
}

/// Law: a mainnet address is never taken for a test network's, nor the other
/// way round.
pub proof fn law_addresses_tell_mainnet_apart(net: Seq<char>, a: Seq<char>)
    requires
        net == "testnet4"@ || net == "regtest"@,
        addr_fits(net, a),
    ensures
        !addr_fits("mainnet"@, a),
{
    lemma_names_differ();
    reveal_strlit("tb1");
    reveal_strlit("bcrt1");
    reveal_strlit("bc1");
    reveal_strlit("m");
    reveal_strlit("n");
    reveal_strlit("1");
    reveal_strlit("2");
    reveal_strlit("3");
    assert("bcrt1"@[0] == 'b' && "bcrt1"@[2] == 'r');
    assert("bc1"@[0] == 'b' && "bc1"@[2] == '1');
    assert("tb1"@[0] == 't' && "m"@[0] == 'm' && "n"@[0] == 'n' && "2"@[0] == '2' && "1"@[0] == '1' && "3"@[0] == '3');
    if begins_with(a, "bcrt1"@) {
        assert(a.subrange(0, 5)[0] == a[0] && a.subrange(0, 5)[2] == a[2]);
    }
    if begins_with(a, "bc1"@) {
        assert(a.subrange(0, 3)[0] == a[0] && a.subrange(0, 3)[2] == a[2]);
    }
    if begins_with(a, "tb1"@) {
        assert(a.subrange(0, 3)[0] == a[0]);
    }
    if begins_with(a, "m"@) {
        assert(a.subrange(0, 1)[0] == a[0]);
    }
    if begins_with(a, "n"@) {
        assert(a.subrange(0, 1)[0] == a[0]);
    }
    if begins_with(a, "2"@) {
        assert(a.subrange(0, 1)[0] == a[0]);
    }
    if begins_with(a, "1"@) {
        assert(a.subrange(0, 1)[0] == a[0]);
    }
    if begins_with(a, "3"@) {
        assert(a.subrange(0, 1)[0] == a[0]);
    }
}

/// Where a network's statistics are read.
pub open spec fn stats_address(net: Seq<char>) -> Seq<char> {
    if net == "testnet4"@ {
        "https://pool.pyblock.xyz:8443/api/blake_stats_t4.php"@
    } else {
        "https://pool.pyblock.xyz:8443/api/blake_stats.php"@
    }
}

/// Where a network's statistics are read. There is always such a place.
pub fn net_stats_url(net: &str) -> (r: Option<&'static str>)
    ensures
        r is Some,
        r->0@ == stats_address(net@),
{
    if same(net, "testnet4") {
        Some("https://pool.pyblock.xyz:8443/api/blake_stats_t4.php")
    } else {
        Some("https://pool.pyblock.xyz:8443/api/blake_stats.php")
    }
}

/// Where balances on a network are read.
pub open spec fn balance_address(net: Seq<char>) -> Seq<char> {
    if net == "testnet4"@ {
        "https://pool.pyblock.xyz:8443/api/blake_balance_t4.php"@
    } else {
        "https://pool.pyblock.xyz:8443/api/blake_balance.php"@
    }
}

/// Where balances on a network are read.
pub fn net_balance_url(net: &str) -> (r: &'static str)
    ensures
        r@ == balance_address(net@),
{
    if same(net, "testnet4") {
        "https://pool.pyblock.xyz:8443/api/blake_balance_t4.php"
    } else {
        "https://pool.pyblock.xyz:8443/api/blake_balance.php"
    }
}

/// Where an address's balance is read; nowhere without an address.
pub fn balance_query(net: &str, addr: &str) -> (r: Option<String>)
    ensures
        match r {
            Some(url) => addr@.len() > 0 && url@ == balance_address(net@) + "?addr="@ + addr@,
            None => addr@.len() == 0,
        },
{
    if crate::text::chars_of(addr).len() == 0 {
        None
    } else {
        let mut url = net_balance_url(net).to_owned();
        url.append("?addr=");
        url.append(addr);
        Some(url)
    }
}

// ------------------------------------------------------------------- modes

/// What a pool does with the coinbase.
#[derive(Clone, Copy, Debug, Default, PartialEq, Eq, Structural)]
pub enum PoolMode {
    #[default]
    Lotto,
    Chirp,
    Carousel,
    Custom,
}

/// The mode that a port stands for.
pub open spec fn port_mode(port: Seq<char>) -> Option<PoolMode> {
    if port == "5574"@ || port == "5554"@ {
        Some(PoolMode::Chirp)
    } else if port == "30110"@ || port == "30000"@ {
        Some(PoolMode::Carousel)
    } else if port == "4445"@ || port == "23111"@ || port == "23110"@ {
        Some(PoolMode::Lotto)
    } else {
        None
    }
}

/// The mode that a pool's name tells, in whatever case it is written.
pub open spec fn name_mode(name: Seq<char>) -> PoolMode {
    let n = uppercase(name);
    if contains_text(n, "CHIRP"@) {
        PoolMode::Chirp
    } else if contains_text(n, "CAROUSEL"@) || contains_text(n, "CARROUSEL"@) {
        PoolMode::Carousel
    } else if contains_text(n, "LOTTO"@) {
        PoolMode::Lotto
    } else {
        PoolMode::Custom
    }
}

/// A pool's mode: its port tells it, or else its name.
pub open spec fn mode_of(url: Seq<char>, name: Seq<char>) -> PoolMode {
    match port_mode(after_last(url, ':')) {
        Some(m) => m,
        None => name_mode(name),
    }
}

/// Tells a pool's mode.
pub fn pool_mode(url: &str, name: &str) -> (r: PoolMode)
    ensures
        r == mode_of(url@, name@),
{
    let port_s = last_part(url, ':');
    let port = port_s.as_str();
    if same(port, "5574") || same(port, "5554") {
        return PoolMode::Chirp;
    }
    if same(port, "30110") || same(port, "30000") {
        return PoolMode::Carousel;
    }
    if same(port, "4445") || same(port, "23111") || same(port, "23110") {
        return PoolMode::Lotto;
    }
    let n = to_upper(name);
    if contains(n.as_str(), "CHIRP") {
        PoolMode::Chirp
    } else if contains(n.as_str(), "CAROUSEL") || contains(n.as_str(), "CARROUSEL") {
        PoolMode::Carousel
    } else if contains(n.as_str(), "LOTTO") {
        PoolMode::Lotto
    } else {
        PoolMode::Custom
    }
}

impl PoolMode {
    /// The mode's name.
    pub fn label(self) -> (r: &'static str)
        ensures
            r@ == match self {
                PoolMode::Lotto => "LOTTO"@,
                PoolMode::Chirp => "CHIRP"@,
                PoolMode::Carousel => "CAROUSEL"@,
                PoolMode::Custom => "CUSTOM"@,
            },
    {
        match self {
            PoolMode::Lotto => "LOTTO",
            PoolMode::Chirp => "CHIRP",
            PoolMode::Carousel => "CAROUSEL",
            PoolMode::Custom => "CUSTOM",
        }
    }

    /// The mode's sign.
    pub fn icon(self) -> (r: &'static str)
        ensures
            r@ == match self {
                PoolMode::Lotto => "🎰"@,
                PoolMode::Chirp => "🌌"@,
                PoolMode::Carousel => "🎠"@,
                PoolMode::Custom => "⛏"@,
            },
    {
        match self {
            PoolMode::Lotto => "🎰",
            PoolMode::Chirp => "🌌",
            PoolMode::Carousel => "🎠",
            PoolMode::Custom => "⛏",
        }
    }

    /// The mode in a few words.
    pub fn tagline(self) -> (r: &'static str)
        ensures
            r@ == match self {
                PoolMode::Lotto => "solo lottery"@,
                PoolMode::Chirp => "syndicate · weighted split"@,
                PoolMode::Carousel => "rotating clean templates"@,
                PoolMode::Custom => "custom stratum"@,
            },
    {
        match self {
            PoolMode::Lotto => "solo lottery",
            PoolMode::Chirp => "syndicate · weighted split",
            PoolMode::Carousel => "rotating clean templates",
            PoolMode::Custom => "custom stratum",
        }
    }

    /// Who gets paid.
    pub open spec fn payout_text(self) -> Seq<char> {
        match self {
            PoolMode::Lotto => "every block you find pays YOUR address · you keep 99.1% · PyBLØCK fee 0.9%"@,
            PoolMode::Chirp => "every block is split on-chain among ALL eligible miners by weight · 7-day loyalty · fee 0.9%"@,
            PoolMode::Carousel => "you mine independent suppliers' clean templates · finder keeps 96% · supplier 3% · PyBLØCK 1%"@,
            PoolMode::Custom => "payout rules are the pool operator's — check their site"@,
        }
    }

    /// Who gets paid, in one line.
    pub fn payout(self) -> (r: &'static str)
        ensures
            r@ == self.payout_text(),
    {
        match self {
            PoolMode::Lotto => "every block you find pays YOUR address · you keep 99.1% · PyBLØCK fee 0.9%",
            PoolMode::Chirp => "every block is split on-chain among ALL eligible miners by weight · 7-day loyalty · fee 0.9%",
            PoolMode::Carousel => "you mine independent suppliers' clean templates · finder keeps 96% · supplier 3% · PyBLØCK 1%",
            PoolMode::Custom => "payout rules are the pool operator's — check their site",
        }
    }

    /// Who gets paid, in few words.
    pub fn payout_short(self) -> (r: &'static str)
        ensures
            r@ == match self {
                PoolMode::Lotto => "keep 99.1% · fee 0.9%"@,
                PoolMode::Chirp => "weighted split · fee 0.9%"@,
                PoolMode::Carousel => "keep 96% · supplier 3% · fee 1%"@,
                PoolMode::Custom => "operator's rules"@,
            },
    {
        match self {
            PoolMode::Lotto => "keep 99.1% · fee 0.9%",
            PoolMode::Chirp => "weighted split · fee 0.9%",
            PoolMode::Carousel => "keep 96% · supplier 3% · fee 1%",
            PoolMode::Custom => "operator's rules",
        }
    }
}

// --------------------------------------------------------------------- laws

/// Law: the names of the networks. Whatever is no name of a test network is
/// mainnet, and only there hashrate is donated.
pub proof fn law_networks_by_name(net: Seq<char>)
    ensures
        network_name(net) == "testnet4"@ <==> net == "testnet4"@ || net == "testnet"@ || net == "t4"@,
        network_name(net) == "regtest"@ <==> net == "regtest"@ || net == "reg"@,
        network_name(net) == "mainnet"@ || network_name(net) == "testnet4"@ || network_name(net) == "regtest"@,
        donates(net) <==> network_name(net) != "testnet4"@ && network_name(net) != "regtest"@,
{
    lemma_names_differ();
    reveal_strlit("testnet4");
    reveal_strlit("regtest");
    reveal_strlit("testnet");
    reveal_strlit("t4");
    reveal_strlit("reg");
    assert("testnet4"@[0] == 't' && "testnet"@[0] == 't' && "t4"@[0] == 't' && "regtest"@[0] == 'r' && "reg"@[0] == 'r');
}

/// Law: the kind of an address is told by its first characters, on each
/// network.
pub proof fn law_address_kinds(a: Seq<char>)
    ensures
        addr_fits("mainnet"@, a) <==> (a.len() >= 1 && (a[0] == '1' || a[0] == '3')) || (a.len() >= 3 && a[0] == 'b'
            && a[1] == 'c' && a[2] == '1'),
        addr_fits("testnet4"@, a) <==> (a.len() >= 1 && (a[0] == 'm' || a[0] == 'n' || a[0] == '2')) || (a.len() >= 3
            && a[0] == 't' && a[1] == 'b' && a[2] == '1'),
        addr_fits("regtest"@, a) <==> (a.len() >= 1 && (a[0] == 'm' || a[0] == 'n' || a[0] == '2')) || (a.len() >= 5
            && a[0] == 'b' && a[1] == 'c' && a[2] == 'r' && a[3] == 't' && a[4] == '1'),
{
    lemma_names_differ();
    reveal_strlit("tb1");
    reveal_strlit("bcrt1");
    reveal_strlit("bc1");
    reveal_strlit("m");
    reveal_strlit("n");
    reveal_strlit("1");
    reveal_strlit("2");
    reveal_strlit("3");
    lemma_begins_one(a, "m"@);
    lemma_begins_one(a, "n"@);
    lemma_begins_one(a, "1"@);
    lemma_begins_one(a, "2"@);
    lemma_begins_one(a, "3"@);
    if begins_with(a, "bc1"@) {
        let u = a.subrange(0, 3);
        assert(u[0] == a[0] && u[1] == a[1] && u[2] == a[2]);
    }
    if a.len() >= 3 && a[0] == 'b' && a[1] == 'c' && a[2] == '1' {
        assert(a.subrange(0, 3) =~= "bc1"@);
    }
    if begins_with(a, "tb1"@) {
        let u = a.subrange(0, 3);
        assert(u[0] == a[0] && u[1] == a[1] && u[2] == a[2]);
    }
    if a.len() >= 3 && a[0] == 't' && a[1] == 'b' && a[2] == '1' {
        assert(a.subrange(0, 3) =~= "tb1"@);
    }
    if begins_with(a, "bcrt1"@) {
        let u = a.subrange(0, 5);
        assert(u[0] == a[0] && u[1] == a[1] && u[2] == a[2] && u[3] == a[3] && u[4] == a[4]);
    }
    if a.len() >= 5 && a[0] == 'b' && a[1] == 'c' && a[2] == 'r' && a[3] == 't' && a[4] == '1' {
        assert(a.subrange(0, 5) =~= "bcrt1"@);
    }
}

proof fn lemma_begins_one(a: Seq<char>, p: Seq<char>)
    requires
        p.len() == 1,
    ensures
        begins_with(a, p) <==> a.len() >= 1 && a[0] == p[0],
{
    if a.len() >= 1 {
        assert(a.subrange(0, 1)[0] == a[0]);
        if a[0] == p[0] {
            assert(a.subrange(0, 1) =~= p);
        }
    }
}

/// Law: a known port tells a pool's mode whatever its name; with any other port
/// the name tells it, CHIRP before CAROUSEL before LOTTO.
pub proof fn law_ports_tell_the_mode(url: Seq<char>, name: Seq<char>, host: Seq<char>, port: Seq<char>)
    requires
        url == host + seq![':'] + port,
        !port.contains(':'),
    ensures
        port == "5574"@ || port == "5554"@ ==> mode_of(url, name) == PoolMode::Chirp,
        port == "30110"@ || port == "30000"@ ==> mode_of(url, name) == PoolMode::Carousel,
        port == "4445"@ || port == "23111"@ || port == "23110"@ ==> mode_of(url, name) == PoolMode::Lotto,
        ({
            let known = port == "5574"@ || port == "5554"@ || port == "30110"@ || port == "30000"@ || port == "4445"@
                || port == "23111"@ || port == "23110"@;
            let n = uppercase(name);
            &&& !known && contains_text(n, "CHIRP"@) ==> mode_of(url, name) == PoolMode::Chirp
            &&& !known && !contains_text(n, "CHIRP"@) && (contains_text(n, "CAROUSEL"@) || contains_text(
                n,
                "CARROUSEL"@,
            )) ==> mode_of(url, name) == PoolMode::Carousel
            &&& !known && !contains_text(n, "CHIRP"@) && !contains_text(n, "CAROUSEL"@) && !contains_text(
                n,
                "CARROUSEL"@,
            ) ==> mode_of(url, name) == if contains_text(n, "LOTTO"@) { PoolMode::Lotto } else { PoolMode::Custom }
        }),
{
    law_last_part_is_the_end(url, ':');
    let r = after_last(url, ':');
    if r.len() > port.len() {
        assert(r[r.len() - port.len() - 1] == ':');
        assert(r.contains(':'));
    } else if r.len() < port.len() {
        let k = url.len() - r.len() - 1;
        assert(port[k - host.len() - 1] == ':');
        assert(port.contains(':'));
    }
    assert(r =~= port);
    reveal_strlit("5574");
    reveal_strlit("5554");
    reveal_strlit("30110");
    reveal_strlit("30000");
    reveal_strlit("4445");
    reveal_strlit("23111");
    reveal_strlit("23110");
    assert("5574"@[0] == '5' && "5554"@[0] == '5' && "4445"@[0] == '4' && "30110"@[0] == '3' && "30000"@[0] == '3'
        && "23111"@[0] == '2' && "23110"@[0] == '2');
}

/// Law: only testnet4 has its own services; every other network's are those of
/// mainnet.
pub proof fn law_services_by_network(net: Seq<char>)
    ensures
        net == "testnet4"@ ==> stats_address(net) == "https://pool.pyblock.xyz:8443/api/blake_stats_t4.php"@
            && balance_address(net) == "https://pool.pyblock.xyz:8443/api/blake_balance_t4.php"@,
        net != "testnet4"@ ==> stats_address(net) == "https://pool.pyblock.xyz:8443/api/blake_stats.php"@
            && balance_address(net) == "https://pool.pyblock.xyz:8443/api/blake_balance.php"@,
{
}

} // verus!
