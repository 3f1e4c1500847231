//! What is shown of the selected pool: where it is, and what its services say.

use crate::chirp::{change, changed, standing, tell, told, ChirpInfo, ChirpInfoV, Shown, Standing};
use crate::config::{PoolMode, VERSION};
use crate::controls::Applied;
use crate::double::Double;
use crate::engine::TargetV;
use crate::feeds::{update_of, CarouselInfo, CarouselV, NetStats, NetStatsV};
use crate::grinder::SECOND;
use crate::label::{after, version};
use crate::session::passed;
use crate::settings::{AlertCfg, AlertCfgV};
use crate::stats::{Stats, StatsV};
use crate::system::poll_due;
use vstd::prelude::*;

verus! {

/// What is shown of the selected pool.
#[derive(Debug)]
pub struct Dashboard {
    pub endpoint: String,
    pub network: String,
    pub worker: String,
    pub mode: PoolMode,
    /// The donation in percent.
    pub donate: Double,
    /// Whether the network's numbers are known.
    pub net_ok: bool,
    pub net_miners: u64,
    pub net_ghs: Double,
    pub net_height: u64,
    /// Whether the chain uses BLAKE2b, where that is known.
    pub active: Option<bool>,
    pub activation_height: u64,
    pub blocks_until: u64,
    /// The newest version of the miner.
    pub latest_version: String,
    pub update_available: bool,
    /// The balance of the address in BTC.
    pub balance: Option<Double>,
    pub chirp: Option<ChirpInfo>,
    pub carousel: Option<CarouselInfo>,
    pub alerts: AlertCfg,
}

/// What is shown, by what it holds.
#[verifier::ext_equal]
pub struct DashboardV {
    pub endpoint: Seq<char>,
    pub network: Seq<char>,
    pub worker: Seq<char>,
    pub mode: PoolMode,
    pub donate: Double,
    pub net_ok: bool,
    pub net_miners: u64,
    pub net_ghs: Double,
    pub net_height: u64,
    pub active: Option<bool>,
    pub activation_height: u64,
    pub blocks_until: u64,
    pub latest_version: Seq<char>,
    pub update_available: bool,
    pub balance: Option<Double>,
    pub chirp: Option<ChirpInfoV>,
    pub carousel: Option<CarouselV>,
    pub alerts: AlertCfgV,
}

/// The syndicate, where it is known.
pub open spec fn syndicate(c: Option<ChirpInfo>) -> Option<ChirpInfoV> {
    match c {
        Some(c) => Some(c@),
        None => None,
    }
}

/// The rotation, where it is known.
pub open spec fn rotation(k: Option<CarouselInfo>) -> Option<CarouselV> {
    match k {
        Some(k) => Some(k@),
        None => None,
    }
}

impl View for Dashboard {
    type V = DashboardV;

    open spec fn view(&self) -> DashboardV {
        DashboardV {
            endpoint: self.endpoint@,
            network: self.network@,
            worker: self.worker@,
            mode: self.mode,
            donate: self.donate,
            net_ok: self.net_ok,
            net_miners: self.net_miners,
            net_ghs: self.net_ghs,
            net_height: self.net_height,
            active: self.active,
            activation_height: self.activation_height,
            blocks_until: self.blocks_until,
            latest_version: self.latest_version@,
            update_available: self.update_available,
            balance: self.balance,
            chirp: syndicate(self.chirp),
            carousel: rotation(self.carousel),
            alerts: self.alerts@,
        }
    }
}

/// Before any pool is selected.
pub open spec fn blank() -> DashboardV {
    DashboardV {
        endpoint: Seq::empty(),
        network: Seq::empty(),
        worker: Seq::empty(),
        mode: PoolMode::Lotto,
        donate: Double { bits: 0 },
        net_ok: false,
        net_miners: 0,
        net_ghs: Double { bits: 0 },
        net_height: 0,
        active: None,
        activation_height: 0,
        blocks_until: 0,
        latest_version: Seq::empty(),
        update_available: false,
        balance: None,
        chirp: None,
        carousel: None,
        alerts: AlertCfgV::fresh(),
    }
}

/// After a pool was selected: nothing that another pool said is shown.
pub open spec fn switched(d: DashboardV, t: TargetV, mode: PoolMode, alerts: AlertCfgV) -> DashboardV {
    DashboardV {
        endpoint: t.pool,
        network: t.network,
        worker: t.worker,
        donate: t.donate,
        mode,
        alerts,
        net_ok: false,
        balance: None,
        chirp: None,
        carousel: None,
        ..d
    }
}

/// After the network's numbers were asked for. Without a reply the last ones
/// stay, but no longer count as known.
pub open spec fn network_seen(d: DashboardV, n: Option<NetStatsV>) -> DashboardV {
    match n {
        Some(n) => {
            let e = DashboardV {
                net_ok: true,
                net_miners: n.miners,
                net_ghs: n.ghs,
                net_height: n.height,
                active: n.blake2b_active,
                activation_height: n.activation_height,
                blocks_until: n.blocks_until,
                ..d
            };
            if n.latest.len() == 0 {
                e
            } else {
                DashboardV {
                    latest_version: n.latest,
                    update_available: after(version(n.latest), version(VERSION@)),
                    ..e
                }
            }
        },
        None => DashboardV { net_ok: false, ..d },
    }
}

/// After the rotation came in, unless another mode was selected meanwhile.
pub open spec fn rotation_seen(d: DashboardV, k: CarouselV) -> DashboardV {
    if d.mode == PoolMode::Carousel { DashboardV { carousel: Some(k), ..d } } else { d }
}

/// After the balance came in.
pub open spec fn balance_seen(d: DashboardV, b: Option<Double>) -> DashboardV {
    DashboardV { balance: b, ..d }
}

/// How many members are listed.
pub open spec fn members_shown(d: DashboardV) -> usize {
    match d.chirp {
        Some(c) => c.members.len() as usize,
        None => 0,
    }
}

/// Whose data is followed: the mode that was asked for last, when, and where
/// the user stood then.
#[derive(Clone, Copy, Debug, PartialEq, Eq, Structural)]
pub struct Follower {
    pub last: Option<PoolMode>,
    pub at: u64,
    pub standing: Option<Standing>,
}

/// After a look at the clock: whether a mode's data is to be read, at once where
/// the mode is new and every 15 seconds. In a new mode the user's old standing
/// counts for nothing.
pub open spec fn followed(f: Follower, mode: PoolMode, now: u64) -> (Follower, bool) {
    if f.last != Some(mode) {
        (Follower { last: Some(mode), at: now, standing: None }, true)
    } else if passed(f.at, now) >= 15 * SECOND {
        (Follower { at: now, ..f }, true)
    } else {
        (f, false)
    }
}

/// After the members came in: they are shown, and the user is told what has
/// changed, unless another mode was selected meanwhile.
pub open spec fn members_seen(
    d: DashboardV,
    f: Follower,
    st: StatsV,
    c: ChirpInfoV,
    shown: Shown,
    now: u64,
) -> (DashboardV, Follower, StatsV) {
    if d.mode == PoolMode::Chirp {
        let cur = standing(c.members, st.addr, now);
        (
            DashboardV { chirp: Some(c), ..d },
            Follower { standing: Some(cur), ..f },
            told(st, change(f.standing, cur), shown),
        )
    } else {
        (d, f, st)
    }
}

impl Follower {
    /// Nothing was asked for yet.
    pub fn start(now: u64) -> (r: Follower)
        ensures
            r == (Follower { last: None, at: now, standing: None }),
    {
        Follower { last: None, at: now, standing: None }
    }

    /// Tells whether a mode's data is to be read now.
    pub fn due(&mut self, mode: PoolMode, now: u64) -> (r: bool)
        ensures
            (*final(self), r) == followed(*old(self), mode, now),
    {
        if !poll_due(self.last, mode, self.at, now) {
            return false;
        }
        let known = match self.last {
            Some(m) => m == mode,
            None => false,
        };
        if !known {
            self.standing = None;
        }
        self.last = Some(mode);
        self.at = now;
        true
    }
}

impl Dashboard {
    /// Before any pool is selected.
    pub fn new() -> (r: Dashboard)
        ensures
            r@ == blank(),
    {
        let r = Dashboard {
            endpoint: String::new(),
            network: String::new(),
            worker: String::new(),
            mode: PoolMode::Lotto,
            donate: Double { bits: 0 },
            net_ok: false,
            net_miners: 0,
            net_ghs: Double { bits: 0 },
            net_height: 0,
            active: None,
            activation_height: 0,
            blocks_until: 0,
            latest_version: String::new(),
            update_available: false,
            balance: None,
            chirp: None,
            carousel: None,
            alerts: AlertCfg::new(),
        };
        assert(r@ =~= blank());
        r
    }

    /// Moves on to another pool.
    pub fn switched(&mut self, a: &Applied)
        ensures
            final(self)@ == switched(old(self)@, a.target@, a.mode, a.alerts@),
    {
        let ghost before = self@;
        self.endpoint = a.target.pool.clone();
        self.network = a.target.network.clone();
        self.worker = a.target.worker.clone();
        self.donate = a.target.donate;
        self.mode = a.mode;
        self.alerts = a.alerts.copy();
        self.net_ok = false;
        self.balance = None;
        self.chirp = None;
        self.carousel = None;
        assert(self@ =~= switched(before, a.target@, a.mode, a.alerts@));
    }

    /// How many members are listed.
    pub fn members(&self) -> (r: usize)
        ensures
            r == members_shown(self@),
    {
        match &self.chirp {
            Some(c) => c.members.len(),
            None => 0,
        }
    }

    /// Takes the members over, and tells the user what has changed.
    pub fn take_members(&mut self, c: ChirpInfo, f: &mut Follower, stats: &mut Stats, shown: Shown, now: u64)
        ensures
            (final(self)@, *final(f), final(stats)@) == members_seen(
                old(self)@,
                *old(f),
                old(stats)@,
                c@,
                shown,
                now,
            ),
    {
        let ghost before = self@;
        if self.mode == PoolMode::Chirp {
            let cur = c.standing(stats.addr.as_str(), now);
            tell(stats, changed(f.standing, cur), shown);
            f.standing = Some(cur);
            self.chirp = Some(c);
            assert(self@ =~= DashboardV { chirp: Some(c@), ..before });
        }
    }

    /// Takes the rotation over, unless another mode was selected meanwhile.
    pub fn take_rotation(&mut self, k: CarouselInfo)
        ensures
            final(self)@ == if old(self)@.mode == PoolMode::Carousel {
                DashboardV { carousel: Some(k@), ..old(self)@ }
            } else {
                old(self)@
            },
            final(self)@ == rotation_seen(old(self)@, k@),
    {
        let ghost before = self@;
        if self.mode == PoolMode::Carousel {
            self.carousel = Some(k);
            assert(self@ =~= DashboardV { carousel: Some(k@), ..before });
        }
    }

    /// Takes the network's numbers over.
    pub fn take_network(&mut self, n: Option<NetStats>)
        ensures
            final(self)@ == network_seen(
                old(self)@,
                match n {
                    Some(n) => Some(n@),
                    None => None,
                },
            ),
    {
        let ghost before = self@;
        match n {
            Some(n) => {
                self.net_ok = true;
                self.net_miners = n.miners;
                self.net_ghs = n.ghs;
                self.net_height = n.height;
                self.active = n.blake2b_active;
                self.activation_height = n.activation_height;
                self.blocks_until = n.blocks_until;
                match update_of(n.latest.as_str()) {
                    Some(newer) => {
                        self.update_available = newer;
                        self.latest_version = n.latest;
                    },
                    None => {},
                }
                assert(self@ =~= network_seen(before, Some(n@)));
            },
            None => {
                self.net_ok = false;
                assert(self@ =~= network_seen(before, None));
            },
        }
    }

    /// Takes the balance over.
    pub fn take_balance(&mut self, b: Option<Double>)
        ensures
            final(self)@ == (DashboardV { balance: b, ..old(self)@ }),
            final(self)@ == balance_seen(old(self)@, b),
    {
        let ghost before = self@;
        self.balance = b;
        assert(self@ =~= DashboardV { balance: b, ..before });
    }
}

/// Law: the first look after a change of mode tells the user nothing, whatever
/// was known before.
pub proof fn law_new_mode_tells_nothing(
    d: DashboardV,
    f: Follower,
    st: StatsV,
    c: ChirpInfoV,
    shown: Shown,
    now: u64,
)
    requires
        d.mode == PoolMode::Chirp,
        f.last != Some(d.mode),
    ensures
        ({
            let (g, due) = followed(f, d.mode, now);
            &&& due
            &&& members_seen(d, g, st, c, shown, now).2 == st
            &&& members_seen(d, g, st, c, shown, now).0.chirp == Some(c)
        }),
{
}

/// Law: what an old mode's service says too late is not shown.
pub proof fn law_late_members_are_dropped(
    d: DashboardV,
    t: TargetV,
    mode: PoolMode,
    alerts: AlertCfgV,
    f: Follower,
    st: StatsV,
    c: ChirpInfoV,
    shown: Shown,
    now: u64,
)
    requires
        mode != PoolMode::Chirp,
    ensures
        members_seen(switched(d, t, mode, alerts), f, st, c, shown, now) == (switched(d, t, mode, alerts), f, st),
{
}

/// Law: what the network's service says is shown as it says it; without a reply
/// only that it is not known changes. The pool, its mode and its own data stay.
pub proof fn law_network_numbers_are_shown(d: DashboardV, n: NetStatsV)
    ensures
        ({
            let e = network_seen(d, Some(n));
            &&& e.net_ok
            &&& e.net_miners == n.miners && e.net_ghs == n.ghs && e.net_height == n.height && e.active
                == n.blake2b_active && e.activation_height == n.activation_height && e.blocks_until == n.blocks_until
            &&& n.latest.len() > 0 ==> e.latest_version == n.latest && (e.update_available <==> after(
                version(n.latest),
                version(VERSION@),
            ))
            &&& n.latest.len() == 0 ==> e.latest_version == d.latest_version && e.update_available
                == d.update_available
            &&& e.endpoint == d.endpoint && e.network == d.network && e.mode == d.mode && e.chirp == d.chirp
                && e.carousel == d.carousel && e.balance == d.balance && e.worker == d.worker && e.donate == d.donate
        }),
        network_seen(d, None) == (DashboardV { net_ok: false, ..d }),
{
}

/// Law: a mode's data is read at once where the mode is new, and then every 15
/// seconds.
pub proof fn law_data_is_read_every_15_seconds(f: Follower, mode: PoolMode, now: u64)
    ensures
        followed(f, mode, now).1 <==> f.last != Some(mode) || (f.at <= now && now - f.at >= 15_000_000_000),
        followed(f, mode, now).1 ==> followed(f, mode, now).0.at == now && followed(f, mode, now).0.last == Some(mode),
        !followed(f, mode, now).1 ==> followed(f, mode, now).0 == f,
        f.last == Some(mode) ==> followed(f, mode, now).0.standing == f.standing,
        f.last != Some(mode) ==> followed(f, mode, now).0.standing is None,
{
}

/// Law: members that come in are shown, and the user is told what changed since
/// the last look.
pub proof fn law_members_are_shown_and_compared(
    d: DashboardV,
    f: Follower,
    st: StatsV,
    c: ChirpInfoV,
    shown: Shown,
    now: u64,
)
    requires
        d.mode == PoolMode::Chirp,
    ensures
        members_seen(d, f, st, c, shown, now).0 == (DashboardV { chirp: Some(c), ..d }),
        members_seen(d, f, st, c, shown, now).1.standing == Some(standing(c.members, st.addr, now)),
        members_seen(d, f, st, c, shown, now).2 == told(
            st,
            change(f.standing, standing(c.members, st.addr, now)),
            shown,
        ),
{
}

/// Law: a pool that is selected is what is shown, and what other pools said is
/// gone; what is known of versions stays.
pub proof fn law_selected_pool_is_shown(d: DashboardV, t: TargetV, mode: PoolMode, alerts: AlertCfgV)
    ensures
        ({
            let e = switched(d, t, mode, alerts);
            &&& e.endpoint == t.pool && e.network == t.network && e.worker == t.worker && e.donate == t.donate
            &&& e.mode == mode && e.alerts == alerts
            &&& !e.net_ok && e.balance is None && e.chirp is None && e.carousel is None
            &&& e.latest_version == d.latest_version && e.update_available == d.update_available && e.active
                == d.active
        }),
{
}

/// Law: the rotation is shown in its own mode only, the balance as it came, and
/// neither touches anything else; as many members are counted as are listed.
pub proof fn law_feeds_are_shown(d: DashboardV, k: CarouselV, b: Option<Double>)
    ensures
        d.mode == PoolMode::Carousel ==> rotation_seen(d, k).carousel == Some(k),
        d.mode != PoolMode::Carousel ==> rotation_seen(d, k) == d,
        rotation_seen(d, k).balance == d.balance && rotation_seen(d, k).chirp == d.chirp && rotation_seen(d, k).mode
            == d.mode && rotation_seen(d, k).net_ok == d.net_ok,
        balance_seen(d, b).balance == b,
        balance_seen(d, b).carousel == d.carousel && balance_seen(d, b).chirp == d.chirp && balance_seen(d, b).mode
            == d.mode && balance_seen(d, b).net_ok == d.net_ok,
        d.chirp is None ==> members_shown(d) == 0,
        d.chirp is Some && d.chirp->0.members.len() <= usize::MAX ==> members_shown(d) == d.chirp->0.members.len(),
{
}

/// Law: at the start nothing is known, so nothing is shown.
pub proof fn law_nothing_is_known_at_the_start()
    ensures
        ({
            let d = blank();
            &&& !d.net_ok && d.net_miners == 0 && d.net_height == 0 && d.net_ghs.bits == 0
            &&& d.active is None && d.activation_height == 0 && d.blocks_until == 0
            &&& d.balance is None && d.chirp is None && d.carousel is None
            &&& !d.update_available && d.latest_version.len() == 0
            &&& d.endpoint.len() == 0 && d.worker.len() == 0
        }),
{
}

} // verus!
