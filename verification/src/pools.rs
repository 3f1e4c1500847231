//! The list of pools: the default ones, and those the user added.

use crate::text::same;
use vstd::prelude::*;

verus! {

/// A pool to mine at.
#[derive(Debug)]
pub struct Stratum {
    pub name: String,
    pub url: String,
    pub network: String,
    /// Whether the user added it.
    pub custom: bool,
}

/// A pool by what it holds.
pub struct StratumV {
    pub name: Seq<char>,
    pub url: Seq<char>,
    pub network: Seq<char>,
    pub custom: bool,
}

impl View for Stratum {
    type V = StratumV;

    open spec fn view(&self) -> StratumV {
        StratumV { name: self.name@, url: self.url@, network: self.network@, custom: self.custom }
    }
}

impl Stratum {
    /// A copy of a pool.
    pub fn copy(&self) -> (r: Stratum)
        ensures
            r@ == self@,
    {
        Stratum {
            name: self.name.clone(),
            url: self.url.clone(),
            network: self.network.clone(),
            custom: self.custom,
        }
    }
}

/// The pools of a list.
pub open spec fn pools(v: Seq<Stratum>) -> Seq<StratumV> {
    Seq::new(v.len(), |i: int| v[i]@)
}

/// A default pool.
pub open spec fn preset(name: Seq<char>, url: Seq<char>, network: Seq<char>) -> StratumV {
    StratumV { name, url, network, custom: false }
}

/// The default pools: three on mainnet, and one on each test network.
pub open spec fn presets() -> Seq<StratumV> {
    seq![
        preset("PyBLØCK · LOTTO"@, "pool.pyblock.xyz:4445"@, "mainnet"@),
        preset("PyBLØCK · CHIRP"@, "pool.pyblock.xyz:5574"@, "mainnet"@),
        preset("PyBLØCK · CAROUSEL"@, "pool.pyblock.xyz:30110"@, "mainnet"@),
        preset("PyBLØCK · testnet4"@, "pool.pyblock.xyz:23111"@, "testnet4"@),
        preset("PyBLØCK · regtest"@, "pool.pyblock.xyz:23110"@, "regtest"@),
    ]
}

fn make(name: &str, url: &str, network: &str) -> (r: Stratum)
    ensures
        r@ == preset(name@, url@, network@),
{
    Stratum { name: name.to_owned(), url: url.to_owned(), network: network.to_owned(), custom: false }
}

/// The default pools.
pub fn default_stratums() -> (r: Vec<Stratum>)
    ensures
        pools(r@) == presets(),
{
    let mut r: Vec<Stratum> = Vec::new();
    r.push(make("PyBLØCK · LOTTO", "pool.pyblock.xyz:4445", "mainnet"));
    r.push(make("PyBLØCK · CHIRP", "pool.pyblock.xyz:5574", "mainnet"));
    r.push(make("PyBLØCK · CAROUSEL", "pool.pyblock.xyz:30110", "mainnet"));
    r.push(make("PyBLØCK · testnet4", "pool.pyblock.xyz:23111", "testnet4"));
    r.push(make("PyBLØCK · regtest", "pool.pyblock.xyz:23110", "regtest"));
    assert(pools(r@) =~= presets());
    r
}

// ----------------------------------------------------------------- searching

/// The first pool with a URL, or the length of the list.
pub open spec fn with_url(s: Seq<StratumV>, url: Seq<char>) -> int
    decreases s.len(),
{
    if s.len() == 0 || s[0].url == url { 0 } else { 1 + with_url(s.drop_first(), url) }
}

/// The first pool on a network, or the length of the list.
pub open spec fn on_network(s: Seq<StratumV>, network: Seq<char>) -> int
    decreases s.len(),
{
    if s.len() == 0 || s[0].network == network { 0 } else { 1 + on_network(s.drop_first(), network) }
}

/// Finds the first pool with a URL.
pub fn find_url(v: &Vec<Stratum>, url: &str) -> (r: usize)
    ensures
        r == with_url(pools(v@), url@),
        r <= v@.len(),
{
    let ghost all = pools(v@);
    let mut i: usize = 0;
    assert(all.skip(0) =~= all);
    while i < v.len() && !same(v[i].url.as_str(), url)
        invariant
            i <= v@.len(),
            all == pools(v@),
            with_url(all, url@) == i + with_url(all.skip(i as int), url@),
        decreases v@.len() - i,
    {
        assert(all.skip(i as int)[0] == all[i as int]);
        assert(all.skip(i as int).drop_first() =~= all.skip(i + 1));
        i = i + 1;
    }
    if i < v.len() {
        assert(all.skip(i as int)[0] == all[i as int]);
    }
    i
}

/// Finds the first pool on a network.
pub fn find_network(v: &Vec<Stratum>, network: &str) -> (r: usize)
    ensures
        r == on_network(pools(v@), network@),
        r <= v@.len(),
{
    let ghost all = pools(v@);
    let mut i: usize = 0;
    assert(all.skip(0) =~= all);
    while i < v.len() && !same(v[i].network.as_str(), network)
        invariant
            i <= v@.len(),
            all == pools(v@),
            on_network(all, network@) == i + on_network(all.skip(i as int), network@),
        decreases v@.len() - i,
    {
        assert(all.skip(i as int)[0] == all[i as int]);
        assert(all.skip(i as int).drop_first() =~= all.skip(i + 1));
        i = i + 1;
    }
    if i < v.len() {
        assert(all.skip(i as int)[0] == all[i as int]);
    }
    i
}

// --------------------------------------------------------------- reconciling

/// Whether a list holds a default pool with a URL.
pub open spec fn has_preset(s: Seq<StratumV>, url: Seq<char>) -> bool {
    exists|i: int| 0 <= i < s.len() && !(#[trigger] s[i]).custom && s[i].url == url
}

/// A saved pool brought up to date: a default one takes its name and network
/// from the default with its URL; one that the user added stays.
pub open spec fn refreshed(s: StratumV, defs: Seq<StratumV>) -> StratumV {
    let i = with_url(defs, s.url);
    if s.custom || i >= defs.len() { s } else { StratumV { name: defs[i].name, network: defs[i].network, ..s } }
}

/// A list whose pools are brought up to date.
pub open spec fn all_refreshed(s: Seq<StratumV>, defs: Seq<StratumV>) -> Seq<StratumV> {
    Seq::new(s.len(), |i: int| refreshed(s[i], defs))
}

/// A list with the defaults that it lacked at its end.
pub open spec fn completed(s: Seq<StratumV>, defs: Seq<StratumV>) -> Seq<StratumV>
    decreases defs.len(),
{
    if defs.len() == 0 {
        s
    } else {
        let t = completed(s, defs.drop_last());
        if has_preset(t, defs.last().url) { t } else { t.push(defs.last()) }
    }
}

/// A saved list reconciled with the defaults.
pub open spec fn reconciled(s: Seq<StratumV>) -> Seq<StratumV> {
    completed(all_refreshed(s, presets()), presets())
}

/// The first pool on a network is on it, and none before it is.
pub(crate) proof fn lemma_on_network(s: Seq<StratumV>, network: Seq<char>)
    ensures
        0 <= on_network(s, network) <= s.len(),
        on_network(s, network) < s.len() ==> s[on_network(s, network)].network == network,
        forall|i: int| 0 <= i < on_network(s, network) ==> (#[trigger] s[i]).network != network,
    decreases s.len(),
{
    if s.len() > 0 && s[0].network != network {
        let t = s.drop_first();
        lemma_on_network(t, network);
        assert forall|i: int| 0 <= i < on_network(s, network) implies (#[trigger] s[i]).network != network by {
            if i > 0 {
                assert(s[i] == t[i - 1]);
            }
        }
    }
}

/// The first pool with a URL has it, and none before it does.
pub(crate) proof fn lemma_with_url(s: Seq<StratumV>, url: Seq<char>)
    ensures
        0 <= with_url(s, url) <= s.len(),
        with_url(s, url) < s.len() ==> s[with_url(s, url)].url == url,
        forall|i: int| 0 <= i < with_url(s, url) ==> (#[trigger] s[i]).url != url,
    decreases s.len(),
{
    if s.len() > 0 && s[0].url != url {
        let t = s.drop_first();
        lemma_with_url(t, url);
        assert forall|i: int| 0 <= i < with_url(s, url) implies (#[trigger] s[i]).url != url by {
            if i > 0 {
                assert(t[i - 1].url != url);
            }
        }
    }
}

fn holds_preset(v: &Vec<Stratum>, url: &str) -> (r: bool)
    ensures
        r == has_preset(pools(v@), url@),
{
    let mut i: usize = 0;
    while i < v.len()
        invariant
            i <= v@.len(),
            forall|j: int| 0 <= j < i ==> (#[trigger] pools(v@)[j]).custom || pools(v@)[j].url != url@,
        decreases v@.len() - i,
    {
        if !v[i].custom && same(v[i].url.as_str(), url) {
            assert(!pools(v@)[i as int].custom && pools(v@)[i as int].url == url@);
            return true;
        }
        i = i + 1;
    }
    false
}

/// Brings the default pools of a saved list up to date, and adds those that it
/// lacks. Pools that the user added stay as they are, and every pool keeps its
/// place. Tells whether anything changed.
pub fn reconcile_defaults(v: &mut Vec<Stratum>) -> (changed: bool)
    ensures
        pools(final(v)@) == reconciled(pools(old(v)@)),
        changed == (pools(final(v)@) != pools(old(v)@)),
{
    let defs = default_stratums();
    let ghost all = pools(v@);
    let ghost d = pools(defs@);
    let mut changed = false;
    let mut i: usize = 0;
    while i < v.len()
        invariant
            i <= v@.len(),
            v@.len() == all.len(),
            d == pools(defs@),
            d == presets(),
            forall|j: int| 0 <= j < i ==> #[trigger] pools(v@)[j] == refreshed(all[j], d),
            forall|j: int| i <= j < all.len() ==> #[trigger] pools(v@)[j] == all[j],
            changed == (pools(v@) != all),
        decreases v@.len() - i,
    {
        assert(pools(v@)[i as int] == all[i as int]);
        let ghost was = pools(v@);
        if !v[i].custom {
            let k = find_url(&defs, v[i].url.as_str());
            if k < defs.len() {
                if !same(v[i].name.as_str(), defs[k].name.as_str()) || !same(
                    v[i].network.as_str(),
                    defs[k].network.as_str(),
                ) {
                    let fresh = Stratum {
                        name: defs[k].name.clone(),
                        url: v[i].url.clone(),
                        network: defs[k].network.clone(),
                        custom: false,
                    };
                    v.set(i, fresh);
                    proof {
                        assert(pools(v@)[i as int] != all[i as int]);
                        assert forall|j: int| 0 <= j < all.len() && j != i implies #[trigger] pools(v@)[j] == was[j] by {
                        }
                    }
                    changed = true;
                }
            }
        }
        i = i + 1;
    }
    let ghost fresh = pools(v@);
    assert(fresh =~= all_refreshed(all, presets()));
    let mut n: usize = 0;
    assert(d.take(0).len() == 0);
    while n < defs.len()
        invariant
            n <= defs@.len(),
            d == pools(defs@),
            d == presets(),
            fresh.len() == all.len(),
            v@.len() >= all.len(),
            v@.len() == all.len() ==> pools(v@) == fresh,
            pools(v@) == completed(fresh, d.take(n as int)),
            changed == (pools(v@) != all),
        decreases defs@.len() - n,
    {
        let ghost t = d.take(n + 1);
        assert(t.drop_last() =~= d.take(n as int));
        assert(t.last() == defs@[n as int]@);
        if !holds_preset(v, defs[n].url.as_str()) {
            let ghost was = pools(v@);
            v.push(defs[n].copy());
            assert(pools(v@) =~= was.push(t.last()));
            changed = true;
        }
        n = n + 1;
    }
    assert(d.take(n as int) =~= d);
    changed
}

proof fn lemma_completed_keeps(s: Seq<StratumV>, defs: Seq<StratumV>)
    ensures
        completed(s, defs).len() >= s.len(),
        forall|i: int| 0 <= i < s.len() ==> #[trigger] completed(s, defs)[i] == s[i],
    decreases defs.len(),
{
    if defs.len() > 0 {
        lemma_completed_keeps(s, defs.drop_last());
    }
}

proof fn lemma_completed_has(s: Seq<StratumV>, defs: Seq<StratumV>, k: int)
    requires
        0 <= k < defs.len(),
        forall|j: int| 0 <= j < defs.len() ==> !(#[trigger] defs[j]).custom,
    ensures
        has_preset(completed(s, defs), defs[k].url),
    decreases defs.len(),
{
    let t = completed(s, defs.drop_last());
    let u = completed(s, defs);
    assert(!defs[defs.len() - 1].custom);
    if k < defs.len() - 1 {
        assert forall|j: int| 0 <= j < defs.drop_last().len() implies !(#[trigger] defs.drop_last()[j]).custom by {
            assert(!defs[j].custom);
        }
        lemma_completed_has(s, defs.drop_last(), k);
        let i = choose|i: int| 0 <= i < t.len() && !(#[trigger] t[i]).custom && t[i].url == defs[k].url;
        assert(u[i] == t[i]);
    } else if !has_preset(t, defs.last().url) {
        assert(u[t.len() as int] == defs.last());
    }
}

proof fn lemma_nothing_lacks(s: Seq<StratumV>, defs: Seq<StratumV>)
    requires
        forall|j: int| 0 <= j < defs.len() ==> has_preset(s, (#[trigger] defs[j]).url),
    ensures
        completed(s, defs) == s,
    decreases defs.len(),
{
    if defs.len() > 0 {
        assert forall|j: int| 0 <= j < defs.drop_last().len() implies has_preset(
            s,
            (#[trigger] defs.drop_last()[j]).url,
        ) by {
            assert(has_preset(s, defs[j].url));
        }
        lemma_nothing_lacks(s, defs.drop_last());
        assert(has_preset(s, defs[defs.len() - 1].url));
    }
}

proof fn lemma_presets()
    ensures
        forall|j: int| 0 <= j < presets().len() ==> !(#[trigger] presets()[j]).custom,
        forall|j: int| 0 <= j < presets().len() ==> with_url(presets(), (#[trigger] presets()[j]).url) == j,
{
    let d = presets();
    reveal_strlit("pool.pyblock.xyz:4445");
    reveal_strlit("pool.pyblock.xyz:5574");
    reveal_strlit("pool.pyblock.xyz:30110");
    reveal_strlit("pool.pyblock.xyz:23111");
    reveal_strlit("pool.pyblock.xyz:23110");
    assert(d[0].url[17] == '4' && d[1].url[17] == '5' && d[2].url[17] == '3' && d[3].url[17] == '2' && d[4].url[17]
        == '2');
    assert(d[3].url[21] == '1' && d[4].url[21] == '0');
    assert forall|j: int| 0 <= j < d.len() implies with_url(d, (#[trigger] d[j]).url) == j by {
        lemma_with_url(d, d[j].url);
        let k = with_url(d, d[j].url);
        if k < j {
            assert(d[k].url == d[j].url);
        }
        if j < k {
            assert(d[j].url != d[j].url);
        }
    }
}

/// Law: after reconciling, every default pool is in the list.
pub proof fn law_every_default_is_there(s: Seq<StratumV>, k: int)
    requires
        0 <= k < presets().len(),
    ensures
        has_preset(reconciled(s), presets()[k].url),
{
    lemma_presets();
    lemma_completed_has(all_refreshed(s, presets()), presets(), k);
}

/// Law: reconciling leaves the pools that the user added as they are and
/// where they are, and moves no pool, so that the selected one stays selected.
pub proof fn law_added_pools_stay(s: Seq<StratumV>, i: int)
    requires
        0 <= i < s.len(),
    ensures
        reconciled(s).len() >= s.len(),
        reconciled(s)[i].url == s[i].url,
        s[i].custom ==> reconciled(s)[i] == s[i],
{
    lemma_completed_keeps(all_refreshed(s, presets()), presets());
    assert(reconciled(s)[i] == all_refreshed(s, presets())[i]);
}

/// Law: a reconciled list is up to date. Reconciling it again changes nothing.
pub proof fn law_reconciling_is_done_once(s: Seq<StratumV>)
    ensures
        reconciled(reconciled(s)) == reconciled(s),
{
    let d = presets();
    let t = reconciled(s);
    let a = all_refreshed(s, d);
    lemma_presets();
    lemma_completed_keeps(a, d);
    lemma_added_are_presets(a, d);
    assert forall|i: int| 0 <= i < t.len() implies refreshed(t[i], d) == t[i] by {
        lemma_with_url(d, t[i].url);
        if i < a.len() {
            assert(t[i] == a[i]);
            lemma_with_url(d, s[i].url);
        } else {
            let k = choose|k: int| 0 <= k < d.len() && t[i] == #[trigger] d[k];
            assert(with_url(d, d[k].url) == k);
        }
    }
    assert(all_refreshed(t, d) =~= t);
    assert forall|j: int| 0 <= j < d.len() implies has_preset(t, (#[trigger] d[j]).url) by {
        lemma_completed_has(a, d, j);
    }
    lemma_nothing_lacks(t, d);
}

proof fn lemma_added_are_presets(s: Seq<StratumV>, defs: Seq<StratumV>)
    ensures
        forall|i: int|
            s.len() <= i < completed(s, defs).len() ==> exists|k: int|
                0 <= k < defs.len() && #[trigger] completed(s, defs)[i] == #[trigger] defs[k],
    decreases defs.len(),
{
    if defs.len() > 0 {
        let e = defs.drop_last();
        lemma_added_are_presets(s, e);
        let t = completed(s, e);
        let u = completed(s, defs);
        assert forall|i: int| s.len() <= i < u.len() implies exists|k: int|
            0 <= k < defs.len() && #[trigger] u[i] == #[trigger] defs[k] by {
            if i < t.len() {
                assert(u[i] == t[i]);
                let k = choose|k: int| 0 <= k < e.len() && #[trigger] t[i] == #[trigger] e[k];
                assert(u[i] == defs[k]);
            } else {
                assert(u[i] == defs[defs.len() - 1]);
            }
        }
    }
}

/// Law: the default pools, as the miner ships with them: three on mainnet, one
/// on each test network, and none of them added by the user.
pub proof fn law_defaults()
    ensures
        presets().len() == 5,
        presets()[0].url == "pool.pyblock.xyz:4445"@ && presets()[0].network == "mainnet"@,
        presets()[1].url == "pool.pyblock.xyz:5574"@ && presets()[1].network == "mainnet"@,
        presets()[2].url == "pool.pyblock.xyz:30110"@ && presets()[2].network == "mainnet"@,
        presets()[3].url == "pool.pyblock.xyz:23111"@ && presets()[3].network == "testnet4"@,
        presets()[4].url == "pool.pyblock.xyz:23110"@ && presets()[4].network == "regtest"@,
        forall|i: int| 0 <= i < 5 ==> !(#[trigger] presets()[i]).custom,
{
}

/// Law: a saved default pool takes its name and network from the default with
/// its URL; one whose URL is no longer a default stays as it is.
pub proof fn law_saved_defaults_are_refreshed(s: Seq<StratumV>, i: int)
    requires
        0 <= i < s.len(),
        !s[i].custom,
    ensures
        forall|k: int|
            0 <= k < presets().len() && (#[trigger] presets()[k]).url == s[i].url ==> reconciled(s)[i]
                == presets()[k],
        (forall|k: int| 0 <= k < presets().len() ==> (#[trigger] presets()[k]).url != s[i].url) ==> reconciled(s)[i]
            == s[i],
{
    let d = presets();
    lemma_presets();
    lemma_completed_keeps(all_refreshed(s, d), d);
    assert(reconciled(s)[i] == refreshed(s[i], d));
    lemma_with_url(d, s[i].url);
    assert forall|k: int| 0 <= k < d.len() && (#[trigger] d[k]).url == s[i].url implies reconciled(s)[i] == d[k] by {
        assert(with_url(d, d[k].url) == k);
    }
}

/// Law: reconciling adds defaults that were missing, and nothing else.
pub proof fn law_only_missing_defaults_are_added(s: Seq<StratumV>, i: int)
    requires
        s.len() <= i < reconciled(s).len(),
    ensures
        exists|k: int| 0 <= k < presets().len() && reconciled(s)[i] == #[trigger] presets()[k],
        !has_preset(s, reconciled(s)[i].url),
{
    let a = all_refreshed(s, presets());
    lemma_added_are_presets(a, presets());
    lemma_added_were_missing(a, presets(), i);
    let url = reconciled(s)[i].url;
    if has_preset(s, url) {
        let j = choose|j: int| 0 <= j < s.len() && !(#[trigger] s[j]).custom && s[j].url == url;
        assert(!a[j].custom && a[j].url == url);
    }
    let k = choose|k: int| 0 <= k < presets().len() && #[trigger] completed(a, presets())[i] == #[trigger] presets()[k];
    assert(reconciled(s)[i] == presets()[k]);
}

proof fn lemma_added_were_missing(s: Seq<StratumV>, defs: Seq<StratumV>, i: int)
    requires
        s.len() <= i < completed(s, defs).len(),
    ensures
        !has_preset(s, completed(s, defs)[i].url),
    decreases defs.len(),
{
    if defs.len() > 0 {
        let e = defs.drop_last();
        let t = completed(s, e);
        lemma_completed_keeps(s, e);
        if i < t.len() {
            lemma_added_were_missing(s, e, i);
        } else {
            let url = defs.last().url;
            if has_preset(s, url) {
                let j = choose|j: int| 0 <= j < s.len() && !(#[trigger] s[j]).custom && s[j].url == url;
                assert(t[j] == s[j]);
            }
        }
    }
}

/// Law: a pool is found at its first place, by its URL or by its network; one
/// that is not there is found nowhere.
pub proof fn law_pools_are_found(s: Seq<StratumV>, url: Seq<char>, network: Seq<char>)
    ensures
        with_url(s, url) < s.len() ==> s[with_url(s, url)].url == url,
        with_url(s, url) >= s.len() ==> forall|i: int| 0 <= i < s.len() ==> (#[trigger] s[i]).url != url,
        forall|i: int| 0 <= i < with_url(s, url) < s.len() ==> (#[trigger] s[i]).url != url,
        on_network(s, network) < s.len() ==> s[on_network(s, network)].network == network,
        on_network(s, network) >= s.len() ==> forall|i: int| 0 <= i < s.len() ==> (#[trigger] s[i]).network != network,
        forall|i: int| 0 <= i < on_network(s, network) < s.len() ==> (#[trigger] s[i]).network != network,
{
    lemma_with_url(s, url);
    lemma_on_network(s, network);
}

} // verus!
