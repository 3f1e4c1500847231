//! What the miner reports to the outside: alerts on their way out, the local
//! API, and the lines of a run without a screen.

use crate::config::VERSION;
use crate::json::{entries_map, json_text, json_value, object_text, Entry, JsonV, Scalar};
use crate::settings::AlertCfg;
use crate::stats::{strings, Alert, Stats};
use crate::text::{
    begins_with, blank, chars_of, contains_text, dec, dec_text, law_parts_are_contained, stands_at, sub_chars, trimmed_start,
};
use vstd::prelude::*;
use vstd::utf8::encode_utf8;

verus! {

// ------------------------------------------------------------------- alerts

/// A JSON text to send somewhere.
#[derive(Debug)]
pub struct Post {
    pub url: String,
    pub payload: String,
}

/// The tree of a Telegram message.
pub open spec fn telegram_tree(chat: Seq<char>, title: Seq<char>, body: Seq<char>) -> JsonV {
    JsonV::Object(
        map![
            "chat_id"@ => JsonV::Text(chat),
            "text"@ => JsonV::Text("⛏ pyblockMiner · "@ + title + "\n"@ + body),
        ],
    )
}

/// The message that an alert sends to Telegram; none unless both a token and a
/// chat are set.
pub fn telegram_post(cfg: &AlertCfg, a: &Alert) -> (r: Option<Post>)
    ensures
        match r {
            Some(p) => {
                &&& cfg@.telegram_token.len() > 0 && cfg@.telegram_chat.len() > 0
                &&& p.url@ == "https://api.telegram.org/bot"@ + cfg@.telegram_token + "/sendMessage"@
                &&& p.payload@ == json_text(telegram_tree(cfg@.telegram_chat, a@.title, a@.body))
                &&& json_value(encode_utf8(p.payload@)) == Some(
                    telegram_tree(cfg@.telegram_chat, a@.title, a@.body),
                )
            },
            None => cfg@.telegram_token.len() == 0 || cfg@.telegram_chat.len() == 0,
        },
{
    if cfg.telegram_token.as_str().is_empty() || cfg.telegram_chat.as_str().is_empty() {
        return None;
    }
    let mut url = "https://api.telegram.org/bot".to_owned();
    url.append(cfg.telegram_token.as_str());
    url.append("/sendMessage");
    let mut text = "⛏ pyblockMiner · ".to_owned();
    text.append(a.title.as_str());
    text.append("\n");
    text.append(a.body.as_str());
    let mut e: Vec<(String, Entry)> = Vec::new();
    e.push(("chat_id".to_owned(), Entry::One(Scalar::Text(cfg.telegram_chat.clone()))));
    e.push(("text".to_owned(), Entry::One(Scalar::Text(text))));
    proof {
        reveal_with_fuel(entries_map, 3);
        assert(e@.drop_last().drop_last() =~= Seq::empty());
        assert(entries_map(e@) =~= telegram_tree(cfg@.telegram_chat, a@.title, a@.body)->Object_0);
    }
    Some(Post { url, payload: object_text(&e) })
}

/// The tree of a webhook message.
pub open spec fn webhook_tree(title: Seq<char>, body: Seq<char>, ts: u64) -> JsonV {
    JsonV::Object(
        map![
            "source"@ => JsonV::Text("pyblockMiner"@),
            "version"@ => JsonV::Text(VERSION@),
            "title"@ => JsonV::Text(title),
            "body"@ => JsonV::Text(body),
            "ts"@ => JsonV::Uint(ts),
        ],
    )
}

/// The message that an alert sends to the webhook; none unless it is set.
pub fn webhook_post(cfg: &AlertCfg, a: &Alert, ts: u64) -> (r: Option<Post>)
    ensures
        match r {
            Some(p) => {
                &&& cfg@.webhook_url.len() > 0
                &&& p.url@ == cfg@.webhook_url
                &&& p.payload@ == json_text(webhook_tree(a@.title, a@.body, ts))
                &&& json_value(encode_utf8(p.payload@)) == Some(webhook_tree(a@.title, a@.body, ts))
            },
            None => cfg@.webhook_url.len() == 0,
        },
{
    if cfg.webhook_url.as_str().is_empty() {
        return None;
    }
    let mut e: Vec<(String, Entry)> = Vec::new();
    e.push(("source".to_owned(), Entry::One(Scalar::Text("pyblockMiner".to_owned()))));
    e.push(("version".to_owned(), Entry::One(Scalar::Text(VERSION.to_owned()))));
    e.push(("title".to_owned(), Entry::One(Scalar::Text(a.title.clone()))));
    e.push(("body".to_owned(), Entry::One(Scalar::Text(a.body.clone()))));
    e.push(("ts".to_owned(), Entry::One(Scalar::Uint(ts))));
    proof {
        reveal_with_fuel(entries_map, 6);
        assert(e@.drop_last().drop_last().drop_last().drop_last().drop_last() =~= Seq::empty());
        assert(entries_map(e@) =~= webhook_tree(a@.title, a@.body, ts)->Object_0);
    }
    Some(Post { url: cfg.webhook_url.clone(), payload: object_text(&e) })
}

/// A text with `'` in place of `"`.
pub open spec fn unquoted(s: Seq<char>) -> Seq<char> {
    Seq::new(s.len(), |i: int| if s[i] == '"' { '\'' } else { s[i] })
}

/// Puts `'` in place of `"`.
pub fn unquote(s: &str) -> (r: String)
    ensures
        r@ == unquoted(s@),
{
    let v = chars_of(s);
    let mut r = String::new();
    let mut i: usize = 0;
    assert(r@ =~= unquoted(s@).take(0));
    while i < v.len()
        invariant
            i <= v@.len(),
            v@ == s@,
            r@ == unquoted(s@).take(i as int),
        decreases v@.len() - i,
    {
        let c = if v[i] == '"' { '\'' } else { v[i] };
        r.push(c);
        assert(unquoted(s@).take(i + 1) =~= unquoted(s@).take(i as int).push(c));
        i = i + 1;
    }
    assert(unquoted(s@).take(i as int) =~= unquoted(s@));
    r
}

/// The title that a desktop notification shows.
pub fn desktop_title(a: &Alert) -> (r: String)
    ensures
        r@ == "⛏ "@ + a@.title,
{
    let mut r = "⛏ ".to_owned();
    r.append(a.title.as_str());
    r
}

/// The script that shows a notification on macOS.
pub fn macos_script(a: &Alert) -> (r: String)
    ensures
        r@ == "display notification \""@ + unquoted(a@.body) + "\" with title \"pyblockMiner · "@ + unquoted(a@.title)
            + "\""@,
{
    let mut r = "display notification \"".to_owned();
    r.append(unquote(a.body.as_str()).as_str());
    r.append("\" with title \"pyblockMiner · ");
    r.append(unquote(a.title.as_str()).as_str());
    r.append("\"");
    r
}

/// Law: what is put between quotes in a script cannot end them.
pub proof fn law_quotes_cannot_be_escaped(s: Seq<char>)
    ensures
        !unquoted(s).contains('"'),
{
}

// ------------------------------------------------------------------ metrics

/// What the metrics show. Numbers are given as they are written.
pub struct Metrics {
    pub hashrate: String,
    pub connected: bool,
    pub paused: bool,
    pub blocks: String,
    pub accepted: String,
    pub rejected: String,
    pub best_diff: String,
    pub difficulty: String,
    pub net_hashrate: String,
    pub net_miners: String,
    pub uptime: String,
    pub balance: Option<String>,
    /// The share of a CHIRP block, the candidates and the hashrate.
    pub chirp: Option<(String, String, String)>,
    /// Each worker's name and rate.
    pub workers: Vec<(String, String)>,
}

/// A gauge, as Prometheus reads it.
pub open spec fn gauge(name: Seq<char>, help: Seq<char>, v: Seq<char>) -> Seq<char> {
    "# HELP "@ + name + " "@ + help + "\n# TYPE "@ + name + " gauge\n"@ + name + " "@ + v + "\n"@
}

/// 1 or 0.
pub open spec fn one_zero(b: bool) -> Seq<char> {
    if b { "1"@ } else { "0"@ }
}

/// The gauges that are always there.
pub open spec fn basic_gauges(m: Metrics) -> Seq<char> {
    gauge("pyblock_hashrate_ghs"@, "total hashrate in GH/s"@, m.hashrate@)
        + gauge("pyblock_connected"@, "1 if the stratum session is up"@, one_zero(m.connected))
        + gauge("pyblock_paused"@, "1 if mining is paused"@, one_zero(m.paused))
        + gauge("pyblock_blocks_found"@, "blocks found this session"@, m.blocks@)
        + gauge("pyblock_shares_accepted"@, "shares accepted this session"@, m.accepted@)
        + gauge("pyblock_shares_rejected"@, "shares rejected this session"@, m.rejected@)
        + gauge("pyblock_best_share_diff"@, "best share difficulty this session"@, m.best_diff@)
        + gauge("pyblock_difficulty"@, "current share difficulty"@, m.difficulty@)
        + gauge("pyblock_net_hashrate_ghs"@, "pyblockMiner network hashrate in GH/s"@, m.net_hashrate@)
        + gauge("pyblock_net_miners"@, "pyblockMiner miners online"@, m.net_miners@)
        + gauge("pyblock_uptime_seconds"@, "seconds since first connect"@, m.uptime@)
}

/// The balance's gauge, where it is known.
pub open spec fn balance_gauge(m: Metrics) -> Seq<char> {
    match m.balance {
        Some(b) => gauge("pyblock_balance_btc"@, "address balance on the BLAKE2b chain"@, b@),
        None => Seq::empty(),
    }
}

/// CHIRP's gauges, where they are known.
pub open spec fn chirp_gauges(m: Metrics) -> Seq<char> {
    match m.chirp {
        Some((slice, candidates, rate)) => gauge(
            "pyblock_chirp_slice_pct"@,
            "your share of every CHIRP block (0 if not eligible)"@,
            slice@,
        ) + gauge("pyblock_chirp_candidates"@, "eligible miners in the CHIRP coinbase"@, candidates@) + gauge(
            "pyblock_chirp_hashrate_ths"@,
            "CHIRP syndicate hashrate in TH/s"@,
            rate@,
        ),
        None => Seq::empty(),
    }
}

/// A worker's line.
pub open spec fn worker_line(name: Seq<char>, i: int, rate: Seq<char>) -> Seq<char> {
    "pyblock_worker_hashrate_ghs{worker=\""@ + unquoted(name) + "\",index=\""@ + dec(i as nat) + "\"} "@ + rate
        + "\n"@
}

/// The workers' lines.
pub open spec fn worker_lines(w: Seq<(String, String)>) -> Seq<char>
    decreases w.len(),
{
    if w.len() == 0 {
        Seq::empty()
    } else {
        worker_lines(w.drop_last()) + worker_line(w.last().0@, w.len() - 1, w.last().1@)
    }
}

/// All metrics.
pub open spec fn metrics_of(m: Metrics) -> Seq<char> {
    basic_gauges(m) + balance_gauge(m) + chirp_gauges(m)
        + "# HELP pyblock_worker_hashrate_ghs per-worker hashrate in GH/s\n# TYPE pyblock_worker_hashrate_ghs gauge\n"@
        + worker_lines(m.workers@)
}

fn add_gauge(o: &mut String, name: &str, help: &str, v: &str)
    ensures
        final(o)@ == old(o)@ + gauge(name@, help@, v@),
{
    let ghost before = o@;
    o.append("# HELP ");
    o.append(name);
    o.append(" ");
    o.append(help);
    o.append("\n# TYPE ");
    o.append(name);
    o.append(" gauge\n");
    o.append(name);
    o.append(" ");
    o.append(v);
    o.append("\n");
    assert(o@ =~= before + gauge(name@, help@, v@));
}

fn one_or_zero(b: bool) -> (r: &'static str)
    ensures
        r@ == one_zero(b),
{
    if b { "1" } else { "0" }
}

fn add_worker(o: &mut String, name: &str, i: usize, rate: &str)
    ensures
        final(o)@ == old(o)@ + worker_line(name@, i as int, rate@),
{
    let ghost before = o@;
    o.append("pyblock_worker_hashrate_ghs{worker=\"");
    o.append(unquote(name).as_str());
    o.append("\",index=\"");
    o.append(dec_text(i as u64).as_str());
    o.append("\"} ");
    o.append(rate);
    o.append("\n");
    assert(o@ =~= before + worker_line(name@, i as int, rate@));
}

fn basic_text(m: &Metrics) -> (o: String)
    ensures
        o@ == basic_gauges(*m),
{
    let mut o = String::new();
    add_gauge(&mut o, "pyblock_hashrate_ghs", "total hashrate in GH/s", m.hashrate.as_str());
    assert(Seq::<char>::empty() + o@ =~= o@);
    add_gauge(&mut o, "pyblock_connected", "1 if the stratum session is up", one_or_zero(m.connected));
    add_gauge(&mut o, "pyblock_paused", "1 if mining is paused", one_or_zero(m.paused));
    add_gauge(&mut o, "pyblock_blocks_found", "blocks found this session", m.blocks.as_str());
    add_gauge(&mut o, "pyblock_shares_accepted", "shares accepted this session", m.accepted.as_str());
    add_gauge(&mut o, "pyblock_shares_rejected", "shares rejected this session", m.rejected.as_str());
    add_gauge(&mut o, "pyblock_best_share_diff", "best share difficulty this session", m.best_diff.as_str());
    add_gauge(&mut o, "pyblock_difficulty", "current share difficulty", m.difficulty.as_str());
    add_gauge(
        &mut o,
        "pyblock_net_hashrate_ghs",
        "pyblockMiner network hashrate in GH/s",
        m.net_hashrate.as_str(),
    );
    add_gauge(&mut o, "pyblock_net_miners", "pyblockMiner miners online", m.net_miners.as_str());
    add_gauge(&mut o, "pyblock_uptime_seconds", "seconds since first connect", m.uptime.as_str());
    o
}

/// Writes the metrics.
pub fn metrics_text(m: &Metrics) -> (o: String)
    ensures
        o@ == metrics_of(*m),
{
    let mut o = basic_text(m);
    match &m.balance {
        Some(b) => {
            add_gauge(&mut o, "pyblock_balance_btc", "address balance on the BLAKE2b chain", b.as_str());
        },
        None => {
            assert(o@ + Seq::<char>::empty() =~= o@);
        },
    }
    let ghost mid = o@;
    match &m.chirp {
        Some((slice, candidates, rate)) => {
            add_gauge(
                &mut o,
                "pyblock_chirp_slice_pct",
                "your share of every CHIRP block (0 if not eligible)",
                slice.as_str(),
            );
            add_gauge(
                &mut o,
                "pyblock_chirp_candidates",
                "eligible miners in the CHIRP coinbase",
                candidates.as_str(),
            );
            add_gauge(&mut o, "pyblock_chirp_hashrate_ths", "CHIRP syndicate hashrate in TH/s", rate.as_str());
            assert(o@ =~= mid + chirp_gauges(*m));
        },
        None => {
            assert(o@ + Seq::<char>::empty() =~= o@);
        },
    }
    o.append(
        "# HELP pyblock_worker_hashrate_ghs per-worker hashrate in GH/s\n# TYPE pyblock_worker_hashrate_ghs gauge\n",
    );
    let ghost head = o@;
    let mut i: usize = 0;
    assert(m.workers@.take(0).len() == 0);
    assert(head + Seq::<char>::empty() =~= head);
    while i < m.workers.len()
        invariant
            i <= m.workers@.len(),
            o@ == head + worker_lines(m.workers@.take(i as int)),
        decreases m.workers@.len() - i,
    {
        let ghost w = m.workers@.take(i + 1);
        assert(w.drop_last() =~= m.workers@.take(i as int));
        let ghost before = o@;
        add_worker(&mut o, m.workers[i].0.as_str(), i, m.workers[i].1.as_str());
        assert(o@ =~= head + worker_lines(w));
        i = i + 1;
    }
    assert(m.workers@.take(i as int) =~= m.workers@);
    o
}

// ---------------------------------------------------------------------- API

/// What a request to the local API asks for.
#[derive(Clone, Copy, Debug, PartialEq, Eq, Structural)]
pub enum Route {
    Stats,
    Metrics,
}

/// Where the first blank stands, or the length where there is none.
pub open spec fn first_blank(s: Seq<char>) -> int
    decreases s.len(),
{
    if s.len() == 0 || blank(s[0]) { 0 } else { 1 + first_blank(s.drop_first()) }
}

/// The second word of a text; nothing where there are fewer.
pub open spec fn second_word(s: Seq<char>) -> Seq<char> {
    let t = trimmed_start(s);
    let u = trimmed_start(t.skip(first_blank(t)));
    u.take(first_blank(u))
}

/// What a request asks for: the metrics where its path says so, the statistics
/// otherwise.
pub open spec fn route_of(request: Seq<char>) -> Route {
    if begins_with(second_word(request), "/metrics"@) { Route::Metrics } else { Route::Stats }
}

fn skip_blanks(v: &Vec<char>, from: usize) -> (i: usize)
    requires
        from <= v@.len(),
    ensures
        from <= i <= v@.len(),
        v@.skip(i as int) == trimmed_start(v@.skip(from as int)),
{
    let mut i: usize = from;
    while i < v.len() && crate::text::is_blank(v[i])
        invariant
            from <= i <= v@.len(),
            trimmed_start(v@.skip(from as int)) == trimmed_start(v@.skip(i as int)),
        decreases v@.len() - i,
    {
        assert(v@.skip(i as int)[0] == v@[i as int]);
        assert(v@.skip(i as int).drop_first() =~= v@.skip(i + 1));
        i = i + 1;
    }
    if i < v.len() {
        assert(v@.skip(i as int)[0] == v@[i as int]);
    }
    i
}

fn skip_word(v: &Vec<char>, from: usize) -> (i: usize)
    requires
        from <= v@.len(),
    ensures
        from <= i <= v@.len(),
        i - from == first_blank(v@.skip(from as int)),
{
    let mut i: usize = from;
    while i < v.len() && !crate::text::is_blank(v[i])
        invariant
            from <= i <= v@.len(),
            first_blank(v@.skip(from as int)) == (i - from) + first_blank(v@.skip(i as int)),
        decreases v@.len() - i,
    {
        assert(v@.skip(i as int)[0] == v@[i as int]);
        assert(v@.skip(i as int).drop_first() =~= v@.skip(i + 1));
        i = i + 1;
    }
    if i < v.len() {
        assert(v@.skip(i as int)[0] == v@[i as int]);
    }
    i
}

/// Reads what a request asks for.
pub fn route(request: &str) -> (r: Route)
    ensures
        r == route_of(request@),
{
    let v = chars_of(request);
    assert(v@.skip(0) =~= v@);
    let a = skip_blanks(&v, 0);
    let b = skip_word(&v, a);
    let c = skip_blanks(&v, b);
    let d = skip_word(&v, c);
    let word = sub_chars(&v, c, d);
    proof {
        let t = trimmed_start(v@);
        assert(t.skip(b - a) =~= v@.skip(b as int));
        assert(word@ =~= second_word(request@));
    }
    if crate::text::starts_with(crate::text::string_of(&word).as_str(), "/metrics") {
        Route::Metrics
    } else {
        Route::Stats
    }
}

/// The type of what a route answers.
pub open spec fn content_type(r: Route) -> Seq<char> {
    match r {
        Route::Stats => "application/json"@,
        Route::Metrics => "text/plain; version=0.0.4"@,
    }
}

/// An answer of the local API.
pub open spec fn answer(r: Route, body: Seq<char>) -> Seq<char> {
    "HTTP/1.0 200 OK\r\nContent-Type: "@ + content_type(r)
        + "\r\nAccess-Control-Allow-Origin: *\r\nContent-Length: "@ + dec(encode_utf8(body).len())
        + "\r\nConnection: close\r\n\r\n"@ + body
}

/// Writes an answer of the local API.
pub fn http_answer(r: Route, body: &str) -> (o: String)
    ensures
        o@ == answer(r, body@),
{
    let mut o = "HTTP/1.0 200 OK\r\nContent-Type: ".to_owned();
    match r {
        Route::Stats => o.append("application/json"),
        Route::Metrics => o.append("text/plain; version=0.0.4"),
    }
    o.append("\r\nAccess-Control-Allow-Origin: *\r\nContent-Length: ");
    o.append(dec_text(body.as_bytes().len() as u64).as_str());
    o.append("\r\nConnection: close\r\n\r\n");
    o.append(body);
    o
}

/// Notes where the local API listens, or why it does not.
pub fn api_started(stats: &mut Stats, port: u16, error: Option<&str>)
    ensures
        final(stats)@ == match error {
            Some(e) => old(stats)@.logged("api: cannot bind 127.0.0.1:"@ + dec(port as nat) + " — "@ + e@),
            None => old(stats)@.logged(
                "api: http://127.0.0.1:"@ + dec(port as nat) + "/  (JSON)  ·  /metrics  (Prometheus)"@,
            ),
        },
{
    match error {
        Some(e) => {
            let mut line = "api: cannot bind 127.0.0.1:".to_owned();
            line.append(dec_text(port as u64).as_str());
            line.append(" — ");
            line.append(e);
            stats.logline(line);
        },
        None => {
            let mut line = "api: http://127.0.0.1:".to_owned();
            line.append(dec_text(port as u64).as_str());
            line.append("/  (JSON)  ·  /metrics  (Prometheus)");
            stats.logline(line);
        },
    }
}

// -------------------------------------------------------------- plain output

/// The first line of the log.
pub fn banner(endpoint: &str, login: &str) -> (r: String)
    ensures
        r@ == "pyblockMiner v"@ + VERSION@ + " starting · "@ + endpoint@ + " · login "@ + login@,
{
    let mut r = "pyblockMiner v".to_owned();
    r.append(VERSION);
    r.append(" starting · ");
    r.append(endpoint);
    r.append(" · login ");
    r.append(login);
    r
}

/// The first line of a run without a screen. `donate` is the donation as shown
/// to the user.
pub fn headless_banner(network: &str, pool: &str, addr: &str, donate: &str) -> (r: String)
    ensures
        r@ == "pyblockMiner (headless) · network="@ + network@ + " · pool="@ + pool@ + " · addr="@ + addr@
            + " · donate="@ + donate@ + "%"@,
{
    let mut r = "pyblockMiner (headless) · network=".to_owned();
    r.append(network);
    r.append(" · pool=");
    r.append(pool);
    r.append(" · addr=");
    r.append(addr);
    r.append(" · donate=");
    r.append(donate);
    r.append("%");
    r
}

/// The log lines that a run without a screen has not printed yet, `printed`
/// being how many the log held at the last look.
pub open spec fn unprinted(log: Seq<Seq<char>>, printed: nat) -> Seq<Seq<char>> {
    if log.len() > printed { log.skip(printed as int) } else { Seq::empty() }
}

impl Stats {
    /// The log lines that have not been printed yet.
    pub fn fresh_lines(&self, printed: usize) -> (r: Vec<String>)
        ensures
            strings(r@) == unprinted(self@.log, printed as nat),
    {
        let mut r: Vec<String> = Vec::new();
        let mut i: usize = printed;
        assert(strings(r@) =~= Seq::<Seq<char>>::empty());
        while i < self.log.len()
            invariant
                printed <= i,
                i <= self.log@.len() || r@.len() == 0 && i == printed,
                r@.len() == i - printed,
                forall|j: int| 0 <= j < r@.len() ==> (#[trigger] r@[j])@ == self.log@[printed + j]@,
            decreases self.log@.len() - i,
        {
            r.push(self.log[i].clone());
            i = i + 1;
        }
        assert(strings(r@) =~= unprinted(self@.log, printed as nat));
        r
    }
}

/// A line of status of a run without a screen. `rate` and `best` are the
/// hashrate and the best difficulty as shown to the user.
pub fn status_line(st: &Stats, network: &str, rate: &str, workers: usize, height: u64, best: &str) -> (r: String)
    ensures
        r@ == network@ + " · "@ + (if st@.connected { "LIVE"@ } else { "waiting"@ }) + " · "@ + rate@ + " GH/s ("@
            + dec(workers as nat) + "w) · blocks "@ + dec(st@.blocks as nat) + " · "@ + dec(st@.accepted as nat)
            + " acc (rej "@ + dec(st@.rejected as nat) + ") · net_h "@ + dec(height as nat) + " · best "@ + best@,
{
    let mut r = network.to_owned();
    r.append(" · ");
    r.append(if st.connected { "LIVE" } else { "waiting" });
    r.append(" · ");
    r.append(rate);
    r.append(" GH/s (");
    r.append(dec_text(workers as u64).as_str());
    r.append("w) · blocks ");
    r.append(dec_text(st.blocks).as_str());
    r.append(" · ");
    r.append(dec_text(st.accepted).as_str());
    r.append(" acc (rej ");
    r.append(dec_text(st.rejected).as_str());
    r.append(") · net_h ");
    r.append(dec_text(height).as_str());
    r.append(" · best ");
    r.append(best);
    r
}

// --------------------------------------------------------------------- laws

/// Law: a Telegram message goes to the chat, and holds the title and, at its
/// end, the body.
pub proof fn law_messages_say_what_happened(chat: Seq<char>, title: Seq<char>, body: Seq<char>, ts: u64)
    ensures
        telegram_tree(chat, title, body).field("chat_id"@) == Some(JsonV::Text(chat)),
        telegram_tree(chat, title, body).field("text"@) matches Some(JsonV::Text(t)) && contains_text(t, title)
            && t.len() >= body.len() && t.skip(t.len() - body.len()) == body,
        webhook_tree(title, body, ts).field("title"@) == Some(JsonV::Text(title)),
        webhook_tree(title, body, ts).field("body"@) == Some(JsonV::Text(body)),
        webhook_tree(title, body, ts).field("ts"@) == Some(JsonV::Uint(ts)),
{
    reveal_strlit("chat_id");
    reveal_strlit("text");
    reveal_strlit("source");
    reveal_strlit("version");
    reveal_strlit("title");
    reveal_strlit("body");
    reveal_strlit("ts");
    assert("chat_id"@.len() == 7);
    assert("text"@.len() == 4);
    assert("source"@.len() == 6);
    assert("version"@.len() == 7);
    assert("title"@.len() == 5);
    assert("body"@.len() == 4);
    assert("ts"@.len() == 2);
    let head = "⛏ pyblockMiner · "@;
    let t = head + title + "\n"@ + body;
    law_parts_are_contained(head, title, "\n"@ + body);
    assert(t =~= head + title + ("\n"@ + body));
    assert(t.skip(t.len() - body.len()) =~= body);
}

/// Law: only quotation marks are replaced.
pub proof fn law_only_quotes_are_replaced(s: Seq<char>)
    ensures
        unquoted(s).len() == s.len(),
        forall|i: int| 0 <= i < s.len() && s[i] != '"' ==> #[trigger] unquoted(s)[i] == s[i],
        forall|i: int| 0 <= i < s.len() && s[i] == '"' ==> #[trigger] unquoted(s)[i] == '\'',
{
}

/// Texts one after the other.
pub open spec fn run_on(parts: Seq<Seq<char>>) -> Seq<char>
    decreases parts.len(),
{
    if parts.len() == 0 { Seq::empty() } else { run_on(parts.drop_last()) + parts.last() }
}

proof fn lemma_run_on_holds(parts: Seq<Seq<char>>, k: int, p: Seq<char>)
    requires
        0 <= k < parts.len(),
        contains_text(parts[k], p),
    ensures
        contains_text(run_on(parts), p),
    decreases parts.len(),
{
    let d = parts.drop_last();
    if k < d.len() {
        lemma_run_on_holds(d, k, p);
        lemma_contained_in_sum(run_on(d), parts.last(), p);
    } else {
        lemma_contained_in_sum(run_on(d), parts.last(), p);
    }
}

proof fn lemma_contained_in_sum(x: Seq<char>, y: Seq<char>, p: Seq<char>)
    requires
        contains_text(x, p) || contains_text(y, p),
    ensures
        contains_text(x + y, p),
{
    let s = x + y;
    if contains_text(x, p) {
        let i = choose|i: int| stands_at(x, p, i);
        assert(s.subrange(i, i + p.len()) =~= x.subrange(i, i + p.len()));
        assert(stands_at(s, p, i));
    } else {
        let i = choose|i: int| stands_at(y, p, i);
        let j = x.len() + i;
        assert(s.subrange(j, j + p.len()) =~= y.subrange(i, i + p.len()));
        assert(stands_at(s, p, j));
    }
}

proof fn lemma_gauge_line(name: Seq<char>, help: Seq<char>, v: Seq<char>)
    ensures
        contains_text(gauge(name, help, v), name + " "@ + v + "\n"@),
{
    let head = "# HELP "@ + name + " "@ + help + "\n# TYPE "@ + name + " gauge\n"@;
    lemma_end_is_contained(head, name, " "@, v, "\n"@);
}

proof fn lemma_end_is_contained(a: Seq<char>, b: Seq<char>, c: Seq<char>, d: Seq<char>, e: Seq<char>)
    ensures
        contains_text(a + b + c + d + e, b + c + d + e),
{
    let p = b + c + d + e;
    assert(a + b + c =~= a + (b + c));
    assert(a + (b + c) + d =~= a + (b + c + d));
    assert(a + (b + c + d) + e =~= a + p);
    assert(p.subrange(0, p.len() as int) =~= p);
    assert(stands_at(p, p, 0));
    lemma_contained_in_sum(a, p, p);
}

/// Law: each number stands in the metrics on a line of its own, behind its
/// name.
#[verifier::spinoff_prover]
#[verifier::rlimit(40)]
pub proof fn law_metrics_hold_the_numbers(m: Metrics)
    ensures
        contains_text(metrics_of(m), "pyblock_hashrate_ghs"@ + " "@ + m.hashrate@ + "\n"@),
        contains_text(metrics_of(m), "pyblock_connected"@ + " "@ + (if m.connected { "1"@ } else { "0"@ }) + "\n"@),
        contains_text(metrics_of(m), "pyblock_paused"@ + " "@ + (if m.paused { "1"@ } else { "0"@ }) + "\n"@),
        contains_text(metrics_of(m), "pyblock_blocks_found"@ + " "@ + m.blocks@ + "\n"@),
        contains_text(metrics_of(m), "pyblock_shares_accepted"@ + " "@ + m.accepted@ + "\n"@),
        contains_text(metrics_of(m), "pyblock_shares_rejected"@ + " "@ + m.rejected@ + "\n"@),
        contains_text(metrics_of(m), "pyblock_best_share_diff"@ + " "@ + m.best_diff@ + "\n"@),
        contains_text(metrics_of(m), "pyblock_difficulty"@ + " "@ + m.difficulty@ + "\n"@),
        contains_text(metrics_of(m), "pyblock_net_hashrate_ghs"@ + " "@ + m.net_hashrate@ + "\n"@),
        contains_text(metrics_of(m), "pyblock_net_miners"@ + " "@ + m.net_miners@ + "\n"@),
        contains_text(metrics_of(m), "pyblock_uptime_seconds"@ + " "@ + m.uptime@ + "\n"@),
{
    let parts = seq![
        gauge("pyblock_hashrate_ghs"@, "total hashrate in GH/s"@, m.hashrate@),
        gauge("pyblock_connected"@, "1 if the stratum session is up"@, one_zero(m.connected)),
        gauge("pyblock_paused"@, "1 if mining is paused"@, one_zero(m.paused)),
        gauge("pyblock_blocks_found"@, "blocks found this session"@, m.blocks@),
        gauge("pyblock_shares_accepted"@, "shares accepted this session"@, m.accepted@),
        gauge("pyblock_shares_rejected"@, "shares rejected this session"@, m.rejected@),
        gauge("pyblock_best_share_diff"@, "best share difficulty this session"@, m.best_diff@),
        gauge("pyblock_difficulty"@, "current share difficulty"@, m.difficulty@),
        gauge("pyblock_net_hashrate_ghs"@, "pyblockMiner network hashrate in GH/s"@, m.net_hashrate@),
        gauge("pyblock_net_miners"@, "pyblockMiner miners online"@, m.net_miners@),
        gauge("pyblock_uptime_seconds"@, "seconds since first connect"@, m.uptime@),
        balance_gauge(m),
        chirp_gauges(m),
        "# HELP pyblock_worker_hashrate_ghs per-worker hashrate in GH/s\n# TYPE pyblock_worker_hashrate_ghs gauge\n"@,
        worker_lines(m.workers@),
    ];
    lemma_metrics_run_on(m, parts);
    lemma_gauge_line("pyblock_hashrate_ghs"@, "total hashrate in GH/s"@, m.hashrate@);
    lemma_gauge_line("pyblock_connected"@, "1 if the stratum session is up"@, one_zero(m.connected));
    lemma_gauge_line("pyblock_paused"@, "1 if mining is paused"@, one_zero(m.paused));
    lemma_gauge_line("pyblock_blocks_found"@, "blocks found this session"@, m.blocks@);
    lemma_gauge_line("pyblock_shares_accepted"@, "shares accepted this session"@, m.accepted@);
    lemma_gauge_line("pyblock_shares_rejected"@, "shares rejected this session"@, m.rejected@);
    lemma_gauge_line("pyblock_best_share_diff"@, "best share difficulty this session"@, m.best_diff@);
    lemma_gauge_line("pyblock_difficulty"@, "current share difficulty"@, m.difficulty@);
    lemma_gauge_line("pyblock_net_hashrate_ghs"@, "pyblockMiner network hashrate in GH/s"@, m.net_hashrate@);
    lemma_gauge_line("pyblock_net_miners"@, "pyblockMiner miners online"@, m.net_miners@);
    lemma_gauge_line("pyblock_uptime_seconds"@, "seconds since first connect"@, m.uptime@);
    lemma_run_on_holds(parts, 0, "pyblock_hashrate_ghs"@ + " "@ + m.hashrate@ + "\n"@);
    lemma_run_on_holds(parts, 1, "pyblock_connected"@ + " "@ + one_zero(m.connected) + "\n"@);
    lemma_run_on_holds(parts, 2, "pyblock_paused"@ + " "@ + one_zero(m.paused) + "\n"@);
    lemma_run_on_holds(parts, 3, "pyblock_blocks_found"@ + " "@ + m.blocks@ + "\n"@);
    lemma_run_on_holds(parts, 4, "pyblock_shares_accepted"@ + " "@ + m.accepted@ + "\n"@);
    lemma_run_on_holds(parts, 5, "pyblock_shares_rejected"@ + " "@ + m.rejected@ + "\n"@);
    lemma_run_on_holds(parts, 6, "pyblock_best_share_diff"@ + " "@ + m.best_diff@ + "\n"@);
    lemma_run_on_holds(parts, 7, "pyblock_difficulty"@ + " "@ + m.difficulty@ + "\n"@);
    lemma_run_on_holds(parts, 8, "pyblock_net_hashrate_ghs"@ + " "@ + m.net_hashrate@ + "\n"@);
    lemma_run_on_holds(parts, 9, "pyblock_net_miners"@ + " "@ + m.net_miners@ + "\n"@);
    lemma_run_on_holds(parts, 10, "pyblock_uptime_seconds"@ + " "@ + m.uptime@ + "\n"@);
}

/// Law: the balance and the syndicate's numbers stand in the metrics where they
/// are known.
#[verifier::spinoff_prover]
pub proof fn law_metrics_hold_what_is_known(m: Metrics)
    ensures
        m.balance matches Some(b) ==> contains_text(metrics_of(m), "pyblock_balance_btc"@ + " "@ + b@ + "\n"@),
        m.chirp matches Some((slice, candidates, rate)) ==> {
            &&& contains_text(metrics_of(m), "pyblock_chirp_slice_pct"@ + " "@ + slice@ + "\n"@)
            &&& contains_text(metrics_of(m), "pyblock_chirp_candidates"@ + " "@ + candidates@ + "\n"@)
            &&& contains_text(metrics_of(m), "pyblock_chirp_hashrate_ths"@ + " "@ + rate@ + "\n"@)
        },
{
    let head =
        "# HELP pyblock_worker_hashrate_ghs per-worker hashrate in GH/s\n# TYPE pyblock_worker_hashrate_ghs gauge\n"@;
    let parts = seq![basic_gauges(m), balance_gauge(m), chirp_gauges(m), head, worker_lines(m.workers@)];
    lemma_five_run_on(basic_gauges(m), balance_gauge(m), chirp_gauges(m), head, worker_lines(m.workers@));
    if let Some(b) = m.balance {
        lemma_gauge_line("pyblock_balance_btc"@, "address balance on the BLAKE2b chain"@, b@);
        lemma_run_on_holds(parts, 1, "pyblock_balance_btc"@ + " "@ + b@ + "\n"@);
    }
    if let Some((slice, candidates, rate)) = m.chirp {
        let g1 = gauge("pyblock_chirp_slice_pct"@, "your share of every CHIRP block (0 if not eligible)"@, slice@);
        let g2 = gauge("pyblock_chirp_candidates"@, "eligible miners in the CHIRP coinbase"@, candidates@);
        let g3 = gauge("pyblock_chirp_hashrate_ths"@, "CHIRP syndicate hashrate in TH/s"@, rate@);
        lemma_gauge_line("pyblock_chirp_slice_pct"@, "your share of every CHIRP block (0 if not eligible)"@, slice@);
        lemma_gauge_line("pyblock_chirp_candidates"@, "eligible miners in the CHIRP coinbase"@, candidates@);
        lemma_gauge_line("pyblock_chirp_hashrate_ths"@, "CHIRP syndicate hashrate in TH/s"@, rate@);
        let p1 = "pyblock_chirp_slice_pct"@ + " "@ + slice@ + "\n"@;
        let p2 = "pyblock_chirp_candidates"@ + " "@ + candidates@ + "\n"@;
        let p3 = "pyblock_chirp_hashrate_ths"@ + " "@ + rate@ + "\n"@;
        lemma_contained_in_sum(g1, g2, p1);
        lemma_contained_in_sum(g1, g2, p2);
        lemma_contained_in_sum(g1 + g2, g3, p1);
        lemma_contained_in_sum(g1 + g2, g3, p2);
        lemma_contained_in_sum(g1 + g2, g3, p3);
        lemma_run_on_holds(parts, 2, p1);
        lemma_run_on_holds(parts, 2, p2);
        lemma_run_on_holds(parts, 2, p3);
    }
}

/// Law: every worker has a line with its name, its number and its rate.
#[verifier::spinoff_prover]
pub proof fn law_metrics_hold_the_workers(m: Metrics, i: int)
    requires
        0 <= i < m.workers@.len(),
    ensures
        contains_text(
            metrics_of(m),
            "pyblock_worker_hashrate_ghs{worker=\""@ + unquoted(m.workers@[i].0@) + "\",index=\""@ + dec(i as nat)
                + "\"} "@ + m.workers@[i].1@ + "\n"@,
        ),
{
    let head =
        "# HELP pyblock_worker_hashrate_ghs per-worker hashrate in GH/s\n# TYPE pyblock_worker_hashrate_ghs gauge\n"@;
    let parts = seq![basic_gauges(m), balance_gauge(m), chirp_gauges(m), head, worker_lines(m.workers@)];
    lemma_five_run_on(basic_gauges(m), balance_gauge(m), chirp_gauges(m), head, worker_lines(m.workers@));
    lemma_worker_lines_hold(m.workers@, i);
    lemma_run_on_holds(parts, 4, worker_line(m.workers@[i].0@, i, m.workers@[i].1@));
}

proof fn lemma_worker_lines_hold(w: Seq<(String, String)>, i: int)
    requires
        0 <= i < w.len(),
    ensures
        contains_text(worker_lines(w), worker_line(w[i].0@, i, w[i].1@)),
    decreases w.len(),
{
    let d = w.drop_last();
    let line = worker_line(w.last().0@, w.len() - 1, w.last().1@);
    let p = worker_line(w[i].0@, i, w[i].1@);
    if i < d.len() {
        lemma_worker_lines_hold(d, i);
        lemma_contained_in_sum(worker_lines(d), line, p);
    } else {
        law_parts_are_contained(worker_lines(d), line, Seq::empty());
        assert(worker_lines(d) + line + Seq::empty() =~= worker_lines(w));
    }
}

proof fn lemma_five_run_on(a: Seq<char>, b: Seq<char>, c: Seq<char>, d: Seq<char>, e: Seq<char>)
    ensures
        run_on(seq![a, b, c, d, e]) == a + b + c + d + e,
{
    let none = Seq::<Seq<char>>::empty();
    lemma_run_on_grows(none, a);
    lemma_run_on_grows(none.push(a), b);
    lemma_run_on_grows(none.push(a).push(b), c);
    lemma_run_on_grows(none.push(a).push(b).push(c), d);
    lemma_run_on_grows(none.push(a).push(b).push(c).push(d), e);
    assert(Seq::<char>::empty() + a =~= a);
    assert(seq![a, b, c, d, e] =~= none.push(a).push(b).push(c).push(d).push(e));
}

proof fn lemma_run_on_grows(parts: Seq<Seq<char>>, x: Seq<char>)
    ensures
        run_on(parts.push(x)) == run_on(parts) + x,
{
    assert(parts.push(x).drop_last() =~= parts);
}

/// Law: a request asks for the metrics exactly where its second word, the path,
/// begins with `/metrics`.
pub proof fn law_paths_choose_the_answer(verb: Seq<char>, path: Seq<char>, rest: Seq<char>)
    requires
        verb.len() > 0,
        path.len() > 0,
        forall|i: int| 0 <= i < verb.len() ==> !blank(#[trigger] verb[i]),
        forall|i: int| 0 <= i < path.len() ==> !blank(#[trigger] path[i]),
    ensures
        second_word(verb + seq![' '] + (path + seq![' '] + rest)) == path,
        route_of(verb + seq![' '] + (path + seq![' '] + rest)) == Route::Metrics <==> begins_with(path, "/metrics"@),
{
    let u = path + seq![' '] + rest;
    let s = verb + seq![' '] + u;
    assert(s.take(verb.len() as int) =~= verb);
    assert(u.take(path.len() as int) =~= path);
    lemma_first_blank(s, verb);
    lemma_first_blank(u, path);
    assert(s[0] == verb[0]);
    assert(u[0] == path[0]);
    let t = s.skip(verb.len() as int);
    assert(t[0] == ' ');
    assert(t.drop_first() =~= u);
    assert(trimmed_start(t) == trimmed_start(u));
}

proof fn lemma_first_blank(s: Seq<char>, w: Seq<char>)
    requires
        w.len() < s.len(),
        s.take(w.len() as int) == w,
        blank(s[w.len() as int]),
        forall|i: int| 0 <= i < w.len() ==> !blank(#[trigger] w[i]),
    ensures
        first_blank(s) == w.len(),
    decreases w.len(),
{
    if w.len() > 0 {
        assert(s[0] == s.take(w.len() as int)[0]);
        assert(!blank(w[0]));
        let d = w.drop_first();
        assert(s.drop_first().take(d.len() as int) =~= d) by {
            assert forall|i: int| 0 <= i < d.len() implies s.drop_first()[i] == d[i] by {
                assert(s.take(w.len() as int)[i + 1] == w[i + 1]);
            }
        }
        assert forall|i: int| 0 <= i < d.len() implies !blank(#[trigger] d[i]) by {
            assert(!blank(w[i + 1]));
        }
        lemma_first_blank(s.drop_first(), d);
    }
}

/// Law: an answer ends with the body, and its head tells the body's type and
/// its length in bytes.
pub proof fn law_answers_carry_the_body(r: Route, body: Seq<char>)
    ensures
        answer(r, body).len() >= body.len(),
        answer(r, body).skip(answer(r, body).len() - body.len()) == body,
        contains_text(answer(r, body), "Content-Length: "@ + dec(encode_utf8(body).len()) + "\r\n"@),
        r == Route::Stats ==> contains_text(answer(r, body), "Content-Type: application/json\r\n"@),
        r == Route::Metrics ==> contains_text(answer(r, body), "Content-Type: text/plain; version=0.0.4\r\n"@),
{
    let s = answer(r, body);
    assert(s.skip(s.len() - body.len()) =~= body);
    let n = dec(encode_utf8(body).len());
    reveal_strlit("HTTP/1.0 200 OK\r\nContent-Type: ");
    reveal_strlit("\r\nAccess-Control-Allow-Origin: *\r\nContent-Length: ");
    reveal_strlit("\r\nConnection: close\r\n\r\n");
    reveal_strlit("Content-Length: ");
    reveal_strlit("\r\n");
    reveal_strlit("application/json");
    reveal_strlit("text/plain; version=0.0.4");
    reveal_strlit("Content-Type: application/json\r\n");
    reveal_strlit("Content-Type: text/plain; version=0.0.4\r\n");
    let head = "HTTP/1.0 200 OK\r\nContent-Type: "@;
    let mid = "\r\nAccess-Control-Allow-Origin: *\r\nContent-Length: "@;
    let p = "Content-Length: "@ + n + "\r\n"@;
    let i = head.len() + content_type(r).len() + mid.len() - 16;
    assert(s.subrange(i, i + p.len()) =~= p);
    assert(stands_at(s, p, i));
    let q = if r == Route::Stats {
        "Content-Type: application/json\r\n"@
    } else {
        "Content-Type: text/plain; version=0.0.4\r\n"@
    };
    assert(s.subrange(17, 17int + q.len()) =~= q);
    assert(stands_at(s, q, 17));
}

/// Law: the lines that were not printed yet are the newest ones, in order, and
/// none is printed twice.
pub proof fn law_each_line_is_printed_once(log: Seq<Seq<char>>, printed: nat)
    ensures
        printed <= log.len() ==> log.take(printed as int) + unprinted(log, printed) == log,
        printed >= log.len() ==> unprinted(log, printed).len() == 0,
{
    if printed <= log.len() {
        assert(log.take(printed as int) + unprinted(log, printed) =~= log);
    }
}

proof fn lemma_metrics_run_on(m: Metrics, parts: Seq<Seq<char>>)
    requires
        parts == seq![
            gauge("pyblock_hashrate_ghs"@, "total hashrate in GH/s"@, m.hashrate@),
            gauge("pyblock_connected"@, "1 if the stratum session is up"@, one_zero(m.connected)),
            gauge("pyblock_paused"@, "1 if mining is paused"@, one_zero(m.paused)),
            gauge("pyblock_blocks_found"@, "blocks found this session"@, m.blocks@),
            gauge("pyblock_shares_accepted"@, "shares accepted this session"@, m.accepted@),
            gauge("pyblock_shares_rejected"@, "shares rejected this session"@, m.rejected@),
            gauge("pyblock_best_share_diff"@, "best share difficulty this session"@, m.best_diff@),
            gauge("pyblock_difficulty"@, "current share difficulty"@, m.difficulty@),
            gauge("pyblock_net_hashrate_ghs"@, "pyblockMiner network hashrate in GH/s"@, m.net_hashrate@),
            gauge("pyblock_net_miners"@, "pyblockMiner miners online"@, m.net_miners@),
            gauge("pyblock_uptime_seconds"@, "seconds since first connect"@, m.uptime@),
            balance_gauge(m),
            chirp_gauges(m),
            "# HELP pyblock_worker_hashrate_ghs per-worker hashrate in GH/s\n# TYPE pyblock_worker_hashrate_ghs gauge\n"@,
            worker_lines(m.workers@),
        ],
    ensures
        run_on(parts) == metrics_of(m),
{
    assert(run_on(parts.take(0)) =~= Seq::<char>::empty());
    assert(Seq::<char>::empty() + parts[0] =~= parts[0]);
    lemma_run_on_front(parts, 1);
    lemma_run_on_front(parts, 2);
    lemma_run_on_front(parts, 3);
    lemma_run_on_front(parts, 4);
    lemma_run_on_front(parts, 5);
    lemma_run_on_front(parts, 6);
    lemma_run_on_front(parts, 7);
    lemma_run_on_front(parts, 8);
    lemma_run_on_front(parts, 9);
    lemma_run_on_front(parts, 10);
    lemma_run_on_front(parts, 11);
    lemma_run_on_front(parts, 12);
    lemma_run_on_front(parts, 13);
    lemma_run_on_front(parts, 14);
    lemma_run_on_front(parts, 15);
    assert(parts.take(15) =~= parts);
}

proof fn lemma_run_on_front(parts: Seq<Seq<char>>, n: int)
    requires
        0 < n <= parts.len(),
    ensures
        run_on(parts.take(n)) == run_on(parts.take(n - 1)) + parts[n - 1],
{
    assert(parts.take(n) =~= parts.take(n - 1).push(parts[n - 1]));
    lemma_run_on_grows(parts.take(n - 1), parts[n - 1]);
}

} // verus!
