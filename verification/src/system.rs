//! Files, processes and sockets: what is decided about them.

use crate::clock::{date_of, fmt_ts, stamp};
use crate::config::{PoolMode, VERSION};
use crate::grinder::SECOND;
use crate::session::{passed, since};
use crate::stats::strings;
use crate::text::{
    cat2, cat3, cat5, chars_of, split_chars, split_text, string_of, texts, to_upper, trim_chars, trimmed, uppercase,
};
use vstd::prelude::*;

verus! {

// -------------------------------------------------------------------- files

/// A text that may be there.
pub open spec fn maybe(s: Option<&str>) -> Option<Seq<char>> {
    match s {
        Some(t) => Some(t@),
        None => None,
    }
}

/// The directory that the settings' directory is in, as the environment tells:
/// `XDG_CONFIG_HOME`, `APPDATA`, or `.config` under the home directory; the
/// working directory where it tells nothing.
pub open spec fn config_home(
    xdg: Option<Seq<char>>,
    appdata: Option<Seq<char>>,
    home: Option<Seq<char>>,
    profile: Option<Seq<char>>,
) -> Seq<char> {
    match (xdg, appdata, home, profile) {
        (Some(d), _, _, _) => d,
        (None, Some(d), _, _) => d,
        (None, None, Some(h), _) => h + "/.config"@,
        (None, None, None, Some(h)) => h + "/.config"@,
        (None, None, None, None) => "."@,
    }
}

/// The directory that the settings' directory is in.
pub fn config_base(
    xdg: Option<&str>,
    appdata: Option<&str>,
    home: Option<&str>,
    profile: Option<&str>,
) -> (r: String)
    ensures
        r@ == config_home(maybe(xdg), maybe(appdata), maybe(home), maybe(profile)),
{
    match (xdg, appdata, home, profile) {
        (Some(d), _, _, _) => d.to_owned(),
        (None, Some(d), _, _) => d.to_owned(),
        (None, None, Some(h), _) => cat2(h, "/.config"),
        (None, None, None, Some(h)) => cat2(h, "/.config"),
        (None, None, None, None) => ".".to_owned(),
    }
}

/// The first directory that holds a kernel; the working directory where none
/// does. Each is given with whether it holds one.
pub open spec fn kernel_home(c: Seq<(String, bool)>) -> Seq<char>
    decreases c.len(),
{
    if c.len() == 0 {
        "."@
    } else if c[0].1 {
        c[0].0@
    } else {
        kernel_home(c.drop_first())
    }
}

/// The first directory that holds a kernel.
pub fn kernel_dir(c: &Vec<(String, bool)>) -> (r: String)
    ensures
        r@ == kernel_home(c@),
{
    let mut i: usize = 0;
    assert(c@.skip(0) =~= c@);
    while i < c.len()
        invariant
            i <= c@.len(),
            kernel_home(c@) == kernel_home(c@.skip(i as int)),
        decreases c@.len() - i,
    {
        assert(c@.skip(i as int)[0] == c@[i as int]);
        assert(c@.skip(i as int).drop_first() =~= c@.skip(i + 1));
        if c[i].1 {
            return c[i].0.clone();
        }
        i = i + 1;
    }
    ".".to_owned()
}

/// The name of the grinder's program.
pub fn grinder_file(macos: bool, suffix: &str) -> (r: String)
    ensures
        r@ == (if macos { "metal_grind"@ } else { "gpu_grind"@ }) + suffix@,
{
    cat2(if macos { "metal_grind" } else { "gpu_grind" }, suffix)
}

/// Whether the log file has grown so large that a new one is begun.
pub fn log_is_full(bytes: u64) -> (r: bool)
    ensures
        r == (bytes > 5_000_000),
{
    bytes > 5_000_000
}

/// A line of the log file: the time, and what was logged.
pub fn log_entry(t: u64, line: &str) -> (r: String)
    ensures
        r@ == stamp(date_of(t as int / 86_400), t as int % 86_400) + "  "@ + line@,
{
    cat3(fmt_ts(t).as_str(), "  ", line)
}

/// A line of the file that holds generated keys.
pub fn key_entry(net: &str, addr: &str, wif: &str) -> (r: String)
    ensures
        r@ == net@ + "\t"@ + addr@ + "\t"@ + wif@ + "\n"@,
{
    let mut r = cat5(net, "\t", addr, "\t", wif);
    r.append("\n");
    r
}

/// What is printed of a generated address.
pub open spec fn key_report(
    net: Seq<char>,
    addr: Seq<char>,
    wif: Seq<char>,
    saved: Option<Seq<char>>,
) -> Seq<Seq<char>> {
    seq![
        "── PyBLØCK · BLAKE2b mining address · "@ + uppercase(net) + " ──"@,
        "  address : "@ + addr,
        "  WIF     : "@ + wif,
        match saved {
            Some(p) => "  saved   : "@ + p + " (0600) — BACK IT UP"@,
            None => "  ⚠ could not write keys.txt — SAVE THE WIF ABOVE"@,
        },
        "  mine    : pyblockMiner --network "@ + net + " --addr "@ + addr + " --pool <host:port>"@,
    ]
}

/// Says what was generated.
pub fn report_key(net: &str, addr: &str, wif: &str, saved: Option<&str>) -> (r: Vec<String>)
    ensures
        strings(r@) == key_report(net@, addr@, wif@, maybe(saved)),
{
    let mut r: Vec<String> = Vec::new();
    r.push(cat3("── PyBLØCK · BLAKE2b mining address · ", to_upper(net).as_str(), " ──"));
    r.push(cat2("  address : ", addr));
    r.push(cat2("  WIF     : ", wif));
    match saved {
        Some(p) => r.push(cat3("  saved   : ", p, " (0600) — BACK IT UP")),
        None => r.push("  ⚠ could not write keys.txt — SAVE THE WIF ABOVE".to_owned()),
    }
    r.push(cat5("  mine    : pyblockMiner --network ", net, " --addr ", addr, " --pool <host:port>"));
    assert(strings(r@) =~= key_report(net@, addr@, wif@, maybe(saved)));
    r
}

/// The version, as it is printed.
pub fn version_line() -> (r: String)
    ensures
        r@ == "pyblockMiner "@ + VERSION@,
{
    cat2("pyblockMiner ", VERSION)
}

// ---------------------------------------------------------------- processes

/// The texts that are not empty once the space around them is gone.
pub open spec fn filled(v: Seq<Seq<char>>) -> Seq<Seq<char>>
    decreases v.len(),
{
    if v.len() == 0 {
        Seq::empty()
    } else if trimmed(v.last()).len() > 0 {
        filled(v.drop_last()).push(trimmed(v.last()))
    } else {
        filled(v.drop_last())
    }
}

/// The lines that a program printed, without the space around them and without
/// the empty ones.
pub fn output_lines(text: &str) -> (r: Vec<String>)
    ensures
        strings(r@) == filled(split_text(text@, '\n')),
{
    let v = split_chars(&chars_of(text), '\n');
    let ghost all = texts(v@);
    let mut r: Vec<String> = Vec::new();
    let mut i: usize = 0;
    assert(strings(r@) =~= Seq::<Seq<char>>::empty());
    assert(all.take(0).len() == 0);
    while i < v.len()
        invariant
            i <= v@.len(),
            all == texts(v@),
            strings(r@) == filled(all.take(i as int)),
        decreases v@.len() - i,
    {
        assert(all.take(i + 1).drop_last() =~= all.take(i as int));
        let t = trim_chars(&v[i]);
        if t.len() > 0 {
            let ghost before = strings(r@);
            r.push(string_of(&t));
            assert(strings(r@) =~= before.push(t@));
        }
        i = i + 1;
    }
    assert(all.take(i as int) =~= all);
    r
}

// ------------------------------------------------------------------ sockets

/// What came of a write to a socket.
#[derive(Clone, Copy, Debug, PartialEq, Eq, Structural)]
pub enum Written {
    Bytes(usize),
    WouldBlock,
    Interrupted,
    Failed,
}

/// What to do after a write.
#[derive(Clone, Copy, Debug, PartialEq, Eq, Structural)]
pub enum NextWrite {
    /// Go on from an offset.
    Write(usize),
    /// Go on from an offset after a moment.
    Pause(usize),
    /// It is all sent, or the rest is given up.
    Stop,
}

/// What to do after a write of a line of `len` bytes from `off`: go on until
/// all is sent, as long as the socket takes something within 5 seconds.
pub open spec fn next_write(off: usize, len: usize, w: Written, waited: u64) -> NextWrite {
    match w {
        Written::Bytes(n) => if n == 0 || off + n >= len {
            NextWrite::Stop
        } else {
            NextWrite::Write((off + n) as usize)
        },
        Written::WouldBlock => if waited > 5 * SECOND { NextWrite::Stop } else { NextWrite::Pause(off) },
        Written::Interrupted => NextWrite::Write(off),
        Written::Failed => NextWrite::Stop,
    }
}

/// Decides what to do after a write.
pub fn after_write(off: usize, len: usize, w: Written, waited: u64) -> (r: NextWrite)
    requires
        off < len,
    ensures
        r == next_write(off, len, w, waited),
{
    match w {
        Written::Bytes(n) => if n == 0 || n >= len - off {
            NextWrite::Stop
        } else {
            NextWrite::Write(off + n)
        },
        Written::WouldBlock => if waited > 5 * SECOND { NextWrite::Stop } else { NextWrite::Pause(off) },
        Written::Interrupted => NextWrite::Write(off),
        Written::Failed => NextWrite::Stop,
    }
}

/// Law: a write that goes on stays within the line and never goes back.
pub proof fn law_writing_goes_forward(off: usize, len: usize, w: Written, waited: u64)
    requires
        off < len,
    ensures
        match next_write(off, len, w, waited) {
            NextWrite::Write(n) => off <= n < len,
            NextWrite::Pause(n) => n == off,
            NextWrite::Stop => true,
        },
{
}

/// Whether the data of a mode is to be read: at once where the mode is new,
/// and every 15 seconds.
pub fn poll_due(last: Option<PoolMode>, mode: PoolMode, at: u64, now: u64) -> (r: bool)
    ensures
        r == (last != Some(mode) || passed(at, now) >= 15 * SECOND),
{
    let known = match last {
        Some(m) => m == mode,
        None => false,
    };
    !known || since(at, now) >= 15 * SECOND
}

/// Law: a line is sent on from where the socket stopped, until all of it is
/// sent; it is given up where the socket takes nothing, fails, or is busy for
/// more than 5 seconds.
pub proof fn law_lines_are_sent_whole(off: usize, len: usize, n: usize, waited: u64)
    requires
        off < len,
    ensures
        0 < n < len - off ==> next_write(off, len, Written::Bytes(n), waited) == NextWrite::Write((off + n) as usize),
        n >= len - off || n == 0 ==> next_write(off, len, Written::Bytes(n), waited) == NextWrite::Stop,
        waited <= 5_000_000_000 ==> next_write(off, len, Written::WouldBlock, waited) == NextWrite::Pause(off),
        waited > 5_000_000_000 ==> next_write(off, len, Written::WouldBlock, waited) == NextWrite::Stop,
        next_write(off, len, Written::Interrupted, waited) == NextWrite::Write(off),
        next_write(off, len, Written::Failed, waited) == NextWrite::Stop,
{
}

/// Law: the settings live where the environment says, the first that is set of
/// `XDG_CONFIG_HOME`, `APPDATA`, and the home directory's `.config`.
pub proof fn law_settings_have_a_home(
    xdg: Option<Seq<char>>,
    appdata: Option<Seq<char>>,
    home: Option<Seq<char>>,
    profile: Option<Seq<char>>,
)
    ensures
        xdg is Some ==> config_home(xdg, appdata, home, profile) == xdg->0,
        xdg is None && appdata is Some ==> config_home(xdg, appdata, home, profile) == appdata->0,
        xdg is None && appdata is None && home is Some ==> config_home(xdg, appdata, home, profile) == home->0
            + "/.config"@,
        xdg is None && appdata is None && home is None && profile is Some ==> config_home(xdg, appdata, home, profile)
            == profile->0 + "/.config"@,
        xdg is None && appdata is None && home is None && profile is None ==> config_home(xdg, appdata, home, profile)
            == "."@,
{
}

/// Law: the kernel is taken from the first directory that holds one.
pub proof fn law_first_kernel_is_taken(c: Seq<(String, bool)>, i: int)
    requires
        0 <= i < c.len(),
        c[i].1,
        forall|j: int| 0 <= j < i ==> !(#[trigger] c[j]).1,
    ensures
        kernel_home(c) == c[i].0@,
    decreases c.len(),
{
    if i > 0 {
        assert(!c[0].1);
        let d = c.drop_first();
        assert(d[i - 1] == c[i]);
        assert forall|j: int| 0 <= j < i - 1 implies !(#[trigger] d[j]).1 by {
            assert(!c[j + 1].1);
        }
        law_first_kernel_is_taken(d, i - 1);
    }
}

/// Law: of the lines that a program prints those that are not blank are kept,
/// in order, without the space around them.
pub proof fn law_printed_lines_are_kept(v: Seq<Seq<char>>, line: Seq<char>)
    ensures
        filled(Seq::empty()).len() == 0,
        trimmed(line).len() > 0 ==> filled(v.push(line)) == filled(v).push(trimmed(line)),
        trimmed(line).len() == 0 ==> filled(v.push(line)) == filled(v),
{
    assert(v.push(line).drop_last() =~= v);
}

/// Law: a new address is reported with its private key, and with where the key
/// was saved or that it was not.
pub proof fn law_new_keys_are_reported(net: Seq<char>, addr: Seq<char>, wif: Seq<char>, saved: Option<Seq<char>>)
    ensures
        ({
            let r = key_report(net, addr, wif, saved);
            &&& r.len() == 5
            &&& r[1] == "  address : "@ + addr
            &&& r[2] == "  WIF     : "@ + wif
            &&& saved matches Some(p) ==> r[3] == "  saved   : "@ + p + " (0600) — BACK IT UP"@
            &&& saved is None ==> r[3] == "  ⚠ could not write keys.txt — SAVE THE WIF ABOVE"@
            &&& r[4] == "  mine    : pyblockMiner --network "@ + net + " --addr "@ + addr + " --pool <host:port>"@
        }),
{
}

} // verus!
