//! Names that travel: worker suffixes, third-party labels, shortened
//! addresses, version numbers.

use crate::text::{
    blank, chars_of, dec, digit_char, digit_value, law_numbers_hold_only_digits, law_numbers_read_back,
    law_parts_split_off, parse_uint, parsed, split_chars, split_text, string_of, sub_chars, texts, trim_chars, trimmed,
};
use vstd::prelude::*;

verus! {

/// Letters and digits of ASCII.
pub open spec fn alphanumeric(c: char) -> bool {
    ('a' <= c && c <= 'z') || ('A' <= c && c <= 'Z') || ('0' <= c && c <= '9')
}

/// Control characters, as Unicode has them.
pub open spec fn control(c: char) -> bool {
    c as u32 <= 0x1f || 0x7f <= c as u32 <= 0x9f
}

/// The character classes that names are held to.
#[derive(Clone, Copy, Debug, PartialEq, Eq, Structural)]
pub enum Class {
    /// Letters, digits, `-` and `_`.
    Worker,
    /// Anything but control characters.
    Printable,
    /// Letters and digits.
    Address,
}

impl Class {
    /// Whether a character belongs to the class.
    pub open spec fn has(self, c: char) -> bool {
        match self {
            Class::Worker => alphanumeric(c) || c == '-' || c == '_',
            Class::Printable => !control(c),
            Class::Address => alphanumeric(c),
        }
    }

    fn holds(self, c: char) -> (r: bool)
        ensures
            r == self.has(c),
    {
        match self {
            Class::Worker => is_alphanumeric(c) || c == '-' || c == '_',
            Class::Printable => {
                let n: u32 = c as u32;
                !(n <= 0x1f || (0x7f <= n && n <= 0x9f))
            },
            Class::Address => is_alphanumeric(c),
        }
    }
}

fn is_alphanumeric(c: char) -> (r: bool)
    ensures
        r == alphanumeric(c),
{
    ('a' <= c && c <= 'z') || ('A' <= c && c <= 'Z') || ('0' <= c && c <= '9')
}

/// The characters of a class, in order.
pub open spec fn kept(s: Seq<char>, class: Class) -> Seq<char>
    decreases s.len(),
{
    if s.len() == 0 {
        s
    } else if class.has(s.last()) {
        kept(s.drop_last(), class).push(s.last())
    } else {
        kept(s.drop_last(), class)
    }
}

/// The first `n` characters, or all where there are fewer.
pub open spec fn at_most(s: Seq<char>, n: nat) -> Seq<char> {
    if s.len() <= n { s } else { s.take(n as int) }
}

/// A worker name as it goes into the stratum login: letters, digits, `-` and
/// `_`, at most 24 of them.
pub open spec fn worker_name(s: Seq<char>) -> Seq<char> {
    at_most(kept(s, Class::Worker), 24)
}

/// A name typed by a third party, made safe to draw: no control characters,
/// at most 40 characters, no white space around it.
pub open spec fn label(s: Seq<char>) -> Seq<char> {
    trimmed(at_most(kept(s, Class::Printable), 40))
}

/// An address from a third party: letters and digits, at most 90.
pub open spec fn address_text(s: Seq<char>) -> Seq<char> {
    at_most(kept(s, Class::Address), 90)
}

/// What is kept of a prefix is a prefix of what is kept of the whole.
proof fn lemma_kept_prefix(s: Seq<char>, class: Class, i: int)
    requires
        0 <= i <= s.len(),
    ensures
        kept(s.take(i), class).len() <= kept(s, class).len(),
        kept(s, class).take(kept(s.take(i), class).len() as int) == kept(s.take(i), class),
    decreases s.len() - i,
{
    if i == s.len() {
        assert(s.take(i) =~= s);
        assert(kept(s, class).take(kept(s, class).len() as int) =~= kept(s, class));
    } else {
        lemma_kept_prefix(s, class, i + 1);
        let a = kept(s.take(i), class);
        let b = kept(s.take(i + 1), class);
        assert(s.take(i + 1).drop_last() =~= s.take(i));
        assert(b.take(a.len() as int) =~= a);
        assert(kept(s, class).take(a.len() as int) =~= kept(s, class).take(b.len() as int).take(a.len() as int));
    }
}

fn keep_first(s: &str, class: Class, max: usize) -> (r: Vec<char>)
    ensures
        r@ == at_most(kept(s@, class), max as nat),
{
    let v = chars_of(s);
    let mut r: Vec<char> = Vec::new();
    let mut i: usize = 0;
    assert(kept(v@.take(0), class) =~= Seq::<char>::empty());
    while i < v.len() && r.len() < max
        invariant
            i <= v.len(),
            r.len() <= max,
            r@ == kept(v@.take(i as int), class),
        decreases v.len() - i,
    {
        let c = v[i];
        assert(v@.take(i + 1).drop_last() =~= v@.take(i as int));
        if class.holds(c) {
            r.push(c);
        }
        i = i + 1;
    }
    proof {
        lemma_kept_prefix(v@, class, i as int);
        if i == v.len() {
            assert(v@.take(i as int) =~= v@);
        }
    }
    r
}

/// Keeps a name plain enough to stand inside a stratum username.
pub fn clean_worker(s: &str) -> (r: String)
    ensures
        r@ == worker_name(s@),
{
    string_of(&keep_first(s, Class::Worker, 24))
}

/// Strips control characters from a third party's name and caps its length.
pub fn clean_label(s: &str) -> (r: String)
    ensures
        r@ == label(s@),
{
    string_of(&trim_chars(&keep_first(s, Class::Printable, 40)))
}

/// Keeps the characters that an address can have.
pub fn clean_address(s: &str) -> (r: String)
    ensures
        r@ == address_text(s@),
{
    string_of(&keep_first(s, Class::Address, 90))
}

proof fn lemma_kept_all(s: Seq<char>, class: Class)
    ensures
        forall|i: int| 0 <= i < kept(s, class).len() ==> class.has(#[trigger] kept(s, class)[i]),
        (forall|i: int| 0 <= i < s.len() ==> class.has(#[trigger] s[i])) ==> kept(s, class) == s,
    decreases s.len(),
{
    if s.len() > 0 {
        let d = s.drop_last();
        lemma_kept_all(d, class);
        assert forall|i: int| 0 <= i < kept(s, class).len() implies class.has(#[trigger] kept(s, class)[i]) by {
            if i < kept(d, class).len() {
                assert(kept(s, class)[i] == kept(d, class)[i]);
            }
        }
        if forall|i: int| 0 <= i < s.len() ==> class.has(#[trigger] s[i]) {
            assert forall|i: int| 0 <= i < d.len() implies class.has(#[trigger] d[i]) by {
                assert(class.has(s[i]));
            }
            assert(d.push(s.last()) =~= s);
        }
    }
}

/// Law: a cleaned worker name holds only plain characters, at most 24 of
/// them, and cleaning it again changes nothing.
pub proof fn law_clean_worker_is_plain(s: Seq<char>)
    ensures
        worker_name(s).len() <= 24,
        forall|i: int| 0 <= i < worker_name(s).len() ==> Class::Worker.has(#[trigger] worker_name(s)[i]),
        worker_name(worker_name(s)) == worker_name(s),
{
    lemma_kept_all(s, Class::Worker);
    let w = worker_name(s);
    assert forall|i: int| 0 <= i < w.len() implies Class::Worker.has(#[trigger] w[i]) by {
        assert(Class::Worker.has(kept(s, Class::Worker)[i]));
    }
    lemma_kept_all(w, Class::Worker);
}

proof fn lemma_trimmed_start_part(s: Seq<char>) -> (k: int)
    ensures
        0 <= k <= s.len(),
        crate::text::trimmed_start(s) == s.skip(k),
    decreases s.len(),
{
    if s.len() > 0 && crate::text::blank(s[0]) {
        let k = lemma_trimmed_start_part(s.drop_first());
        assert(s.drop_first().skip(k) =~= s.skip(k + 1));
        k + 1
    } else {
        assert(s.skip(0) =~= s);
        0
    }
}

proof fn lemma_trimmed_end_part(s: Seq<char>) -> (k: int)
    ensures
        0 <= k <= s.len(),
        crate::text::trimmed_end(s) == s.take(k),
    decreases s.len(),
{
    if s.len() > 0 && crate::text::blank(s.last()) {
        let k = lemma_trimmed_end_part(s.drop_last());
        assert(s.drop_last().take(k) =~= s.take(k));
        k
    } else {
        assert(s.take(s.len() as int) =~= s);
        s.len() as int
    }
}

/// Law: a cleaned label holds no control character and at most 40 characters.
pub proof fn law_clean_label_is_printable(s: Seq<char>)
    ensures
        label(s).len() <= 40,
        forall|i: int| 0 <= i < label(s).len() ==> !control(#[trigger] label(s)[i]),
{
    lemma_kept_all(s, Class::Printable);
    let w = at_most(kept(s, Class::Printable), 40);
    let a = lemma_trimmed_start_part(w);
    let b = lemma_trimmed_end_part(w.skip(a));
    assert forall|i: int| 0 <= i < label(s).len() implies !control(#[trigger] label(s)[i]) by {
        assert(label(s)[i] == w[a + i]);
        assert(Class::Printable.has(kept(s, Class::Printable)[a + i]));
    }
}

/// Law: a cleaned address holds only letters and digits, at most 90 of them.
pub proof fn law_clean_address_is_plain(s: Seq<char>)
    ensures
        address_text(s).len() <= 90,
        forall|i: int| 0 <= i < address_text(s).len() ==> alphanumeric(#[trigger] address_text(s)[i]),
{
    lemma_kept_all(s, Class::Address);
    assert forall|i: int| 0 <= i < address_text(s).len() implies alphanumeric(#[trigger] address_text(s)[i]) by {
        assert(Class::Address.has(kept(s, Class::Address)[i]));
    }
}

/// The stratum username: the address, and a worker suffix behind a dot.
pub open spec fn login_text(addr: Seq<char>, worker: Seq<char>) -> Seq<char> {
    if worker.len() == 0 { addr } else { addr + "."@ + worker }
}

/// The stratum username.
pub fn login(addr: &str, worker: &str) -> (r: String)
    ensures
        r@ == login_text(addr@, worker@),
{
    if worker.is_empty() {
        addr.to_owned()
    } else {
        let mut r = addr.to_owned();
        r.append(".");
        r.append(worker);
        r
    }
}

/// A long address by its ends: six characters, an ellipsis, four characters.
pub open spec fn masked(a: Seq<char>, full: bool) -> Seq<char> {
    if full || a.len() <= 14 { a } else { a.take(6) + "…"@ + a.skip(a.len() - 4) }
}

/// An address for a narrow column; `full` shows it whole.
pub fn mask_addr(a: &str, full: bool) -> (r: String)
    ensures
        r@ == masked(a@, full),
{
    let c = chars_of(a);
    if full || c.len() <= 14 {
        return a.to_owned();
    }
    let mut r = string_of(&sub_chars(&c, 0, 6));
    assert(r@ =~= a@.take(6));
    r.append("…");
    let tail = string_of(&sub_chars(&c, c.len() - 4, c.len()));
    assert(tail@ =~= a@.skip(a@.len() - 4));
    r.append(tail.as_str());
    r
}

// ---------------------------------------------------------------- versions

/// Without the `v`s at the front.
pub open spec fn without_v(s: Seq<char>) -> Seq<char>
    decreases s.len(),
{
    if s.len() > 0 && s[0] == 'v' { without_v(s.drop_first()) } else { s }
}

/// The number in part `i` of a version; 0 where there is none.
pub open spec fn version_part(parts: Seq<Seq<char>>, i: int) -> nat {
    if 0 <= i < parts.len() {
        match parsed(parts[i], 10, 0xffff_ffff) {
            Some(n) => n,
            None => 0,
        }
    } else {
        0
    }
}

/// The three numbers of a version `x.y.z`, with or without a leading `v`.
pub open spec fn version(s: Seq<char>) -> (nat, nat, nat) {
    let parts = split_text(without_v(trimmed(s)), '.');
    (version_part(parts, 0), version_part(parts, 1), version_part(parts, 2))
}

/// Whether version `a` comes after version `b`.
pub open spec fn after(a: (nat, nat, nat), b: (nat, nat, nat)) -> bool {
    ||| a.0 > b.0
    ||| a.0 == b.0 && a.1 > b.1
    ||| a.0 == b.0 && a.1 == b.1 && a.2 > b.2
}

fn part_of(parts: &Vec<Vec<char>>, i: usize) -> (n: u64)
    ensures
        n == version_part(texts(parts@), i as int),
{
    if i < parts.len() {
        assert(texts(parts@)[i as int] == parts@[i as int]@);
        match parse_uint(&parts[i], 10, 0xffff_ffff) {
            Some(n) => n,
            None => 0,
        }
    } else {
        0
    }
}

fn version_of(s: &str) -> (r: (u64, u64, u64))
    ensures
        (r.0 as nat, r.1 as nat, r.2 as nat) == version(s@),
{
    let t = trim_chars(&chars_of(s));
    let mut i: usize = 0;
    assert(t@.skip(0) =~= t@);
    while i < t.len() && t[i] == 'v'
        invariant
            i <= t.len(),
            without_v(t@) == without_v(t@.skip(i as int)),
        decreases t.len() - i,
    {
        assert(t@.skip(i as int).drop_first() =~= t@.skip(i + 1));
        i = i + 1;
    }
    let u = sub_chars(&t, i, t.len());
    assert(u@ =~= t@.skip(i as int));
    let parts = split_chars(&u, '.');
    (part_of(&parts, 0), part_of(&parts, 1), part_of(&parts, 2))
}

/// Whether `latest` is a strictly newer version than `cur`.
pub fn is_newer(latest: &str, cur: &str) -> (r: bool)
    ensures
        r == after(version(latest@), version(cur@)),
{
    let a = version_of(latest);
    let b = version_of(cur);
    a.0 > b.0 || (a.0 == b.0 && a.1 > b.1) || (a.0 == b.0 && a.1 == b.1 && a.2 > b.2)
}

/// Law: "newer" is a strict order: no version is newer than itself, not both
/// of two are newer than the other, and what is newer than a newer one is
/// newer.
pub proof fn law_newer_is_a_strict_order(a: Seq<char>, b: Seq<char>, c: Seq<char>)
    ensures
        !after(version(a), version(a)),
        !(after(version(a), version(b)) && after(version(b), version(a))),
        after(version(a), version(b)) && after(version(b), version(c)) ==> after(version(a), version(c)),
{
}

// --------------------------------------------------------------------- laws

/// Law: cleaning a name keeps every character of the class, in order, and
/// drops the others.
pub proof fn law_cleaning_only_filters(s: Seq<char>, class: Class)
    ensures
        kept(s, class) == s.filter(|c: char| class.has(c)),
    decreases s.len(),
{
    reveal(Seq::filter);
    if s.len() > 0 {
        law_cleaning_only_filters(s.drop_last(), class);
    }
}

/// Law: the classes. A worker's name holds letters and digits of ASCII, `-` and
/// `_`; an address letters and digits; a label anything but control characters.
pub proof fn law_classes(c: char)
    ensures
        Class::Address.has(c) <==> 'a' <= c <= 'z' || 'A' <= c <= 'Z' || '0' <= c <= '9',
        Class::Worker.has(c) <==> Class::Address.has(c) || c == '-' || c == '_',
        Class::Printable.has(c) <==> c as u32 >= 0x20 && !(0x7f <= c as u32 <= 0x9f),
{
}

/// Law: a plain name that is short enough stays as it is; a longer one keeps
/// its first characters.
pub proof fn law_plain_names_stay(s: Seq<char>)
    requires
        forall|i: int| 0 <= i < s.len() ==> alphanumeric(#[trigger] s[i]),
    ensures
        s.len() <= 24 ==> worker_name(s) == s,
        s.len() > 24 ==> worker_name(s) == s.take(24),
        s.len() <= 90 ==> address_text(s) == s,
        s.len() > 90 ==> address_text(s) == s.take(90),
{
    assert forall|i: int| 0 <= i < s.len() implies Class::Worker.has(#[trigger] s[i]) by {
        assert(alphanumeric(s[i]));
    }
    assert forall|i: int| 0 <= i < s.len() implies Class::Address.has(#[trigger] s[i]) by {
        assert(alphanumeric(s[i]));
    }
    lemma_kept_all(s, Class::Worker);
    lemma_kept_all(s, Class::Address);
}

/// Law: the login is the address alone, or the address, a dot and the worker.
pub proof fn law_logins_name_the_worker(addr: Seq<char>, worker: Seq<char>)
    ensures
        worker.len() == 0 ==> login_text(addr, worker) == addr,
        worker.len() > 0 ==> {
            &&& login_text(addr, worker).len() == addr.len() + 1 + worker.len()
            &&& login_text(addr, worker).take(addr.len() as int) == addr
            &&& login_text(addr, worker)[addr.len() as int] == '.'
            &&& login_text(addr, worker).skip((addr.len() + 1) as int) == worker
        },
{
    reveal_strlit(".");
    if worker.len() > 0 {
        let l = login_text(addr, worker);
        assert(l.take(addr.len() as int) =~= addr);
        assert(l.skip((addr.len() + 1) as int) =~= worker);
    }
}

/// Law: a long address keeps its first six and its last four characters, with
/// an ellipsis between them; a short one, or where there is room, is whole.
pub proof fn law_masked_addresses_keep_their_ends(a: Seq<char>, full: bool)
    ensures
        full || a.len() <= 14 ==> masked(a, full) == a,
        !full && a.len() > 14 ==> {
            &&& masked(a, full).len() == 11
            &&& masked(a, full)[6] == '…'
            &&& forall|i: int| 0 <= i < 6 ==> #[trigger] masked(a, full)[i] == a[i]
            &&& forall|i: int| 7 <= i < 11 ==> #[trigger] masked(a, full)[i] == a[a.len() - 11 + i]
        },
{
    reveal_strlit("…");
}

/// Law: a version `x.y.z` is its three numbers, with a `v` in front or without,
/// and versions compare number by number.
pub proof fn law_versions_are_read(x: nat, y: nat, z: nat)
    requires
        x <= 0xffff_ffff,
        y <= 0xffff_ffff,
        z <= 0xffff_ffff,
    ensures
        version(dec(x) + seq!['.'] + (dec(y) + seq!['.'] + dec(z))) == (x, y, z),
        version(seq!['v'] + (dec(x) + seq!['.'] + (dec(y) + seq!['.'] + dec(z)))) == (x, y, z),
{
    let s = dec(x) + seq!['.'] + (dec(y) + seq!['.'] + dec(z));
    law_numbers_hold_only_digits(x, 10, '.');
    law_numbers_hold_only_digits(y, 10, '.');
    law_numbers_hold_only_digits(z, 10, '.');
    law_parts_split_off(dec(x), dec(y) + seq!['.'] + dec(z), '.');
    law_parts_split_off(dec(y), dec(z), '.');
    law_parts_split_off(dec(z), dec(z), '.');
    let parts = split_text(s, '.');
    assert(parts =~= seq![dec(x), dec(y), dec(z)]);
    law_numbers_read_back(x, 10, 0, 0xffff_ffff);
    law_numbers_read_back(y, 10, 0, 0xffff_ffff);
    law_numbers_read_back(z, 10, 0, 0xffff_ffff);
    lemma_number_ends(x);
    lemma_number_ends(z);
    assert(s[0] == dec(x)[0]);
    assert(s.last() == dec(z).last());
    lemma_untrimmed(s);
    assert(without_v(s) == s);
    let t = seq!['v'] + s;
    assert(t.last() == s.last());
    lemma_untrimmed(t);
    assert(t.drop_first() =~= s);
    reveal_with_fuel(without_v, 2);
}

proof fn lemma_number_ends(n: nat)
    ensures
        dec(n).len() > 0,
        digit_value(dec(n)[0], 10) is Some,
        digit_value(dec(n).last(), 10) is Some,
    decreases n,
{
    if n >= 10 {
        lemma_number_ends(n / 10);
        assert(dec(n) =~= dec(n / 10).push(digit_char((n % 10) as int)));
    }
}

proof fn lemma_untrimmed(s: Seq<char>)
    requires
        s.len() > 0,
        !blank(s[0]),
        !blank(s.last()),
    ensures
        trimmed(s) == s,
{
}

/// Law: the newer version is the one with the larger first number that differs.
pub proof fn law_newer_by_the_first_difference(a: (nat, nat, nat), b: (nat, nat, nat))
    ensures
        a.0 != b.0 ==> (after(a, b) <==> a.0 > b.0),
        a.0 == b.0 && a.1 != b.1 ==> (after(a, b) <==> a.1 > b.1),
        a.0 == b.0 && a.1 == b.1 ==> (after(a, b) <==> a.2 > b.2),
{
}

} // verus!
