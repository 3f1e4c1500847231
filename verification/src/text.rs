//! Text helpers: strings as sequences of characters.

use vstd::arithmetic::div_mod::lemma_div_denominator;
use vstd::arithmetic::power2::{lemma2_to64, lemma_pow2_adds, lemma_pow2_pos, pow2};
use vstd::prelude::*;

verus! {

/// `String::push` appends one character at the end.
pub assume_specification[ String::push ](s: &mut String, c: char)
    ensures
        final(s)@ == old(s)@.push(c),
;

/// The characters of a string, in order.
pub fn chars_of(s: &str) -> (v: Vec<char>)
    ensures
        v@ == s@,
{
    let mut v: Vec<char> = Vec::new();
    for c in it: s.chars()
        invariant
            v@ == it.seq().take(it.index() as int),
            it.seq() == s@,
    {
        v.push(c);
    }
    v
}

/// The string made of the given characters.
pub fn string_of(v: &Vec<char>) -> (s: String)
    ensures
        s@ == v@,
{
    let mut s = String::new();
    for i in 0..v.len()
        invariant
            s@ == v@.take(i as int),
    {
        s.push(v[i]);
    }
    s
}

// ---------------------------------------------------------------- numbers

/// The character of a decimal or hexadecimal digit.
pub open spec fn digit_char(d: int) -> char {
    if d == 0 { '0' } else if d == 1 { '1' } else if d == 2 { '2' } else if d == 3 { '3' } else if d == 4 {
        '4'
    } else if d == 5 { '5' } else if d == 6 { '6' } else if d == 7 { '7' } else if d == 8 { '8' } else if d
        == 9 { '9' } else if d == 10 { 'a' } else if d == 11 { 'b' } else if d == 12 { 'c' } else if d == 13 {
        'd'
    } else if d == 14 { 'e' } else { 'f' }
}

fn digit(d: u64) -> (c: char)
    requires
        d < 16,
    ensures
        c == digit_char(d as int),
{
    match d {
        0 => '0',
        1 => '1',
        2 => '2',
        3 => '3',
        4 => '4',
        5 => '5',
        6 => '6',
        7 => '7',
        8 => '8',
        9 => '9',
        10 => 'a',
        11 => 'b',
        12 => 'c',
        13 => 'd',
        14 => 'e',
        _ => 'f',
    }
}

/// A number written in the given base, most significant digit first.
pub open spec fn digits(n: nat, base: nat) -> Seq<char>
    decreases n,
{
    if base < 2 || n < base {
        seq![digit_char(n as int)]
    } else {
        proof {
            assert(n / base < n) by (nonlinear_arith)
                requires
                    n > 0,
                    base >= 2,
            ;
        }
        digits(n / base, base).push(digit_char((n % base) as int))
    }
}

/// A number in decimal.
pub open spec fn dec(n: nat) -> Seq<char> {
    digits(n, 10)
}

/// `n` copies of a character.
pub open spec fn repeated(c: char, n: nat) -> Seq<char> {
    Seq::new(n, |i: int| c)
}

/// Filled up on the left to at least `width` characters.
pub open spec fn padded_left(s: Seq<char>, width: nat, c: char) -> Seq<char> {
    if s.len() >= width { s } else { repeated(c, (width - s.len()) as nat) + s }
}

/// Filled up on the right with blanks to at least `width` characters.
pub open spec fn padded_right(s: Seq<char>, width: nat) -> Seq<char> {
    if s.len() >= width { s } else { s + repeated(' ', (width - s.len()) as nat) }
}

fn digits_of(n: u64, base: u64) -> (v: Vec<char>)
    requires
        2 <= base <= 16,
    ensures
        v@ == digits(n as nat, base as nat),
    decreases n,
{
    if n < base {
        let mut v: Vec<char> = Vec::new();
        v.push(digit(n));
        assert(v@ =~= seq![digit_char(n as int)]);
        v
    } else {
        proof {
            assert(n / base < n) by (nonlinear_arith)
                requires
                    n > 0,
                    base >= 2,
            ;
            assert(n % base < base) by (nonlinear_arith)
                requires
                    base >= 2,
            ;
        }
        let mut v = digits_of(n / base, base);
        v.push(digit(n % base));
        v
    }
}

/// A number in decimal.
pub fn dec_text(n: u64) -> (s: String)
    ensures
        s@ == dec(n as nat),
{
    string_of(&digits_of(n, 10))
}

/// A text filled up on the left to at least `width` characters.
pub fn pad_left(s: &str, width: usize, c: char) -> (r: String)
    ensures
        r@ == padded_left(s@, width as nat, c),
{
    let v = chars_of(s);
    let mut r = String::new();
    if v.len() < width {
        let k: usize = width - v.len();
        let mut i: usize = 0;
        while i < k
            invariant
                i <= k,
                r@ == repeated(c, i as nat),
            decreases k - i,
        {
            r.push(c);
            assert(repeated(c, (i + 1) as nat) =~= repeated(c, i as nat).push(c));
            i = i + 1;
        }
    }
    r.append(s);
    assert(r@ =~= padded_left(s@, width as nat, c));
    r
}

/// A text filled up on the right with blanks to at least `width` characters.
pub fn pad_right(s: &str, width: usize) -> (r: String)
    ensures
        r@ == padded_right(s@, width as nat),
{
    let v = chars_of(s);
    let mut r = String::new();
    r.append(s);
    assert(r@ =~= s@);
    if v.len() < width {
        let k: usize = width - v.len();
        let mut i: usize = 0;
        assert(s@ + repeated(' ', 0) =~= s@);
        while i < k
            invariant
                i <= k,
                r@ == s@ + repeated(' ', i as nat),
            decreases k - i,
        {
            r.push(' ');
            assert(s@ + repeated(' ', (i + 1) as nat) =~= (s@ + repeated(' ', i as nat)).push(' '));
            i = i + 1;
        }
    }
    r
}

/// A number in decimal with at least `width` digits.
pub fn dec_padded(n: u64, width: usize) -> (s: String)
    ensures
        s@ == padded_left(dec(n as nat), width as nat, '0'),
{
    let d = dec_text(n);
    pad_left(d.as_str(), width, '0')
}

/// A number in lower-case hexadecimal with at least `width` digits.
pub fn hex_padded(n: u64, width: usize) -> (s: String)
    ensures
        s@ == padded_left(digits(n as nat, 16), width as nat, '0'),
{
    let d = string_of(&digits_of(n, 16));
    pad_left(d.as_str(), width, '0')
}

// ---------------------------------------------------------------- pieces

/// The characters from `from` up to `to`.
pub fn sub_chars(v: &Vec<char>, from: usize, to: usize) -> (r: Vec<char>)
    requires
        from <= to <= v.len(),
    ensures
        r@ == v@.subrange(from as int, to as int),
{
    let mut r: Vec<char> = Vec::new();
    let mut i: usize = from;
    while i < to
        invariant
            from <= i <= to <= v.len(),
            r@ == v@.subrange(from as int, i as int),
        decreases to - i,
    {
        r.push(v[i]);
        assert(v@.subrange(from as int, i + 1) =~= v@.subrange(from as int, i as int).push(v@[i as int]));
        i = i + 1;
    }
    r
}

/// Whether two texts are the same.
pub fn same_chars(a: &Vec<char>, b: &Vec<char>) -> (r: bool)
    ensures
        r == (a@ == b@),
{
    if a.len() != b.len() {
        return false;
    }
    let mut i: usize = 0;
    while i < a.len()
        invariant
            a.len() == b.len(),
            i <= a.len(),
            forall|j: int| 0 <= j < i ==> a@[j] == b@[j],
        decreases a.len() - i,
    {
        if a[i] != b[i] {
            return false;
        }
        i = i + 1;
    }
    assert(a@ =~= b@);
    true
}

/// Whether two texts are the same.
pub fn same(a: &str, b: &str) -> (r: bool)
    ensures
        r == (a@ == b@),
{
    same_chars(&chars_of(a), &chars_of(b))
}

/// Whether `p` stands in `s` at position `i`.
pub open spec fn stands_at(s: Seq<char>, p: Seq<char>, i: int) -> bool {
    0 <= i && i + p.len() <= s.len() && s.subrange(i, i + p.len()) == p
}

/// Whether a text begins with another.
pub open spec fn begins_with(s: Seq<char>, p: Seq<char>) -> bool {
    stands_at(s, p, 0)
}

/// Whether a text stands somewhere in another.
pub open spec fn contains_text(s: Seq<char>, p: Seq<char>) -> bool {
    exists|i: int| stands_at(s, p, i)
}

fn match_at(s: &Vec<char>, p: &Vec<char>, i: usize) -> (r: bool)
    requires
        i <= s.len(),
    ensures
        r == stands_at(s@, p@, i as int),
{
    if p.len() > s.len() - i {
        return false;
    }
    let mut j: usize = 0;
    while j < p.len()
        invariant
            i + p.len() <= s.len(),
            j <= p.len(),
            forall|k: int| 0 <= k < j ==> s@[i + k] == p@[k],
        decreases p.len() - j,
    {
        if s[i + j] != p[j] {
            assert(s@.subrange(i as int, i + p.len())[j as int] != p@[j as int]);
            return false;
        }
        j = j + 1;
    }
    assert(s@.subrange(i as int, i + p.len()) =~= p@);
    true
}

/// Whether a text begins with another.
pub fn starts_with(s: &str, p: &str) -> (r: bool)
    ensures
        r == begins_with(s@, p@),
{
    match_at(&chars_of(s), &chars_of(p), 0)
}

/// Whether a text stands somewhere in another.
pub fn contains(s: &str, p: &str) -> (r: bool)
    ensures
        r == contains_text(s@, p@),
{
    let a = chars_of(s);
    let b = chars_of(p);
    let mut i: usize = 0;
    while i <= a.len()
        invariant
            a@ == s@,
            b@ == p@,
            i <= a.len() + 1,
            forall|j: int| 0 <= j < i ==> !stands_at(a@, b@, j),
        decreases a.len() + 1 - i,
    {
        if match_at(&a, &b, i) {
            return true;
        }
        if i == a.len() {
            return false;
        }
        i = i + 1;
    }
    false
}

/// White space, as Unicode has it.
pub open spec fn blank(c: char) -> bool {
    let n = c as u32;
    ||| 0x9 <= n <= 0xd
    ||| n == 0x20
    ||| n == 0x85
    ||| n == 0xa0
    ||| n == 0x1680
    ||| 0x2000 <= n <= 0x200a
    ||| n == 0x2028
    ||| n == 0x2029
    ||| n == 0x202f
    ||| n == 0x205f
    ||| n == 0x3000
}

/// Whether a character is white space.
pub fn is_blank(c: char) -> (r: bool)
    ensures
        r == blank(c),
{
    let n: u32 = c as u32;
    (0x9 <= n && n <= 0xd) || n == 0x20 || n == 0x85 || n == 0xa0 || n == 0x1680 || (0x2000 <= n && n <= 0x200a)
        || n == 0x2028 || n == 0x2029 || n == 0x202f || n == 0x205f || n == 0x3000
}

/// Without white space at the front.
pub open spec fn trimmed_start(s: Seq<char>) -> Seq<char>
    decreases s.len(),
{
    if s.len() > 0 && blank(s[0]) { trimmed_start(s.drop_first()) } else { s }
}

/// Without white space at the end.
pub open spec fn trimmed_end(s: Seq<char>) -> Seq<char>
    decreases s.len(),
{
    if s.len() > 0 && blank(s.last()) { trimmed_end(s.drop_last()) } else { s }
}

/// Without white space at either end.
pub open spec fn trimmed(s: Seq<char>) -> Seq<char> {
    trimmed_end(trimmed_start(s))
}

/// A text without white space at either end.
pub fn trim_chars(v: &Vec<char>) -> (r: Vec<char>)
    ensures
        r@ == trimmed(v@),
{
    let mut a: usize = 0;
    assert(v@.skip(0) =~= v@);
    while a < v.len() && is_blank(v[a])
        invariant
            a <= v.len(),
            trimmed_start(v@) == trimmed_start(v@.skip(a as int)),
        decreases v.len() - a,
    {
        assert(v@.skip(a as int).drop_first() =~= v@.skip(a + 1));
        a = a + 1;
    }
    assert(trimmed_start(v@) == v@.skip(a as int));
    let mut b: usize = v.len();
    assert(v@.subrange(a as int, b as int) =~= v@.skip(a as int));
    while b > a && is_blank(v[b - 1])
        invariant
            a <= b <= v.len(),
            trimmed(v@) == trimmed_end(v@.subrange(a as int, b as int)),
        decreases b,
    {
        assert(v@.subrange(a as int, b as int).drop_last() =~= v@.subrange(a as int, b - 1));
        b = b - 1;
    }
    sub_chars(v, a, b)
}

/// A text without white space at either end.
pub fn trim(s: &str) -> (r: String)
    ensures
        r@ == trimmed(s@),
{
    string_of(&trim_chars(&chars_of(s)))
}

/// The position of the first `c`, or the length.
pub open spec fn first_of(s: Seq<char>, c: char) -> int
    decreases s.len(),
{
    if s.len() == 0 || s[0] == c { 0 } else { 1 + first_of(s.drop_first(), c) }
}

/// The parts of a text between the `c`s.
pub open spec fn split_text(s: Seq<char>, c: char) -> Seq<Seq<char>>
    decreases s.len(),
    via split_text_decreases
{
    let i = first_of(s, c);
    if i >= s.len() { seq![s] } else { seq![s.take(i)] + split_text(s.skip(i + 1), c) }
}

#[via_fn]
proof fn split_text_decreases(s: Seq<char>, c: char) {
    lemma_first_of(s, c);
}

/// The parts of a text between the first `n - 1` `c`s.
pub open spec fn splitn_text(s: Seq<char>, n: nat, c: char) -> Seq<Seq<char>>
    decreases n,
{
    let i = first_of(s, c);
    if n <= 1 || i >= s.len() { seq![s] } else { seq![s.take(i)] + splitn_text(s.skip(i + 1), (n - 1) as nat, c) }
}

/// The first place of a character holds it, and no place before does.
pub proof fn lemma_first_of(s: Seq<char>, c: char)
    ensures
        0 <= first_of(s, c) <= s.len(),
        first_of(s, c) < s.len() ==> s[first_of(s, c)] == c,
        forall|j: int| 0 <= j < first_of(s, c) ==> s[j] != c,
    decreases s.len(),
{
    if s.len() > 0 && s[0] != c {
        lemma_first_of(s.drop_first(), c);
        assert forall|j: int| 0 <= j < first_of(s, c) implies s[j] != c by {
            if j > 0 {
                assert(s[j] == s.drop_first()[j - 1]);
            }
        }
    }
}

/// Where the first `c` at or after `from` stands, or the length.
pub fn find_char(v: &Vec<char>, c: char, from: usize) -> (i: usize)
    requires
        from <= v.len(),
    ensures
        from <= i <= v.len(),
        i == from + first_of(v@.skip(from as int), c),
{
    let mut i: usize = from;
    while i < v.len() && v[i] != c
        invariant
            from <= i <= v.len(),
            from + first_of(v@.skip(from as int), c) == i + first_of(v@.skip(i as int), c),
        decreases v.len() - i,
    {
        assert(v@.skip(i as int).drop_first() =~= v@.skip(i + 1));
        i = i + 1;
    }
    i
}

/// The texts of a list.
pub open spec fn texts(v: Seq<Vec<char>>) -> Seq<Seq<char>> {
    Seq::new(v.len(), |i: int| v[i]@)
}

/// The parts of a text between the first `n - 1` `c`s.
pub fn splitn_chars(v: &Vec<char>, n: usize, c: char) -> (r: Vec<Vec<char>>)
    ensures
        texts(r@) == splitn_text(v@, n as nat, c),
{
    let mut r: Vec<Vec<char>> = Vec::new();
    let mut pos: usize = 0;
    let mut left: usize = n;
    assert(v@.skip(0) =~= v@);
    assert(texts(r@) + splitn_text(v@, n as nat, c) =~= splitn_text(v@, n as nat, c));
    while left > 1
        invariant
            pos <= v.len(),
            texts(r@) + splitn_text(v@.skip(pos as int), left as nat, c) == splitn_text(v@, n as nat, c),
        decreases left,
    {
        let i = find_char(v, c, pos);
        let ghost rest = v@.skip(pos as int);
        if i == v.len() {
            let last = sub_chars(v, pos, i);
            let ghost before = texts(r@);
            r.push(last);
            proof {
                assert(last@ =~= rest);
                assert(texts(r@) =~= before.push(rest));
                assert(before + seq![rest] =~= before.push(rest));
            }
            return r;
        }
        let piece = sub_chars(v, pos, i);
        let ghost before = texts(r@);
        r.push(piece);
        proof {
            let k = first_of(rest, c);
            assert(piece@ =~= rest.take(k));
            assert(rest.skip(k + 1) =~= v@.skip(i + 1));
            assert(texts(r@) =~= before.push(rest.take(k)));
            let tail = splitn_text(rest.skip(k + 1), (left - 1) as nat, c);
            assert(before + (seq![rest.take(k)] + tail) =~= before.push(rest.take(k)) + tail);
        }
        pos = i + 1;
        left = left - 1;
    }
    let last = sub_chars(v, pos, v.len());
    let ghost before = texts(r@);
    r.push(last);
    proof {
        let rest = v@.skip(pos as int);
        assert(last@ =~= rest);
        assert(texts(r@) =~= before.push(rest));
        assert(before + seq![rest] =~= before.push(rest));
    }
    r
}

/// The parts of a text between the `c`s.
pub fn split_chars(v: &Vec<char>, c: char) -> (r: Vec<Vec<char>>)
    ensures
        texts(r@) == split_text(v@, c),
{
    let mut r: Vec<Vec<char>> = Vec::new();
    let mut pos: usize = 0;
    assert(v@.skip(0) =~= v@);
    assert(texts(r@) + split_text(v@, c) =~= split_text(v@, c));
    loop
        invariant
            pos <= v.len(),
            texts(r@) + split_text(v@.skip(pos as int), c) == split_text(v@, c),
        decreases v.len() - pos,
    {
        let i = find_char(v, c, pos);
        let piece = sub_chars(v, pos, i);
        let ghost rest = v@.skip(pos as int);
        let ghost before = texts(r@);
        let ghost k = first_of(rest, c);
        r.push(piece);
        proof {
            assert(piece@ =~= rest.take(k));
            assert(texts(r@) =~= before.push(rest.take(k)));
        }
        if i == v.len() {
            proof {
                assert(rest.take(k) =~= rest);
                assert(before + seq![rest] =~= before.push(rest));
            }
            return r;
        }
        proof {
            assert(rest.skip(k + 1) =~= v@.skip(i + 1));
            let tail = split_text(rest.skip(k + 1), c);
            assert(before + (seq![rest.take(k)] + tail) =~= before.push(rest.take(k)) + tail);
        }
        pos = i + 1;
    }
}

/// The value of a digit, or nothing for another character.
pub open spec fn digit_value(c: char, base: nat) -> Option<nat> {
    let n = c as u32;
    let v: int = if '0' as u32 <= n <= '9' as u32 {
        n - '0' as u32
    } else if 'a' as u32 <= n <= 'f' as u32 {
        n - 'a' as u32 + 10
    } else if 'A' as u32 <= n <= 'F' as u32 {
        n - 'A' as u32 + 10
    } else {
        base as int
    };
    if v < base { Some(v as nat) } else { None }
}

/// The number that digits spell, or nothing where one is no digit.
pub open spec fn number(s: Seq<char>, base: nat) -> Option<nat>
    decreases s.len(),
{
    if s.len() == 0 {
        Some(0)
    } else {
        match (number(s.drop_last(), base), digit_value(s.last(), base)) {
            (Some(n), Some(d)) => Some(n * base + d),
            _ => None,
        }
    }
}

/// A number up to `max`, with or without a leading plus sign, as the standard
/// library reads unsigned integers.
pub open spec fn parsed(s: Seq<char>, base: nat, max: nat) -> Option<nat> {
    let t = if s.len() > 0 && s[0] == '+' { s.drop_first() } else { s };
    if t.len() == 0 {
        None
    } else {
        match number(t, base) {
            Some(n) => if n <= max { Some(n) } else { None },
            None => None,
        }
    }
}

/// A digit's value.
pub fn digit_of(c: char, base: u64) -> (r: Option<u64>)
    requires
        base <= 16,
    ensures
        match r {
            Some(d) => digit_value(c, base as nat) == Some(d as nat) && d < base,
            None => digit_value(c, base as nat) is None,
        },
{
    let n: u32 = c as u32;
    let v: u64 = if 48 <= n && n <= 57 {
        (n - 48) as u64
    } else if 97 <= n && n <= 102 {
        (n - 97 + 10) as u64
    } else if 65 <= n && n <= 70 {
        (n - 65 + 10) as u64
    } else {
        base
    };
    if v < base { Some(v) } else { None }
}

/// More digits never make a number smaller.
proof fn lemma_number_grows(s: Seq<char>, base: nat, i: int)
    requires
        0 <= i <= s.len(),
        base >= 1,
    ensures
        number(s, base) is Some ==> number(s.take(i), base) is Some && number(s.take(i), base)->0 <= number(
            s,
            base,
        )->0,
    decreases s.len() - i,
{
    if i == s.len() {
        assert(s.take(i) =~= s);
    } else {
        lemma_number_grows(s, base, i + 1);
        assert(s.take(i + 1).drop_last() =~= s.take(i));
        if number(s, base) is Some {
            let n = number(s.take(i), base)->0;
            assert(n * base >= n) by (nonlinear_arith)
                requires
                    base >= 1,
            ;
        }
    }
}

/// Reads an unsigned number up to `max`.
pub fn parse_uint(v: &Vec<char>, base: u64, max: u64) -> (r: Option<u64>)
    requires
        2 <= base <= 16,
        max <= 0xffff_ffff,
    ensures
        match r {
            Some(n) => parsed(v@, base as nat, max as nat) == Some(n as nat),
            None => parsed(v@, base as nat, max as nat) is None,
        },
{
    let start: usize = if v.len() > 0 && v[0] == '+' { 1 } else { 0 };
    let ghost t = if v@.len() > 0 && v@[0] == '+' { v@.drop_first() } else { v@ };
    assert(t =~= v@.skip(start as int));
    if start == v.len() {
        return None;
    }
    let mut n: u64 = 0;
    let mut i: usize = start;
    assert(t.take(0).len() == 0);
    while i < v.len()
        invariant
            2 <= base <= 16,
            max <= 0xffff_ffff,
            start <= i <= v.len(),
            start < v.len(),
            t == v@.skip(start as int),
            t.len() == v.len() - start,
            t == (if v@.len() > 0 && v@[0] == '+' { v@.drop_first() } else { v@ }),
            number(t.take(i - start), base as nat) == Some(n as nat),
            n <= max,
        decreases v.len() - i,
    {
        proof {
            assert(t.take(i + 1 - start).drop_last() =~= t.take(i - start));
            assert(t.take(i + 1 - start).last() == v@[i as int]);
            lemma_number_grows(t, base as nat, i + 1 - start);
            assert(n * base <= 0xffff_ffff * 16) by (nonlinear_arith)
                requires
                    n <= 0xffff_ffff,
                    base <= 16,
            ;
        }
        match digit_of(v[i], base) {
            Some(d) => {
                let next: u64 = n * base + d;
                if next > max {
                    return None;
                }
                n = next;
            },
            None => {
                return None;
            },
        }
        i = i + 1;
    }
    assert(t.take(i - start) =~= t);
    Some(n)
}

// ------------------------------------------------------------------- parts

/// What follows the last `c`, or all where there is none.
pub open spec fn after_last(s: Seq<char>, c: char) -> Seq<char>
    decreases s.len(),
{
    if s.len() == 0 || s.last() == c { Seq::empty() } else { after_last(s.drop_last(), c).push(s.last()) }
}

/// What follows the last `c`.
pub fn last_part(s: &str, c: char) -> (r: String)
    ensures
        r@ == after_last(s@, c),
{
    let v = chars_of(s);
    let mut i: usize = v.len();
    proof {
        lemma_after_last_step(s@, c, v@.len() as int);
    }
    while i > 0 && v[i - 1] != c
        invariant
            i <= v@.len(),
            v@ == s@,
            after_last(s@, c) == after_last(s@.take(i as int), c) + s@.skip(i as int),
        decreases i,
    {
        i = i - 1;
        proof {
            let t = s@.take(i + 1);
            assert(t.drop_last() =~= s@.take(i as int));
            assert(t.last() == s@[i as int]);
            assert(after_last(t.drop_last(), c).push(t.last()) + s@.skip(i + 1) =~= after_last(
                s@.take(i as int),
                c,
            ) + s@.skip(i as int));
        }
    }
    assert(after_last(s@.take(i as int), c) =~= Seq::<char>::empty());
    let r = string_of(&sub_chars(&v, i, v.len()));
    assert(r@ =~= s@.skip(i as int));
    assert(Seq::<char>::empty() + s@.skip(i as int) =~= s@.skip(i as int));
    r
}

proof fn lemma_after_last_step(s: Seq<char>, c: char, n: int)
    requires
        n == s.len(),
    ensures
        after_last(s, c) == after_last(s.take(n), c) + s.skip(n),
{
    assert(s.take(n) =~= s);
    assert(after_last(s, c) + s.skip(n) =~= after_last(s, c));
}

/// A letter from `a` to `z` in upper case; other characters as they are.
pub open spec fn upper(c: char) -> char {
    if 'a' <= c && c <= 'z' { ((c as u32 - 32) as u8) as char } else { c }
}

/// A text with the letters from `a` to `z` in upper case.
pub open spec fn uppercase(s: Seq<char>) -> Seq<char> {
    Seq::new(s.len(), |i: int| upper(s[i]))
}

/// Turns the letters from `a` to `z` into upper case.
pub fn to_upper(s: &str) -> (r: String)
    ensures
        r@ == uppercase(s@),
{
    let v = chars_of(s);
    let mut r = String::new();
    let mut i: usize = 0;
    assert(r@ =~= uppercase(s@).take(0));
    while i < v.len()
        invariant
            i <= v@.len(),
            v@ == s@,
            r@ == uppercase(s@).take(i as int),
        decreases v@.len() - i,
    {
        let c = v[i];
        let u = if 'a' <= c && c <= 'z' { ((c as u32 - 32) as u8) as char } else { c };
        r.push(u);
        assert(uppercase(s@).take(i + 1) =~= uppercase(s@).take(i as int).push(u));
        i = i + 1;
    }
    assert(uppercase(s@).take(i as int) =~= uppercase(s@));
    r
}

// ----------------------------------------------------------------- joining

/// Two texts, one after the other.
pub fn cat2(a: &str, b: &str) -> (r: String)
    ensures
        r@ == a@ + b@,
{
    let mut r = a.to_owned();
    r.append(b);
    r
}

/// Three texts, one after the other.
pub fn cat3(a: &str, b: &str, c: &str) -> (r: String)
    ensures
        r@ == a@ + b@ + c@,
{
    let mut r = cat2(a, b);
    r.append(c);
    r
}

/// Four texts, one after the other.
pub fn cat4(a: &str, b: &str, c: &str, d: &str) -> (r: String)
    ensures
        r@ == a@ + b@ + c@ + d@,
{
    let mut r = cat3(a, b, c);
    r.append(d);
    r
}

/// Five texts, one after the other.
pub fn cat5(a: &str, b: &str, c: &str, d: &str, e: &str) -> (r: String)
    ensures
        r@ == a@ + b@ + c@ + d@ + e@,
{
    let mut r = cat4(a, b, c, d);
    r.append(e);
    r
}

/// Texts in order, with a separator between them.
pub open spec fn joined(v: Seq<Seq<char>>, sep: Seq<char>) -> Seq<char>
    decreases v.len(),
{
    if v.len() == 0 {
        Seq::empty()
    } else if v.len() == 1 {
        v[0]
    } else {
        joined(v.drop_last(), sep) + sep + v.last()
    }
}

/// Joins texts.
pub fn join(v: &Vec<String>, sep: &str) -> (r: String)
    ensures
        r@ == joined(Seq::new(v@.len(), |i: int| v@[i]@), sep@),
{
    let ghost all = Seq::new(v@.len(), |i: int| v@[i]@);
    let mut r = String::new();
    let mut i: usize = 0;
    assert(r@ =~= joined(all.take(0), sep@));
    while i < v.len()
        invariant
            i <= v@.len(),
            all == Seq::new(v@.len(), |i: int| v@[i]@),
            r@ == joined(all.take(i as int), sep@),
        decreases v@.len() - i,
    {
        assert(all.take(i + 1).drop_last() =~= all.take(i as int));
        if i > 0 {
            r.append(sep);
        } else {
            assert(r@ + all[0] =~= all[0]);
        }
        r.append(v[i].as_str());
        i = i + 1;
    }
    assert(all.take(i as int) =~= all);
    r
}

// ------------------------------------------------------------ reading back

proof fn lemma_digits_read(n: nat, base: nat)
    requires
        2 <= base <= 16,
    ensures
        number(digits(n, base), base) == Some(n),
        digits(n, base).len() > 0,
        digits(n, base)[0] != '+',
    decreases n,
{
    if n < base {
        let s = seq![digit_char(n as int)];
        assert(s.drop_last() =~= Seq::<char>::empty());
        assert(digit_value(digit_char(n as int), base) == Some(n));
        assert(number(s.drop_last(), base) == Some(0nat));
        assert(s.last() == digit_char(n as int));
        assert(0 * base == 0) by (nonlinear_arith);
        assert(number(s, base) == Some((0 * base + n) as nat));
        assert(digits(n, base) =~= s);
    } else {
        let q = n / base;
        let d = n % base;
        assert(q < n && d < base && q * base + d == n) by (nonlinear_arith)
            requires
                n > 0,
                base >= 2,
                q == n / base,
                d == n % base,
        ;
        lemma_digits_read(q, base);
        let s = digits(q, base).push(digit_char(d as int));
        assert(s.drop_last() =~= digits(q, base));
        assert(digit_value(digit_char(d as int), base) == Some(d));
        assert(s[0] == digits(q, base)[0]);
        assert(digits(n, base) =~= s);
    }
}

proof fn lemma_leading_zeros(s: Seq<char>, k: nat, base: nat)
    requires
        2 <= base <= 16,
    ensures
        number(repeated('0', k) + s, base) == number(s, base),
    decreases s.len(), k,
{
    let t = repeated('0', k) + s;
    if s.len() > 0 {
        lemma_leading_zeros(s.drop_last(), k, base);
        assert(t.drop_last() =~= repeated('0', k) + s.drop_last());
        assert(t.last() == s.last());
    } else if k > 0 {
        lemma_leading_zeros(s, (k - 1) as nat, base);
        assert(t.drop_last() =~= repeated('0', (k - 1) as nat) + s);
        assert(t.last() == '0');
        assert(digit_value('0', base) == Some(0nat));
        assert(0 * base == 0) by (nonlinear_arith);
    } else {
        assert(t =~= s);
    }
}

/// Law: a number that was written reads back as the same number, with leading
/// zeros or without.
pub proof fn law_numbers_read_back(n: nat, base: nat, width: nat, max: nat)
    requires
        2 <= base <= 16,
        n <= max,
    ensures
        parsed(digits(n, base), base, max) == Some(n),
        parsed(padded_left(digits(n, base), width, '0'), base, max) == Some(n),
{
    let d = digits(n, base);
    lemma_digits_read(n, base);
    if d.len() < width {
        let k = (width - d.len()) as nat;
        lemma_leading_zeros(d, k, base);
        assert((repeated('0', k) + d)[0] == '0');
    }
}

proof fn lemma_padded_step(n: nat, w: nat)
    requires
        w >= 2,
        n < pow2(4 * w),
    ensures
        padded_left(digits(n, 16), w, '0') == padded_left(digits(n / 16, 16), (w - 1) as nat, '0').push(
            digit_char(n as int % 16),
        ),
{
    let a = digits(n / 16, 16);
    let d = digit_char(n as int % 16);
    if n < 16 {
        assert(a =~= seq!['0']);
        assert(padded_left(digits(n, 16), w, '0') =~= padded_left(a, (w - 1) as nat, '0').push(d));
    } else {
        assert(digits(n, 16) =~= a.push(d));
        assert(padded_left(digits(n, 16), w, '0') =~= padded_left(a, (w - 1) as nat, '0').push(d));
    }
}

/// Law: a number below `16^w` in `w` hexadecimal digits has its digits in
/// place, the most significant first.
pub proof fn law_hex_has_its_digits(n: nat, w: nat)
    requires
        w >= 1,
        n < pow2(4 * w),
    ensures
        padded_left(digits(n, 16), w, '0').len() == w,
        forall|k: int|
            0 <= k < w ==> #[trigger] padded_left(digits(n, 16), w, '0')[k] == digit_char(
                (n as int / pow2((4 * (w - 1 - k)) as nat) as int) % 16,
            ),
    decreases w,
{
    lemma2_to64();
    let s = padded_left(digits(n, 16), w, '0');
    if w == 1 {
        assert(n < 16);
        assert(s =~= seq![digit_char(n as int)]);
        assert(n as int / 1 == n);
    } else {
        let v = (w - 1) as nat;
        let m = n / 16;
        lemma_pow2_adds(4, 4 * v);
        assert(m < pow2(4 * v)) by (nonlinear_arith)
            requires
                n < 16 * pow2(4 * v),
                m == n / 16,
        ;
        law_hex_has_its_digits(m, v);
        lemma_padded_step(n, w);
        let r = padded_left(digits(m, 16), v, '0');
        assert forall|k: int| 0 <= k < w implies #[trigger] s[k] == digit_char(
            (n as int / pow2((4 * (w - 1 - k)) as nat) as int) % 16,
        ) by {
            if k < v {
                assert(s[k] == r[k]);
                let e = (4 * (v - 1 - k)) as nat;
                lemma_pow2_pos(e);
                lemma_pow2_adds(4, e);
                lemma_div_denominator(n as int, 16, pow2(e) as int);
                assert((4 * (w - 1 - k)) as nat == 4 + e);
            } else {
                assert(n as int / 1 == n);
            }
        }
    }
}

/// Law: reading a number goes digit by digit. A digit is its own value, one
/// more digit multiplies by the base and adds, and nothing is read where a
/// character is no digit or the number grows too large.
pub proof fn law_numbers_are_read_digit_by_digit(s: Seq<char>, c: char, base: nat, max: nat)
    requires
        2 <= base <= 16,
    ensures
        parsed(Seq::empty(), base, max) is None,
        digit_value(c, base) is None && c != '+' ==> parsed(seq![c], base, max) is None,
        digit_value(c, base) is Some && digit_value(c, base)->0 <= max ==> parsed(seq![c], base, max) == digit_value(
            c,
            base,
        ),
        s.len() > 0 && s != seq!['+'] ==> parsed(s.push(c), base, max) == match (parsed(s, base, max), digit_value(c, base)) {
            (Some(n), Some(d)) => if n * base + d <= max { Some(n * base + d) } else { None::<nat> },
            _ => None::<nat>,
        },
        s.len() > 0 && s[0] != '+' ==> parsed(seq!['+'] + s, base, max) == parsed(s, base, max),
{
    assert(seq![c].drop_last() =~= Seq::<char>::empty());
    assert(0 * base == 0) by (nonlinear_arith);
    assert(seq!['+'].drop_first() =~= Seq::<char>::empty());
    assert((seq!['+'] + s).drop_first() =~= s);
    if s.len() > 0 && s != seq!['+'] {
        let t = if s[0] == '+' { s.drop_first() } else { s };
        let u = if s[0] == '+' { s.push(c).drop_first() } else { s.push(c) };
        assert(u =~= t.push(c));
        assert(t.push(c).drop_last() =~= t);
        if s[0] == '+' && s.len() == 1 {
            assert(s =~= seq!['+']);
        }
        assert(t.len() > 0);
        if number(t, base) is Some && digit_value(c, base) is Some {
            let n = number(t, base)->0;
            assert(n * base >= n) by (nonlinear_arith)
                requires
                    base >= 2,
            ;
        }
    }
}

/// Law: trimming takes white space off both ends and nothing else.
pub proof fn law_trimming_takes_only_blanks(s: Seq<char>) -> (r: (int, int))
    ensures
        0 <= r.0 <= r.1 <= s.len(),
        trimmed(s) == s.subrange(r.0, r.1),
        forall|i: int| 0 <= i < r.0 || r.1 <= i < s.len() ==> blank(#[trigger] s[i]),
        r.0 < r.1 ==> !blank(s[r.0]) && !blank(s[r.1 - 1]),
{
    let a = lemma_front(s);
    let t = s.skip(a);
    let b = lemma_back(t);
    assert(t.take(b) =~= s.subrange(a, a + b));
    assert forall|i: int| 0 <= i < a || a + b <= i < s.len() implies blank(#[trigger] s[i]) by {
        if i >= a + b {
            assert(blank(t[i - a]));
        }
    }
    if b > 0 {
        assert(t[0] == s[a]);
        assert(t[b - 1] == s[a + b - 1]);
    }
    (a, a + b)
}

proof fn lemma_front(s: Seq<char>) -> (k: int)
    ensures
        0 <= k <= s.len(),
        trimmed_start(s) == s.skip(k),
        forall|i: int| 0 <= i < k ==> blank(#[trigger] s[i]),
        k < s.len() ==> !blank(s[k]),
    decreases s.len(),
{
    if s.len() > 0 && blank(s[0]) {
        let t = s.drop_first();
        let k = lemma_front(t);
        assert(t.skip(k) =~= s.skip(k + 1));
        assert forall|i: int| 0 <= i < k + 1 implies blank(#[trigger] s[i]) by {
            if i > 0 {
                assert(blank(t[i - 1]));
            }
        }
        if k < t.len() {
            assert(t[k] == s[k + 1]);
        }
        k + 1
    } else {
        assert(s.skip(0) =~= s);
        0
    }
}

proof fn lemma_back(s: Seq<char>) -> (k: int)
    ensures
        0 <= k <= s.len(),
        trimmed_end(s) == s.take(k),
        forall|i: int| k <= i < s.len() ==> blank(#[trigger] s[i]),
        k > 0 ==> !blank(s[k - 1]),
    decreases s.len(),
{
    if s.len() > 0 && blank(s.last()) {
        let t = s.drop_last();
        let k = lemma_back(t);
        assert(t.take(k) =~= s.take(k));
        assert forall|i: int| k <= i < s.len() implies blank(#[trigger] s[i]) by {
            if i < t.len() {
                assert(blank(t[i]));
            }
        }
        if k > 0 {
            assert(t[k - 1] == s[k - 1]);
        }
        k
    } else {
        assert(s.take(s.len() as int) =~= s);
        s.len() as int
    }
}

/// Law: splitting loses nothing. The parts joined again are the text, and no
/// part holds the separator.
pub proof fn law_split_parts_join_again(s: Seq<char>, c: char)
    ensures
        joined(split_text(s, c), seq![c]) == s,
        split_text(s, c).len() > 0,
        forall|i: int, j: int|
            0 <= i < split_text(s, c).len() && 0 <= j < split_text(s, c)[i].len() ==> #[trigger] split_text(s, c)[i][j]
                != c,
    decreases s.len(),
{
    lemma_first_of(s, c);
    let k = first_of(s, c);
    let v = split_text(s, c);
    if k >= s.len() {
        assert(v =~= seq![s]);
    } else {
        let rest = s.skip(k + 1);
        law_split_parts_join_again(rest, c);
        let w = split_text(rest, c);
        assert(v =~= seq![s.take(k)] + w);
        lemma_joined_front(s.take(k), w, seq![c]);
        assert(s.take(k) + seq![c] + rest =~= s);
        assert forall|i: int, j: int| 0 <= i < v.len() && 0 <= j < v[i].len() implies #[trigger] v[i][j] != c by {
            if i > 0 {
                assert(v[i] == w[i - 1]);
                assert(w[i - 1][j] != c);
            }
        }
    }
}

proof fn lemma_joined_front(a: Seq<char>, w: Seq<Seq<char>>, sep: Seq<char>)
    requires
        w.len() > 0,
    ensures
        joined(seq![a] + w, sep) == a + sep + joined(w, sep),
    decreases w.len(),
{
    let v = seq![a] + w;
    assert(v.last() == w.last());
    if w.len() == 1 {
        assert(v.drop_last() =~= seq![a]);
        assert(joined(seq![a], sep) == a);
        assert(joined(w, sep) == w[0]);
    } else {
        lemma_joined_front(a, w.drop_last(), sep);
        assert(v.drop_last() =~= seq![a] + w.drop_last());
        assert(a + sep + joined(w.drop_last(), sep) + sep + w.last() =~= a + sep + (joined(w.drop_last(), sep) + sep
            + w.last()));
    }
}

/// Law: splitting into at most `n` parts loses nothing either. Only the last
/// part can hold the separator, and only where there are `n` parts.
pub proof fn law_few_parts_join_again(s: Seq<char>, n: nat, c: char)
    requires
        n >= 1,
    ensures
        joined(splitn_text(s, n, c), seq![c]) == s,
        1 <= splitn_text(s, n, c).len() <= n,
        forall|i: int, j: int|
            0 <= i < splitn_text(s, n, c).len() && 0 <= j < splitn_text(s, n, c)[i].len() && (i < splitn_text(
                s,
                n,
                c,
            ).len() - 1 || splitn_text(s, n, c).len() < n) ==> #[trigger] splitn_text(s, n, c)[i][j] != c,
    decreases n,
{
    lemma_first_of(s, c);
    let k = first_of(s, c);
    let v = splitn_text(s, n, c);
    if n <= 1 || k >= s.len() {
        assert(v =~= seq![s]);
    } else {
        let rest = s.skip(k + 1);
        let m = (n - 1) as nat;
        law_few_parts_join_again(rest, m, c);
        let w = splitn_text(rest, m, c);
        assert(v =~= seq![s.take(k)] + w);
        lemma_joined_front(s.take(k), w, seq![c]);
        assert(s.take(k) + seq![c] + rest =~= s);
        assert forall|i: int, j: int|
            0 <= i < v.len() && 0 <= j < v[i].len() && (i < v.len() - 1 || v.len() < n) implies #[trigger] v[i][j]
            != c by {
            if i > 0 {
                assert(v[i] == w[i - 1]);
                assert(w[i - 1][j] != c);
            }
        }
    }
}

/// Law: what follows the last separator is the end of the text, holds no
/// separator, and is the whole text or stands right behind one.
pub proof fn law_last_part_is_the_end(s: Seq<char>, c: char)
    ensures
        after_last(s, c).len() <= s.len(),
        after_last(s, c) == s.skip(s.len() - after_last(s, c).len()),
        !after_last(s, c).contains(c),
        after_last(s, c).len() < s.len() ==> s[s.len() - after_last(s, c).len() - 1] == c,
    decreases s.len(),
{
    let r = after_last(s, c);
    if s.len() == 0 || s.last() == c {
        assert(r =~= s.skip(s.len() as int));
    } else {
        let d = s.drop_last();
        law_last_part_is_the_end(d, c);
        let q = after_last(d, c);
        assert(r =~= s.skip(s.len() - r.len())) by {
            assert forall|i: int| 0 <= i < r.len() implies r[i] == s.skip(s.len() - r.len())[i] by {
                if i < q.len() {
                    assert(q[i] == d.skip(d.len() - q.len())[i]);
                }
            }
        }
        assert forall|i: int| 0 <= i < r.len() implies r[i] != c by {
            if i < q.len() {
                assert(q[i] == r[i]);
                assert(q.contains(q[i]));
            }
        }
    }
}

/// Law: padding adds only the filler, and only as much as is missing.
pub proof fn law_padding_fills_up(s: Seq<char>, width: nat, c: char)
    ensures
        padded_left(s, width, c).len() == if s.len() < width { width } else { s.len() },
        padded_left(s, width, c).skip(padded_left(s, width, c).len() - s.len()) == s,
        forall|i: int| 0 <= i < padded_left(s, width, c).len() - s.len() ==> #[trigger] padded_left(s, width, c)[i] == c,
        padded_right(s, width).len() == if s.len() < width { width } else { s.len() },
        padded_right(s, width).take(s.len() as int) == s,
        forall|i: int| s.len() <= i < padded_right(s, width).len() ==> #[trigger] padded_right(s, width)[i] == ' ',
{
    let l = padded_left(s, width, c);
    let r = padded_right(s, width);
    assert(l.skip(l.len() - s.len()) =~= s);
    assert(r.take(s.len() as int) =~= s);
}

/// Law: a part without the separator, the separator and a rest split into that
/// part and the parts of the rest.
pub proof fn law_parts_split_off(a: Seq<char>, rest: Seq<char>, c: char)
    requires
        !a.contains(c),
    ensures
        split_text(a + seq![c] + rest, c) == seq![a] + split_text(rest, c),
        split_text(a, c) == seq![a],
{
    let s = a + seq![c] + rest;
    lemma_first_of(s, c);
    lemma_first_of(a, c);
    let k = first_of(s, c);
    if k < a.len() {
        assert(s[k] == a[k]);
        assert(a.contains(a[k]));
    }
    assert(s[a.len() as int] == c);
    assert(k == a.len());
    assert(s.take(k) =~= a);
    assert(s.skip(k + 1) =~= rest);
    let j = first_of(a, c);
    if j < a.len() {
        assert(a.contains(a[j]));
    }
}

/// Law: a number is written with digits only.
pub proof fn law_numbers_hold_only_digits(n: nat, base: nat, c: char)
    requires
        2 <= base <= 16,
        digit_value(c, 16) is None,
    ensures
        !digits(n, base).contains(c),
    decreases n,
{
    let s = digits(n, base);
    if n < base {
        assert(s =~= seq![digit_char(n as int)]);
        assert(digit_value(digit_char(n as int), 16) is Some);
    } else {
        let q = n / base;
        let d = n % base;
        assert(q < n && d < base) by (nonlinear_arith)
            requires
                n > 0,
                base >= 2,
                q == n / base,
                d == n % base,
        ;
        law_numbers_hold_only_digits(q, base, c);
        assert(s =~= digits(q, base).push(digit_char(d as int)));
        assert(digit_value(digit_char(d as int), 16) is Some);
        if s.contains(c) {
            let i = choose|i: int| 0 <= i < s.len() && s[i] == c;
            if i < digits(q, base).len() {
                assert(digits(q, base)[i] == c);
                assert(digits(q, base).contains(c));
            }
        }
    }
}

/// Law: a part that stands between two others stands in the whole.
pub proof fn law_parts_are_contained(a: Seq<char>, p: Seq<char>, b: Seq<char>)
    ensures
        contains_text(a + p + b, p),
{
    let s = a + p + b;
    assert(s.subrange(a.len() as int, (a.len() + p.len()) as int) =~= p);
    assert(stands_at(s, p, a.len() as int));
}

/// Law: a text begins with another exactly where its first characters are that
/// text's.
pub proof fn law_beginnings(s: Seq<char>, p: Seq<char>)
    ensures
        begins_with(s, p) <==> p.len() <= s.len() && forall|i: int| 0 <= i < p.len() ==> #[trigger] s[i] == p[i],
{
    if p.len() <= s.len() {
        if begins_with(s, p) {
            assert forall|i: int| 0 <= i < p.len() implies #[trigger] s[i] == p[i] by {
                assert(s.subrange(0, p.len() as int)[i] == s[i]);
            }
        }
        if forall|i: int| 0 <= i < p.len() ==> #[trigger] s[i] == p[i] {
            assert(s.subrange(0, p.len() as int) =~= p);
        }
    }
}

/// Law: three parts between two separators are split into those parts, the
/// last one whole.
pub proof fn law_three_parts(a: Seq<char>, b: Seq<char>, rest: Seq<char>, c: char)
    requires
        !a.contains(c),
        !b.contains(c),
    ensures
        splitn_text(a + seq![c] + (b + seq![c] + rest), 3, c) == seq![a, b, rest],
{
    let t = b + seq![c] + rest;
    let s = a + seq![c] + t;
    lemma_first_is(s, a, c);
    lemma_first_is(t, b, c);
    assert(s.take(a.len() as int) =~= a);
    assert(s.skip(a.len() as int + 1) =~= t);
    assert(t.take(b.len() as int) =~= b);
    assert(t.skip(b.len() as int + 1) =~= rest);
    assert(splitn_text(rest, 1, c) =~= seq![rest]);
    assert(splitn_text(t, 2, c) =~= seq![b] + seq![rest]);
    assert(splitn_text(s, 3, c) =~= seq![a] + (seq![b] + seq![rest]));
}

proof fn lemma_first_is(s: Seq<char>, a: Seq<char>, c: char)
    requires
        !a.contains(c),
        a.len() < s.len(),
        s.take(a.len() as int) =~= a,
        s[a.len() as int] == c,
    ensures
        first_of(s, c) == a.len(),
{
    lemma_first_of(s, c);
    let k = first_of(s, c);
    if k < a.len() {
        assert(s.take(a.len() as int)[k] == s[k]);
        assert(a.contains(a[k]));
    }
}

/// Law: upper case changes the letters from `a` to `z` and nothing else.
pub proof fn law_upper_case(s: Seq<char>)
    ensures
        uppercase(s).len() == s.len(),
        forall|i: int|
            0 <= i < s.len() && !('a' <= s[i] && s[i] <= 'z') ==> #[trigger] uppercase(s)[i] == s[i],
        forall|i: int|
            0 <= i < s.len() && 'a' <= s[i] && s[i] <= 'z' ==> #[trigger] uppercase(s)[i] as int == s[i] as int - 32,
{
    assert forall|i: int| 0 <= i < s.len() && 'a' <= s[i] && s[i] <= 'z' implies #[trigger] uppercase(s)[i] as int
        == s[i] as int - 32 by {
        let n = s[i] as u32;
        assert(97 <= n <= 122);
        assert(((n - 32) as u8) as int == n - 32);
    }
}

/// Law: a text without the separator is one part.
pub proof fn law_unseparated_text_is_whole(s: Seq<char>, n: nat, c: char)
    requires
        !s.contains(c),
        n >= 1,
    ensures
        splitn_text(s, n, c) == seq![s],
{
    lemma_first_of(s, c);
    let k = first_of(s, c);
    if k < s.len() {
        assert(s.contains(s[k]));
    }
}

/// Law: a number is written in decimal, so that it reads back as itself.
pub proof fn law_decimals_read_back(n: nat, max: nat)
    requires
        n <= max,
    ensures
        parsed(dec(n), 10, max) == Some(n),
{
    law_numbers_read_back(n, 10, 0, max);
}

/// Law: among the ASCII characters the space and the five controls from tab to
/// carriage return are blank, and no other.
pub proof fn law_ascii_blanks(c: char)
    requires
        (c as u32) < 0x80,
    ensures
        blank(c) <==> c == ' ' || c == '\t' || c == '\n' || c == '\r' || c as u32 == 0xb || c as u32 == 0xc,
{
}

} // verus!
