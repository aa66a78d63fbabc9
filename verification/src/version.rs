//! Version numbers of driver executables and of Node installations, and their order.
//!
//! A version is read as a list of numbers. Two versions are compared number by number
//! from the left; a version that runs out of numbers counts as continuing with zeros, so
//! `1.2` and `1.2.0` rank the same.

use crate::text::{chars_of, split_chars, split_on};
use std::cmp::Ordering;
use vstd::prelude::*;

verus! {

/// What `char::is_numeric` answers: whether the character belongs to one of the Unicode
/// general categories for numbers.
pub uninterp spec fn unicode_numeric(c: char) -> bool;

/// Trusted: calls `char::is_numeric` of the standard library. The answer depends on the
/// character alone.
#[verifier::external_body]
fn is_numeric(c: char) -> (r: bool)
    ensures
        r == unicode_numeric(c),
{
    c.is_numeric()
}

/// An ASCII decimal digit.
pub open spec fn is_digit(c: char) -> bool {
    '0' <= c && c <= '9'
}

/// The value of an ASCII decimal digit.
pub open spec fn digit_value(c: char) -> nat {
    (c as u32 - '0' as u32) as nat
}

/// Every character is an ASCII decimal digit.
pub open spec fn all_digits(s: Seq<char>) -> bool {
    forall|i: int| 0 <= i < s.len() ==> is_digit(#[trigger] s[i])
}

/// The number that a text of decimal digits writes.
pub open spec fn decimal_value(digits: Seq<char>) -> nat
    decreases digits.len(),
{
    if digits.len() == 0 {
        0
    } else {
        decimal_value(digits.drop_last()) * 10 + digit_value(digits.last())
    }
}

/// The number that `digits` writes, where it is a non-empty text of decimal digits and the
/// number fits 32 bits.
pub open spec fn decimal_u32(digits: Seq<char>) -> Option<u32> {
    if digits.len() > 0 && all_digits(digits) && decimal_value(digits) <= u32::MAX {
        Some(decimal_value(digits) as u32)
    } else {
        None
    }
}

/// More digits never write a smaller number.
pub proof fn lemma_decimal_grows(digits: Seq<char>, k: int)
    requires
        0 <= k <= digits.len(),
    ensures
        decimal_value(digits.take(k)) <= decimal_value(digits),
    decreases digits.len(),
{
    if k == digits.len() {
        assert(digits.take(k) =~= digits);
    } else {
        assert(digits.drop_last().take(k) =~= digits.take(k));
        lemma_decimal_grows(digits.drop_last(), k);
    }
}

/// Reads the characters of `chars` from `from` up to `to` as a decimal number.
pub fn parse_decimal(chars: &Vec<char>, from: usize, to: usize) -> (r: Option<u32>)
    requires
        from <= to <= chars@.len(),
    ensures
        r == decimal_u32(chars@.subrange(from as int, to as int)),
{
    let ghost whole = chars@.subrange(from as int, to as int);
    if from == to {
        return None;
    }
    let mut total: u64 = 0;
    let mut i: usize = from;
    assert(whole.take(0) =~= Seq::<char>::empty());
    while i < to
        invariant
            from <= i <= to <= chars@.len(),
            whole == chars@.subrange(from as int, to as int),
            all_digits(whole.take(i - from)),
            total == decimal_value(whole.take(i - from)),
            total <= u32::MAX,
        decreases to - i,
    {
        let c = chars[i];
        assert(whole[i - from] == c);
        if !('0' <= c && c <= '9') {
            return None;
        }
        let digit: u64 = (c as u32 - '0' as u32) as u64;
        let next: u64 = total * 10 + digit;
        proof {
            let upto = whole.take(i - from + 1);
            assert(upto.drop_last() =~= whole.take(i - from));
            assert(upto.last() == c);
            assert(next == decimal_value(upto));
            lemma_decimal_grows(whole, i - from + 1);
            assert forall|k: int| 0 <= k < upto.len() implies is_digit(#[trigger] upto[k]) by {
                if k < i - from {
                    assert(whole.take(i - from)[k] == upto[k]);
                }
            }
        }
        if next > 0xffff_ffff {
            return None;
        }
        total = next;
        i += 1;
    }
    assert(whole.take(to - from) =~= whole);
    Some(total as u32)
}

/// How many characters at the start of `s` are numeric.
pub open spec fn numeric_run(s: Seq<char>) -> nat
    decreases s.len(),
{
    if s.len() > 0 && unicode_numeric(s.first()) {
        1 + numeric_run(s.drop_first())
    } else {
        0
    }
}

/// The numeric run ends where the first character that is not numeric stands.
pub proof fn lemma_numeric_run(s: Seq<char>, n: int)
    requires
        0 <= n <= s.len(),
        forall|j: int| 0 <= j < n ==> unicode_numeric(#[trigger] s[j]),
        n < s.len() ==> !unicode_numeric(s[n]),
    ensures
        numeric_run(s) == n,
    decreases n,
{
    if n > 0 {
        assert(unicode_numeric(s[0]));
        let rest = s.drop_first();
        assert forall|j: int| 0 <= j < n - 1 implies unicode_numeric(#[trigger] rest[j]) by {
            assert(rest[j] == s[j + 1]);
        }
        if n - 1 < rest.len() {
            assert(rest[n - 1] == s[n]);
        }
        lemma_numeric_run(rest, n - 1);
    }
}

/// The number a piece of a driver version stands for: its leading numeric characters,
/// read as a decimal number. A piece without such a number does not count.
pub open spec fn loose_number(piece: Seq<char>) -> Option<u32> {
    decimal_u32(piece.take(numeric_run(piece) as int))
}

/// [`loose_number`] as a function value.
pub open spec fn loosely() -> spec_fn(Seq<char>) -> Option<u32> {
    |piece: Seq<char>| loose_number(piece)
}

/// The numbers of a driver version such as `1.0.17-beta`: the pieces between dots, each
/// read by [`loose_number`], those without a number left out.
pub open spec fn version_numbers(version: Seq<char>) -> Seq<u32> {
    split_on(version, '.').filter_map(loosely())
}

/// `s` without the occurrences of `c` at its start.
pub open spec fn without_leading(s: Seq<char>, c: char) -> Seq<char>
    decreases s.len(),
{
    if s.len() > 0 && s.first() == c {
        without_leading(s.drop_first(), c)
    } else {
        s
    }
}

/// The number a piece of a Node version stands for: the whole piece read as a decimal
/// number, which a plus sign may precede. A piece that is anything else does not count.
pub open spec fn strict_number(piece: Seq<char>) -> Option<u32> {
    if piece.len() > 0 && piece.first() == '+' {
        decimal_u32(piece.drop_first())
    } else {
        decimal_u32(piece)
    }
}

/// [`strict_number`] as a function value.
pub open spec fn strictly() -> spec_fn(Seq<char>) -> Option<u32> {
    |piece: Seq<char>| strict_number(piece)
}

/// The numbers of a Node version such as `v22.11.0`: leading `v`s aside, the pieces
/// between dots, each read by [`strict_number`], those that are no number left out.
pub open spec fn node_version_numbers(version: Seq<char>) -> Seq<u32> {
    split_on(without_leading(version, 'v'), '.').filter_map(strictly())
}

fn read_loose(piece: &Vec<char>) -> (r: Option<u32>)
    ensures
        r == loose_number(piece@),
{
    let mut n: usize = 0;
    while n < piece.len() && is_numeric(piece[n])
        invariant
            n <= piece@.len(),
            forall|j: int| 0 <= j < n ==> unicode_numeric(#[trigger] piece@[j]),
        decreases piece@.len() - n,
    {
        n += 1;
    }
    proof {
        lemma_numeric_run(piece@, n as int);
        assert(piece@.take(n as int) =~= piece@.subrange(0, n as int));
    }
    parse_decimal(piece, 0, n)
}

fn read_strict(piece: &Vec<char>) -> (r: Option<u32>)
    ensures
        r == strict_number(piece@),
{
    if piece.len() > 0 && piece[0] == '+' {
        assert(piece@.drop_first() =~= piece@.subrange(1, piece@.len() as int));
        parse_decimal(piece, 1, piece.len())
    } else {
        assert(piece@ =~= piece@.subrange(0, piece@.len() as int));
        parse_decimal(piece, 0, piece.len())
    }
}

/// Reads the numbers of a driver version.
pub fn parse_version(version: &str) -> (r: Vec<u32>)
    ensures
        r@ == version_numbers(version@),
{
    let chars = chars_of(version);
    let pieces = split_chars(&chars, '.');
    let ghost read = loosely();
    let mut out: Vec<u32> = Vec::new();
    let mut i: usize = 0;
    assert(pieces.deep_view().take(0) =~= Seq::<Seq<char>>::empty());
    while i < pieces.len()
        invariant
            i <= pieces@.len(),
            read == loosely(),
            out@ == pieces.deep_view().take(i as int).filter_map(read),
        decreases pieces@.len() - i,
    {
        proof {
            pieces.deep_view().lemma_filter_map_take_succ(read, i as int);
            crate::text::lemma_chars_view(pieces@[i as int]);
        }
        match read_loose(&pieces[i]) {
            Some(n) => {
                out.push(n);
            },
            None => {},
        }
        i += 1;
    }
    assert(pieces.deep_view().take(i as int) =~= pieces.deep_view());
    out
}

/// Reads the numbers of a Node version.
pub fn parse_node_version(version: &str) -> (r: Vec<u32>)
    ensures
        r@ == node_version_numbers(version@),
{
    let all = chars_of(version);
    let mut start: usize = 0;
    assert(all@.subrange(0, all@.len() as int) =~= all@);
    while start < all.len() && all[start] == 'v'
        invariant
            start <= all@.len(),
            without_leading(all@, 'v') == without_leading(
                all@.subrange(start as int, all@.len() as int),
                'v',
            ),
        decreases all@.len() - start,
    {
        proof {
            let rest = all@.subrange(start as int, all@.len() as int);
            assert(rest.first() == all@[start as int]);
            assert(rest.drop_first() =~= all@.subrange(start + 1, all@.len() as int));
        }
        start += 1;
    }
    let mut chars: Vec<char> = Vec::new();
    let mut k: usize = start;
    while k < all.len()
        invariant
            start <= k <= all@.len(),
            chars@ == all@.subrange(start as int, k as int),
        decreases all@.len() - k,
    {
        chars.push(all[k]);
        assert(chars@ =~= all@.subrange(start as int, k + 1));
        k += 1;
    }
    proof {
        let rest = all@.subrange(start as int, all@.len() as int);
        if rest.len() > 0 {
            assert(rest.first() == all@[start as int]);
        }
        assert(chars@ == without_leading(all@, 'v'));
    }
    let pieces = split_chars(&chars, '.');
    let ghost read = strictly();
    let mut out: Vec<u32> = Vec::new();
    let mut i: usize = 0;
    assert(pieces.deep_view().take(0) =~= Seq::<Seq<char>>::empty());
    while i < pieces.len()
        invariant
            i <= pieces@.len(),
            read == strictly(),
            out@ == pieces.deep_view().take(i as int).filter_map(read),
        decreases pieces@.len() - i,
    {
        proof {
            pieces.deep_view().lemma_filter_map_take_succ(read, i as int);
            crate::text::lemma_chars_view(pieces@[i as int]);
        }
        match read_strict(&pieces[i]) {
            Some(n) => {
                out.push(n);
            },
            None => {},
        }
        i += 1;
    }
    assert(pieces.deep_view().take(i as int) =~= pieces.deep_view());
    out
}

/// How one version stands to another.
#[derive(Clone, Copy, Debug, PartialEq, Eq, Structural)]
pub enum Rank {
    /// Older.
    Lower,
    /// Neither older nor newer.
    Same,
    /// Newer.
    Higher,
}

/// The number at position `i`; zero beyond the end.
pub open spec fn part_at(v: Seq<u32>, i: int) -> u32 {
    if 0 <= i < v.len() {
        v[i]
    } else {
        0
    }
}

/// The two versions have the same numbers at all positions below `k`.
pub open spec fn agree_below(a: Seq<u32>, b: Seq<u32>, k: int) -> bool {
    forall|j: int| 0 <= j < k ==> part_at(a, j) == part_at(b, j)
}

/// `a` is older than `b`: at the first position where they differ, `a` has the smaller
/// number.
pub open spec fn older(a: Seq<u32>, b: Seq<u32>) -> bool {
    exists|k: int| 0 <= k && agree_below(a, b, k) && part_at(a, k) < part_at(b, k)
}

/// How `a` stands to `b`.
pub open spec fn rank_of(a: Seq<u32>, b: Seq<u32>) -> Rank {
    if older(a, b) {
        Rank::Lower
    } else if older(b, a) {
        Rank::Higher
    } else {
        Rank::Same
    }
}

/// Ranks two lists of version numbers.
pub fn rank_numbers(a: &Vec<u32>, b: &Vec<u32>) -> (r: Rank)
    ensures
        r == rank_of(a@, b@),
        r == Rank::Same <==> forall|j: int| part_at(a@, j) == part_at(b@, j),
{
    let n = if a.len() > b.len() {
        a.len()
    } else {
        b.len()
    };
    let mut i: usize = 0;
    while i < n
        invariant
            i <= n,
            n >= a@.len(),
            n >= b@.len(),
            agree_below(a@, b@, i as int),
        decreases n - i,
    {
        let x = if i < a.len() {
            a[i]
        } else {
            0
        };
        let y = if i < b.len() {
            b[i]
        } else {
            0
        };
        if x < y {
            proof {
                assert(agree_below(a@, b@, i as int) && part_at(a@, i as int) < part_at(
                    b@,
                    i as int,
                ));
                lemma_older_is_one_way(a@, b@);
            }
            return Rank::Lower;
        }
        if y < x {
            proof {
                assert(agree_below(b@, a@, i as int) && part_at(b@, i as int) < part_at(
                    a@,
                    i as int,
                ));
                lemma_older_is_one_way(b@, a@);
            }
            return Rank::Higher;
        }
        i += 1;
    }
    proof {
        assert forall|j: int| part_at(a@, j) == part_at(b@, j) by {}
        lemma_same_numbers(a@, b@);
    }
    Rank::Same
}

/// Versions with the same numbers at every position are neither older than the other.
pub proof fn lemma_same_numbers(a: Seq<u32>, b: Seq<u32>)
    requires
        forall|j: int| part_at(a, j) == part_at(b, j),
    ensures
        !older(a, b),
        !older(b, a),
{
}

/// Of two versions at most one is older than the other.
pub proof fn lemma_older_is_one_way(a: Seq<u32>, b: Seq<u32>)
    requires
        older(a, b),
    ensures
        !older(b, a),
{
    let k = choose|k: int| 0 <= k && agree_below(a, b, k) && part_at(a, k) < part_at(b, k);
    if older(b, a) {
        let m = choose|m: int| 0 <= m && agree_below(b, a, m) && part_at(b, m) < part_at(a, m);
        if m < k {
            assert(part_at(a, m) == part_at(b, m));
        } else if k < m {
            assert(part_at(b, k) == part_at(a, k));
        }
    }
}

/// Being older carries over: older than an older version is older still.
pub proof fn lemma_older_is_transitive(a: Seq<u32>, b: Seq<u32>, c: Seq<u32>)
    requires
        older(a, b),
        older(b, c),
    ensures
        older(a, c),
{
    let k = choose|k: int| 0 <= k && agree_below(a, b, k) && part_at(a, k) < part_at(b, k);
    let m = choose|m: int| 0 <= m && agree_below(b, c, m) && part_at(b, m) < part_at(c, m);
    let n = if k < m {
        k
    } else {
        m
    };
    assert(agree_below(a, c, n)) by {
        assert forall|j: int| 0 <= j < n implies part_at(a, j) == part_at(c, j) by {
            assert(part_at(a, j) == part_at(b, j));
            assert(part_at(b, j) == part_at(c, j));
        }
    }
    if k < m {
        assert(part_at(b, k) == part_at(c, k));
    } else if m < k {
        assert(part_at(a, m) == part_at(b, m));
    }
    assert(0 <= n && agree_below(a, c, n) && part_at(a, n) < part_at(c, n));
}

/// Two versions that differ somewhere differ at a first position.
pub proof fn lemma_first_difference(a: Seq<u32>, b: Seq<u32>, j: int)
    requires
        0 <= j,
        part_at(a, j) != part_at(b, j),
    ensures
        older(a, b) || older(b, a),
    decreases j,
{
    if agree_below(a, b, j) {
        if part_at(a, j) < part_at(b, j) {
            assert(0 <= j && agree_below(a, b, j) && part_at(a, j) < part_at(b, j));
        } else {
            assert(agree_below(b, a, j));
            assert(0 <= j && agree_below(b, a, j) && part_at(b, j) < part_at(a, j));
        }
    } else {
        let i = choose|i: int| 0 <= i < j && part_at(a, i) != part_at(b, i);
        lemma_first_difference(a, b, i);
    }
}

/// The order of versions is total: of two versions one is older, or they have the same
/// numbers at every position.
pub proof fn lemma_rank_is_total(a: Seq<u32>, b: Seq<u32>)
    ensures
        rank_of(a, b) == Rank::Same <==> forall|j: int| part_at(a, j) == part_at(b, j),
        rank_of(a, b) == Rank::Lower <==> rank_of(b, a) == Rank::Higher,
        rank_of(a, b) == Rank::Same <==> rank_of(b, a) == Rank::Same,
{
    if older(a, b) {
        lemma_older_is_one_way(a, b);
        let k = choose|k: int| 0 <= k && agree_below(a, b, k) && part_at(a, k) < part_at(b, k);
        assert(part_at(a, k) != part_at(b, k));
    } else if older(b, a) {
        let k = choose|k: int| 0 <= k && agree_below(b, a, k) && part_at(b, k) < part_at(a, k);
        assert(part_at(a, k) != part_at(b, k));
    } else {
        assert forall|j: int| part_at(a, j) == part_at(b, j) by {
            if 0 <= j && part_at(a, j) != part_at(b, j) {
                lemma_first_difference(a, b, j);
            }
        }
    }
}

/// Not being older carries over too, so that ranking is a total preorder.
pub proof fn lemma_not_older_is_transitive(a: Seq<u32>, b: Seq<u32>, c: Seq<u32>)
    requires
        !older(b, a),
        !older(c, b),
    ensures
        !older(c, a),
{
    lemma_rank_is_total(a, b);
    lemma_rank_is_total(b, c);
    if older(c, a) {
        if older(a, b) {
            lemma_older_is_transitive(c, a, b);
        } else {
            // a and b have the same numbers
            let k = choose|k: int| 0 <= k && agree_below(c, a, k) && part_at(c, k) < part_at(a, k);
            assert(agree_below(c, b, k)) by {
                assert forall|j: int| 0 <= j < k implies part_at(c, j) == part_at(b, j) by {
                    assert(part_at(c, j) == part_at(a, j));
                }
            }
            assert(0 <= k && agree_below(c, b, k) && part_at(c, k) < part_at(b, k));
        }
    }
}

/// How driver version `a` stands to driver version `b`.
pub fn rank_versions(a: &str, b: &str) -> (r: Rank)
    ensures
        r == rank_of(version_numbers(a@), version_numbers(b@)),
{
    let x = parse_version(a);
    let y = parse_version(b);
    rank_numbers(&x, &y)
}

/// How Node version `a` stands to Node version `b`.
pub fn rank_node_versions(a: &str, b: &str) -> (r: Rank)
    ensures
        r == rank_of(node_version_numbers(a@), node_version_numbers(b@)),
{
    let x = parse_node_version(a);
    let y = parse_node_version(b);
    rank_numbers(&x, &y)
}

/// Compares two driver versions such as `1.0.41` and `1.0.17-beta`.
pub fn compare_versions(a: &str, b: &str) -> (r: Ordering)
    ensures
        (r == Ordering::Less) == (rank_of(version_numbers(a@), version_numbers(b@)) == Rank::Lower),
        (r == Ordering::Equal) == (rank_of(version_numbers(a@), version_numbers(b@)) == Rank::Same),
        (r == Ordering::Greater) == (rank_of(version_numbers(a@), version_numbers(b@))
            == Rank::Higher),
{
    match rank_versions(a, b) {
        Rank::Lower => Ordering::Less,
        Rank::Same => Ordering::Equal,
        Rank::Higher => Ordering::Greater,
    }
}

/// Compares two Node versions such as `v22.11.0` and `v18.20.4`.
pub fn compare_node_versions(a: &str, b: &str) -> (r: Ordering)
    ensures
        (r == Ordering::Less) == (rank_of(node_version_numbers(a@), node_version_numbers(b@))
            == Rank::Lower),
        (r == Ordering::Equal) == (rank_of(node_version_numbers(a@), node_version_numbers(b@))
            == Rank::Same),
        (r == Ordering::Greater) == (rank_of(node_version_numbers(a@), node_version_numbers(b@))
            == Rank::Higher),
{
    match rank_node_versions(a, b) {
        Rank::Lower => Ordering::Less,
        Rank::Same => Ordering::Equal,
        Rank::Higher => Ordering::Greater,
    }
}

} // verus!
