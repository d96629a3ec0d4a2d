//! Text as the GUI shows it: decimal and hexadecimal numbers, lists and
//! maps in their debug notation, joined parts, substring search, and the
//! notation of UUIDs and Bluetooth device addresses.
use vstd::prelude::*;
use vstd::arithmetic::power::pow;
use vstd::utf8::{valid_utf8, decode_utf8};
use crate::async_msg::manufacturer_view;

verus! {

/// The decimal digit `d` (0 to 9).
pub open spec fn digit_char(d: int) -> char {
    (d + 48) as char
}

/// The upper-case hexadecimal digit `d` (0 to 15).
pub open spec fn hex_upper(d: int) -> char {
    if d < 10 {
        (d + 48) as char
    } else {
        (d + 55) as char
    }
}

/// The lower-case hexadecimal digit `d` (0 to 15).
pub open spec fn hex_lower(d: int) -> char {
    if d < 10 {
        (d + 48) as char
    } else {
        (d + 87) as char
    }
}

/// Decimal notation of a natural number, without leading zeros.
pub open spec fn nat_text(n: nat) -> Seq<char>
    decreases n,
{
    if n < 10 {
        seq![digit_char(n as int)]
    } else {
        nat_text(n / 10).push(digit_char((n % 10) as int))
    }
}

/// Decimal notation of an integer, with a leading `-` when negative.
pub open spec fn int_text(i: int) -> Seq<char> {
    if i < 0 {
        seq!['-'] + nat_text((-i) as nat)
    } else {
        nat_text(i as nat)
    }
}

/// The parts, with `sep` between each two neighbours.
pub open spec fn seq_join(parts: Seq<Seq<char>>, sep: Seq<char>) -> Seq<char>
    decreases parts.len(),
{
    if parts.len() == 0 {
        Seq::empty()
    } else if parts.len() == 1 {
        parts[0]
    } else {
        seq_join(parts.drop_last(), sep) + sep + parts.last()
    }
}

/// The characters of each text of a list.
pub open spec fn texts_view(v: Seq<Vec<char>>) -> Seq<Seq<char>> {
    v.map_values(|t: Vec<char>| t@)
}

/// Debug notation of a list of bytes: `[1, 2, 3]`.
pub open spec fn bytes_debug(bytes: Seq<u8>) -> Seq<char> {
    seq!['['] + seq_join(bytes.map_values(|b: u8| nat_text(b as nat)), seq![',', ' ']) + seq![
        ']',
    ]
}

/// Debug notation of a map from `u16` keys to byte lists, entries in the
/// given order: `{76: [2, 21], 89: []}`.
pub open spec fn byte_map_debug(entries: Seq<(u16, Seq<u8>)>) -> Seq<char> {
    seq!['{'] + seq_join(
        entries.map_values(
            |e: (u16, Seq<u8>)| nat_text(e.0 as nat) + seq![':', ' '] + bytes_debug(e.1),
        ),
        seq![',', ' '],
    ) + seq!['}']
}

/// Whether `needle` occurs in `hay` as a contiguous run (the empty text occurs
/// everywhere).
pub open spec fn contains_text(hay: Seq<char>, needle: Seq<char>) -> bool {
    exists|i: int| 0 <= i <= hay.len() - needle.len() && #[trigger] hay.subrange(i, i + needle.len()) == needle
}

/// The hexadecimal digit at position `i` (0 to 31, most significant first)
/// of a 128-bit value.
pub open spec fn nibble(v: u128, i: int) -> int {
    (v as int / pow(16, (31 - i) as nat)) % 16
}

/// Number of hyphens before position `j` of the hyphenated notation.
pub open spec fn hyphens_before(j: int) -> int {
    if j < 8 {
        0
    } else if j < 13 {
        1
    } else if j < 18 {
        2
    } else if j < 23 {
        3
    } else {
        4
    }
}

/// The hyphenated lower-case notation of a UUID given by its 128-bit value:
/// 32 hexadecimal digits, most significant first, in groups of 8-4-4-4-12
/// separated by `-`, such as `0000180a-0000-1000-8000-00805f9b34fb`.
pub open spec fn uuid_chars(v: u128) -> Seq<char> {
    Seq::new(
        36,
        |j: int|
            if j == 8 || j == 13 || j == 18 || j == 23 {
                '-'
            } else {
                hex_lower(nibble(v, j - hyphens_before(j)))
            },
    )
}

/// The notation of a Bluetooth device address: each byte as two upper-case
/// hexadecimal digits, separated by `:`, such as `2A:CC:00:34:FA:00`.
pub open spec fn address_chars(address: Seq<u8>) -> Seq<char> {
    seq_join(
        address.map_values(|b: u8| seq![hex_upper(b as int / 16), hex_upper(b as int % 16)]),
        seq![':'],
    )
}

/// The text of a UUID given by its 128-bit value, as `Uuid`'s `Display`
/// writes it (`uuid::Uuid::from_u128(v).to_string()`). Claimed: the result
/// is the hyphenated lower-case notation of `v`.
#[verifier::external_body]
pub(crate) fn uuid_text(v: u128) -> (res: String)
    ensures
        res@ == uuid_chars(v),
{
    uuid::Uuid::from_u128(v).to_string()
}

/// The text that `btleplug::api::BDAddr`'s `Debug` writes for an address
/// made from these six bytes. Claimed: the bytes in order, each as two
/// upper-case hexadecimal digits, separated by colons.
#[verifier::external_body]
pub(crate) fn address_text(address: [u8; 6]) -> (res: String)
    ensures
        res@ == address_chars(address@),
{
    format!("{:?}", btleplug::api::BDAddr::from(address))
}

/// `String::from_utf8`: claimed to succeed exactly on valid UTF-8, with
/// the characters that the bytes encode.
#[verifier::external_body]
pub(crate) fn utf8_string(bytes: Vec<u8>) -> (res: Option<String>)
    ensures
        res is Some <==> valid_utf8(bytes@),
        res matches Some(s) ==> s@ == decode_utf8(bytes@),
{
    String::from_utf8(bytes).ok()
}

/// A `String` made of these characters (`Iterator::collect` over the
/// characters). Claimed: it holds exactly these characters, in order.
#[verifier::external_body]
pub(crate) fn chars_to_string(chars: &Vec<char>) -> (res: String)
    ensures
        res@ == chars@,
{
    chars.iter().collect()
}

/// The characters of a text.
pub fn str_chars(s: &str) -> (res: Vec<char>)
    ensures
        res@ == s@,
{
    let n = s.unicode_len();
    let mut out: Vec<char> = Vec::new();
    let mut i: usize = 0;
    while i < n
        invariant
            n == s@.len(),
            i <= n,
            out@ =~= s@.take(i as int),
        decreases n - i,
    {
        out.push(s.get_char(i));
        i = i + 1;
    }
    assert(s@.take(n as int) =~= s@);
    out
}

/// Appends `s` to `out`.
pub fn push_all(out: &mut Vec<char>, s: &Vec<char>)
    ensures
        final(out)@ == old(out)@ + s@,
{
    let ghost start = out@;
    let mut i: usize = 0;
    while i < s.len()
        invariant
            i <= s.len(),
            out@ =~= start + s@.take(i as int),
        decreases s.len() - i,
    {
        out.push(s[i]);
        i = i + 1;
    }
    assert(s@.take(i as int) =~= s@);
}

/// Appends the decimal notation of `n` to `out`.
pub fn push_nat(out: &mut Vec<char>, n: u64)
    ensures
        final(out)@ == old(out)@ + nat_text(n as nat),
    decreases n,
{
    if n >= 10 {
        push_nat(out, n / 10);
    }
    let d: u8 = (n % 10) as u8;
    let c: char = (d + 48) as char;
    proof {
        assert(c == digit_char((n % 10) as int));
    }
    out.push(c);
    proof {
        if n >= 10 {
            assert(nat_text(n as nat) == nat_text((n / 10) as nat).push(
                digit_char((n % 10) as int),
            ));
        }
    }
}

/// Appends the decimal notation of `i` to `out`.
pub fn push_int(out: &mut Vec<char>, i: i64)
    ensures
        final(out)@ == old(out)@ + int_text(i as int),
{
    if i < 0 {
        out.push('-');
        let m: u64 = if i == i64::MIN {
            9223372036854775808u64
        } else {
            (-i) as u64
        };
        push_nat(out, m);
        assert(final(out)@ =~= old(out)@ + int_text(i as int));
    } else {
        push_nat(out, i as u64);
    }
}

/// Joins the parts with `sep` between each two neighbours.
pub fn join(parts: &Vec<Vec<char>>, sep: &Vec<char>) -> (res: Vec<char>)
    ensures
        res@ == seq_join(texts_view(parts@), sep@),
{
    let mut out: Vec<char> = Vec::new();
    let mut i: usize = 0;
    while i < parts.len()
        invariant
            i <= parts.len(),
            out@ == seq_join(texts_view(parts@).take(i as int), sep@),
        decreases parts.len() - i,
    {
        proof {
            let tv = texts_view(parts@);
            assert(tv.take(i + 1).drop_last() =~= tv.take(i as int));
            assert(tv.take(i + 1).last() == parts@[i as int]@);
        }
        if i > 0 {
            push_all(&mut out, sep);
        } else {
            assert(texts_view(parts@).take(1) =~= seq![parts@[0]@]);
        }
        push_all(&mut out, &parts[i]);
        i = i + 1;
    }
    assert(texts_view(parts@).take(i as int) =~= texts_view(parts@));
    out
}

/// Debug notation of a list of bytes, such as `[1, 2, 3]`.
pub fn bytes_debug_text(bytes: &Vec<u8>) -> (res: Vec<char>)
    ensures
        res@ == bytes_debug(bytes@),
{
    let mut parts: Vec<Vec<char>> = Vec::new();
    let mut i: usize = 0;
    while i < bytes.len()
        invariant
            i <= bytes.len(),
            parts@.len() == i,
            texts_view(parts@) =~= bytes@.take(i as int).map_values(|b: u8| nat_text(b as nat)),
        decreases bytes.len() - i,
    {
        let mut t: Vec<char> = Vec::new();
        push_nat(&mut t, bytes[i] as u64);
        parts.push(t);
        proof {
            assert(bytes@.take(i + 1).map_values(|b: u8| nat_text(b as nat)) =~= bytes@.take(
                i as int,
            ).map_values(|b: u8| nat_text(b as nat)).push(nat_text(bytes@[i as int] as nat)));
            assert(texts_view(parts@) =~= texts_view(parts@).drop_last().push(t@));
        }
        i = i + 1;
    }
    assert(bytes@.take(i as int) =~= bytes@);
    let sep: Vec<char> = vec![',', ' '];
    let joined = join(&parts, &sep);
    let mut out: Vec<char> = vec!['['];
    push_all(&mut out, &joined);
    out.push(']');
    assert(out@ =~= bytes_debug(bytes@));
    out
}

/// Debug notation of a map from `u16` keys to byte lists, entries in the
/// given order, such as `{76: [2, 21]}`.
pub fn byte_map_debug_text(entries: &Vec<(u16, Vec<u8>)>) -> (res: Vec<char>)
    ensures
        res@ == byte_map_debug(manufacturer_view(entries@)),
{
    let ghost ev = manufacturer_view(entries@);
    let ghost f = |e: (u16, Seq<u8>)| nat_text(e.0 as nat) + seq![':', ' '] + bytes_debug(e.1);
    let mut parts: Vec<Vec<char>> = Vec::new();
    let mut i: usize = 0;
    while i < entries.len()
        invariant
            i <= entries.len(),
            ev == manufacturer_view(entries@),
            f == (|e: (u16, Seq<u8>)| nat_text(e.0 as nat) + seq![':', ' '] + bytes_debug(e.1)),
            parts@.len() == i,
            texts_view(parts@) =~= ev.take(i as int).map_values(f),
        decreases entries.len() - i,
    {
        let mut t: Vec<char> = Vec::new();
        push_nat(&mut t, entries[i].0 as u64);
        t.push(':');
        t.push(' ');
        let b = bytes_debug_text(&entries[i].1);
        push_all(&mut t, &b);
        parts.push(t);
        proof {
            assert(t@ =~= f(ev[i as int]));
            assert(ev.take(i + 1).map_values(f) =~= ev.take(i as int).map_values(f).push(
                f(ev[i as int]),
            ));
            assert(texts_view(parts@) =~= texts_view(parts@).drop_last().push(t@));
        }
        i = i + 1;
    }
    assert(ev.take(i as int) =~= ev);
    let sep: Vec<char> = vec![',', ' '];
    let joined = join(&parts, &sep);
    let mut out: Vec<char> = vec!['{'];
    push_all(&mut out, &joined);
    out.push('}');
    assert(out@ =~= byte_map_debug(ev));
    out
}

/// Whether `needle` occurs in `hay` as a contiguous run of characters.
pub fn contains_chars(hay: &Vec<char>, needle: &Vec<char>) -> (res: bool)
    ensures
        res == contains_text(hay@, needle@),
{
    if needle.len() > hay.len() {
        return false;
    }
    if needle.len() == 0 {
        assert(hay@.subrange(0int, 0int + needle@.len()) =~= needle@);
        return true;
    }
    let last = hay.len() - needle.len();
    let mut i: usize = 0;
    while i <= last
        invariant
            last == hay@.len() - needle@.len(),
            0 < needle@.len() <= hay@.len(),
            last < hay.len(),
            i <= last + 1,
            forall|p: int| 0 <= p < i ==> #[trigger] hay@.subrange(p, p + needle@.len()) != needle@,
        decreases last + 1 - i,
    {
        let mut k: usize = 0;
        while k < needle.len() && hay[i + k] == needle[k]
            invariant
                i <= last,
                last == hay@.len() - needle@.len(),
                0 < needle@.len() <= hay@.len(),
                last < hay.len(),
                i + needle.len() <= hay.len(),
                k <= needle@.len(),
                forall|q: int| 0 <= q < k ==> hay@[i + q] == needle@[q],
            decreases needle.len() - k,
        {
            k = k + 1;
        }
        if k == needle.len() {
            assert(hay@.subrange(i as int, i + needle@.len()) =~= needle@);
            return true;
        }
        assert(hay@.subrange(i as int, i + needle@.len())[k as int] != needle@[k as int]);
        i = i + 1;
    }
    false
}

} // verus!
