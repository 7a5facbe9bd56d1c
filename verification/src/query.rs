//! Values inside the query of a web address.
//!
//! A query is a row of `name=value` pairs joined by `&`, and ends where a
//! `#` begins the fragment. A value may hold any character, so before it
//! is put into an address it is percent-encoded: letters, digits and
//! `-`, `.`, `_`, `~` stand for themselves, and every other character is
//! written as its UTF-8 bytes, each as `%` and two hexadecimal digits. An
//! encoded value holds no character that could end it.

use crate::text::{chars_of, digit_char};
use vstd::prelude::*;
use vstd::string::StrSliceExecFns;
use vstd::string::StringExecFns;
use vstd::utf8::{decode_utf8, encode_scalar, encode_utf8, encode_utf8_decode_utf8};

verus! {

/// Characters that stand for themselves in an encoded value: the ASCII
/// letters and digits, and `-`, `.`, `_`, `~`.
pub open spec fn is_unreserved(c: char) -> bool {
    let n = c as u32;
    ||| 0x30 <= n <= 0x39
    ||| 0x41 <= n <= 0x5A
    ||| 0x61 <= n <= 0x7A
    ||| n == 0x2D
    ||| n == 0x2E
    ||| n == 0x5F
    ||| n == 0x7E
}

/// The hexadecimal digit for `n`, for `n` below sixteen, in upper case.
pub open spec fn hex_digit(n: int) -> char {
    if n < 10 {
        digit_char(n as nat)
    } else if n == 10 {
        'A'
    } else if n == 11 {
        'B'
    } else if n == 12 {
        'C'
    } else if n == 13 {
        'D'
    } else if n == 14 {
        'E'
    } else {
        'F'
    }
}

/// The number that a hexadecimal digit stands for, in either case.
pub open spec fn hex_value(c: char) -> int {
    let n = c as u32;
    if 0x30 <= n <= 0x39 {
        n - 0x30
    } else if 0x41 <= n <= 0x46 {
        n - 0x41 + 10
    } else if 0x61 <= n <= 0x66 {
        n - 0x61 + 10
    } else {
        0
    }
}

/// One byte, escaped.
pub open spec fn escaped_byte(b: u8) -> Seq<char> {
    seq!['%', hex_digit(b as int / 16), hex_digit(b as int % 16)]
}

/// A row of bytes, each escaped.
pub open spec fn escaped_bytes(bytes: Seq<u8>) -> Seq<char>
    decreases bytes.len(),
{
    if bytes.len() == 0 {
        Seq::empty()
    } else {
        escaped_bytes(bytes.drop_last()) + escaped_byte(bytes.last())
    }
}

/// The encoded form of one character.
pub open spec fn encoded_char(c: char) -> Seq<char> {
    if is_unreserved(c) {
        seq![c]
    } else {
        escaped_bytes(encode_scalar(c as u32))
    }
}

/// The encoded form of `s`: the encoded forms of its characters, in order.
pub open spec fn percent_encoded(s: Seq<char>) -> Seq<char>
    decreases s.len(),
{
    if s.len() == 0 {
        Seq::empty()
    } else {
        percent_encoded(s.drop_last()) + encoded_char(s.last())
    }
}

/// The bytes that `t` stands for: `%` and two digits give one byte, any
/// other character gives itself.
pub open spec fn decoded_bytes(t: Seq<char>) -> Seq<u8>
    decreases t.len(),
{
    if t.len() == 0 {
        Seq::empty()
    } else if t[0] == '%' && t.len() >= 3 {
        seq![(16 * hex_value(t[1]) + hex_value(t[2])) as u8] + decoded_bytes(t.skip(3))
    } else {
        seq![t[0] as u8] + decoded_bytes(t.skip(1))
    }
}

/// The value that `t` stands for: its bytes, read as UTF-8.
pub open spec fn percent_decoded(t: Seq<char>) -> Seq<char> {
    decode_utf8(decoded_bytes(t))
}

/// Whether `t` holds nothing but unreserved characters and `%`.
pub open spec fn query_safe(t: Seq<char>) -> bool {
    forall|i: int| 0 <= i < t.len() ==> is_unreserved(#[trigger] t[i]) || t[i] == '%'
}

/// Whether `c` stands for itself in an encoded value.
pub fn char_is_unreserved(c: char) -> (r: bool)
    ensures
        r == is_unreserved(c),
{
    let n: u32 = c as u32;
    (0x30 <= n && n <= 0x39) || (0x41 <= n && n <= 0x5A) || (0x61 <= n && n <= 0x7A) || n == 0x2D
        || n == 0x2E || n == 0x5F || n == 0x7E
}

fn hex_text(n: u8) -> (s: &'static str)
    requires
        n < 16,
    ensures
        s@ == seq![hex_digit(n as int)],
{
    proof {
        reveal_strlit("0");
        reveal_strlit("1");
        reveal_strlit("2");
        reveal_strlit("3");
        reveal_strlit("4");
        reveal_strlit("5");
        reveal_strlit("6");
        reveal_strlit("7");
        reveal_strlit("8");
        reveal_strlit("9");
        reveal_strlit("A");
        reveal_strlit("B");
        reveal_strlit("C");
        reveal_strlit("D");
        reveal_strlit("E");
        reveal_strlit("F");
    }
    let s = if n == 0 {
        "0"
    } else if n == 1 {
        "1"
    } else if n == 2 {
        "2"
    } else if n == 3 {
        "3"
    } else if n == 4 {
        "4"
    } else if n == 5 {
        "5"
    } else if n == 6 {
        "6"
    } else if n == 7 {
        "7"
    } else if n == 8 {
        "8"
    } else if n == 9 {
        "9"
    } else if n == 10 {
        "A"
    } else if n == 11 {
        "B"
    } else if n == 12 {
        "C"
    } else if n == 13 {
        "D"
    } else if n == 14 {
        "E"
    } else {
        "F"
    };
    assert(s@ =~= seq![hex_digit(n as int)]);
    s
}

/// Percent-encodes `s` for use as a value in a query.
pub fn percent_encode(s: &str) -> (r: String)
    ensures
        r@ == percent_encoded(s@),
{
    let v = chars_of(s);
    let mut out = String::new();
    let mut i: usize = 0;
    while i < v.len()
        invariant
            i <= v.len(),
            v@ == s@,
            out@ == percent_encoded(s@.take(i as int)),
        decreases v.len() - i,
    {
        let c = v[i];
        let piece = s.substring_char(i, i + 1);
        let ghost before = out@;
        proof {
            assert(s@.take(i + 1).drop_last() == s@.take(i as int));
            assert(piece@ == seq![c]);
        }
        if char_is_unreserved(c) {
            out.append(piece);
        } else {
            let bytes = piece.as_bytes_vec();
            proof {
                assert(seq![c].drop_first() == Seq::<char>::empty());
                assert(encode_utf8(seq![c].drop_first()) == Seq::<u8>::empty());
                assert(bytes@ == encode_scalar(c as u32));
            }
            let mut j: usize = 0;
            while j < bytes.len()
                invariant
                    j <= bytes.len(),
                    out@ == before + escaped_bytes(bytes@.take(j as int)),
                decreases bytes.len() - j,
            {
                let b = bytes[j];
                proof {
                    reveal_strlit("%");
                    assert(bytes@.take(j + 1).drop_last() == bytes@.take(j as int));
                }
                out.append("%");
                out.append(hex_text(b / 16));
                out.append(hex_text(b % 16));
                assert(out@ == before + (escaped_bytes(bytes@.take(j as int)) + escaped_byte(b)));
                j = j + 1;
            }
            assert(bytes@.take(j as int) == bytes@);
        }
        assert(out@ == percent_encoded(s@.take(i as int)) + encoded_char(c));
        i = i + 1;
    }
    assert(s@.take(i as int) == s@);
    out
}

/// One pair as it stands in a query: the name, `=`, the encoded value.
pub open spec fn pair_text(name: Seq<char>, value: Seq<char>) -> Seq<char> {
    name + seq!['='] + percent_encoded(value)
}

/// A query written out: its pairs in order, joined by `&`.
pub open spec fn query_text(pairs: Seq<(Seq<char>, Seq<char>)>) -> Seq<char>
    decreases pairs.len(),
{
    if pairs.len() == 0 {
        Seq::empty()
    } else if pairs.len() == 1 {
        pair_text(pairs[0].0, pairs[0].1)
    } else {
        pair_text(pairs[0].0, pairs[0].1) + seq!['&'] + query_text(pairs.drop_first())
    }
}

/// Writes one pair behind `out`, the value percent-encoded.
pub fn push_pair(out: &mut String, name: &str, value: &str)
    ensures
        final(out)@ == old(out)@ + pair_text(name@, value@),
{
    proof {
        reveal_strlit("=");
    }
    out.append(name);
    out.append("=");
    out.append(percent_encode(value).as_str());
    assert(out@ == old(out)@ + (name@ + seq!['='] + percent_encoded(value@)));
}

proof fn lemma_escaped_bytes_safe(bytes: Seq<u8>)
    ensures
        query_safe(escaped_bytes(bytes)),
    decreases bytes.len(),
{
    if bytes.len() > 0 {
        lemma_escaped_bytes_safe(bytes.drop_last());
    }
}

/// An encoded value holds nothing but unreserved characters and `%`; so
/// it holds no `&`, `=`, `#`, `?` or `+` and no white space, whatever the
/// value it was made from.
pub proof fn lemma_encoded_is_safe(s: Seq<char>)
    ensures
        query_safe(percent_encoded(s)),
        forall|i: int|
            0 <= i < percent_encoded(s).len() ==> {
                let c = #[trigger] percent_encoded(s)[i];
                c != '&' && c != '=' && c != '#' && c != '?' && c != '+' && c != ' '
            },
    decreases s.len(),
{
    if s.len() > 0 {
        lemma_encoded_is_safe(s.drop_last());
        lemma_escaped_bytes_safe(encode_scalar(s.last() as u32));
    }
    let e = percent_encoded(s);
    assert forall|i: int| 0 <= i < e.len() implies {
        let c = #[trigger] e[i];
        c != '&' && c != '=' && c != '#' && c != '?' && c != '+' && c != ' '
    } by {
        assert(is_unreserved(e[i]) || e[i] == '%');
    }
}

proof fn lemma_hex_round_trip(b: u8)
    ensures
        16 * hex_value(hex_digit(b as int / 16)) + hex_value(hex_digit(b as int % 16)) == b,
{
}

proof fn lemma_decoded_escaped_bytes(bytes: Seq<u8>, rest: Seq<char>)
    ensures
        decoded_bytes(escaped_bytes(bytes) + rest) == bytes + decoded_bytes(rest),
    decreases bytes.len(),
{
    if bytes.len() == 0 {
        assert(escaped_bytes(bytes) + rest == rest);
        assert(bytes + decoded_bytes(rest) == decoded_bytes(rest));
    } else {
        let b = bytes.last();
        let tail = escaped_byte(b) + rest;
        lemma_decoded_escaped_bytes(bytes.drop_last(), tail);
        assert(escaped_bytes(bytes) + rest == escaped_bytes(bytes.drop_last()) + tail);
        lemma_hex_round_trip(b);
        assert(tail.skip(3) == rest);
        assert(decoded_bytes(tail) == seq![b] + decoded_bytes(rest));
        assert(bytes.drop_last() + (seq![b] + decoded_bytes(rest)) == bytes + decoded_bytes(rest));
    }
}

proof fn lemma_ascii_byte(n: u32)
    by (bit_vector)
    requires
        n <= 0x7F,
    ensures
        (n & 0x7F) as u8 == n as u8,
{
}

proof fn lemma_decoded_encoded_char(c: char, rest: Seq<char>)
    ensures
        decoded_bytes(encoded_char(c) + rest) == encode_scalar(c as u32) + decoded_bytes(rest),
{
    if is_unreserved(c) {
        let t = encoded_char(c) + rest;
        assert(t.skip(1) == rest);
        lemma_ascii_byte(c as u32);
        assert(encode_scalar(c as u32) == seq![c as u8]);
    } else {
        lemma_decoded_escaped_bytes(encode_scalar(c as u32), rest);
    }
}

proof fn lemma_encode_utf8_push(s: Seq<char>, c: char)
    ensures
        encode_utf8(s.push(c)) == encode_utf8(s) + encode_scalar(c as u32),
    decreases s.len(),
{
    if s.len() == 0 {
        assert(s.push(c).drop_first() == Seq::<char>::empty());
        assert(encode_utf8(s.push(c).drop_first()) == Seq::<u8>::empty());
        assert(encode_utf8(s) == Seq::<u8>::empty());
        assert(encode_utf8(s.push(c)) == encode_scalar(c as u32) + Seq::<u8>::empty());
    } else {
        lemma_encode_utf8_push(s.drop_first(), c);
        assert(s.push(c).drop_first() == s.drop_first().push(c));
        assert(encode_scalar(s[0] as u32) + (encode_utf8(s.drop_first()) + encode_scalar(c as u32))
            == (encode_scalar(s[0] as u32) + encode_utf8(s.drop_first())) + encode_scalar(
            c as u32,
        ));
    }
}

proof fn lemma_decoded_bytes_of_encoded(s: Seq<char>, rest: Seq<char>)
    ensures
        decoded_bytes(percent_encoded(s) + rest) == encode_utf8(s) + decoded_bytes(rest),
    decreases s.len(),
{
    if s.len() == 0 {
        assert(percent_encoded(s) + rest == rest);
        assert(encode_utf8(s) + decoded_bytes(rest) == decoded_bytes(rest));
    } else {
        let c = s.last();
        let tail = encoded_char(c) + rest;
        lemma_decoded_bytes_of_encoded(s.drop_last(), tail);
        assert(percent_encoded(s) + rest == percent_encoded(s.drop_last()) + tail);
        lemma_decoded_encoded_char(c, rest);
        lemma_encode_utf8_push(s.drop_last(), c);
        assert(s.drop_last().push(c) == s);
        assert(encode_utf8(s.drop_last()) + (encode_scalar(c as u32) + decoded_bytes(rest)) == (
        encode_utf8(s.drop_last()) + encode_scalar(c as u32)) + decoded_bytes(rest));
    }
}

/// Encoding loses nothing: an encoded value stands for the value it was
/// made from.
pub proof fn lemma_decoded_encoded(s: Seq<char>)
    ensures
        percent_decoded(percent_encoded(s)) == s,
{
    lemma_decoded_bytes_of_encoded(s, Seq::empty());
    assert(percent_encoded(s) + Seq::<char>::empty() == percent_encoded(s));
    assert(encode_utf8(s) + decoded_bytes(Seq::<char>::empty()) == encode_utf8(s));
    encode_utf8_decode_utf8(s);
}

/// Whether `c` does not occur in `s`.
pub open spec fn lacks(s: Seq<char>, c: char) -> bool {
    forall|i: int| 0 <= i < s.len() ==> #[trigger] s[i] != c
}

/// Whether every character of `s` is unreserved.
pub open spec fn all_unreserved(s: Seq<char>) -> bool {
    forall|i: int| 0 <= i < s.len() ==> is_unreserved(#[trigger] s[i])
}

/// Where `c` first stands in `s`; the length of `s` where it does not.
pub open spec fn index_of(s: Seq<char>, c: char) -> nat
    decreases s.len(),
{
    if s.len() == 0 || s[0] == c {
        0
    } else {
        1 + index_of(s.drop_first(), c)
    }
}

/// What stands in `s` before the first `c`; all of `s` where there is none.
pub open spec fn before_first(s: Seq<char>, c: char) -> Seq<char> {
    s.take(index_of(s, c) as int)
}

/// What stands in `s` behind the first `c`; nothing where there is none.
pub open spec fn behind_first(s: Seq<char>, c: char) -> Seq<char> {
    if index_of(s, c) < s.len() {
        s.skip(index_of(s, c) as int + 1)
    } else {
        Seq::empty()
    }
}

/// `s` cut at every `c`: the pieces between, in order. A text without `c`
/// is one piece.
pub open spec fn pieces(s: Seq<char>, c: char) -> Seq<Seq<char>>
    decreases s.len(),
{
    if s.len() == 0 {
        seq![Seq::empty()]
    } else {
        let cut = pieces(s.drop_last(), c);
        if s.last() == c {
            cut.push(Seq::empty())
        } else {
            cut.drop_last().push(cut.last().push(s.last()))
        }
    }
}

/// The pair that one piece of a query stands for: the name before its
/// first `=`, and the value behind it, decoded.
pub open spec fn pair_of(piece: Seq<char>) -> (Seq<char>, Seq<char>) {
    (before_first(piece, '='), percent_decoded(behind_first(piece, '=')))
}

/// The pairs that a query stands for: it is cut at every `&`, and each
/// piece read as a pair.
pub open spec fn query_pairs(query: Seq<char>) -> Seq<(Seq<char>, Seq<char>)> {
    pieces(query, '&').map_values(|piece: Seq<char>| pair_of(piece))
}

/// An address without its fragment: what stands before the first `#`.
pub open spec fn without_fragment(address: Seq<char>) -> Seq<char> {
    before_first(address, '#')
}

/// What an address holds before its query: what stands before the first
/// `?`, the fragment left aside.
pub open spec fn address_base(address: Seq<char>) -> Seq<char> {
    before_first(without_fragment(address), '?')
}

/// The query of an address: what stands behind the first `?`, the
/// fragment left aside.
pub open spec fn address_query(address: Seq<char>) -> Seq<char> {
    behind_first(without_fragment(address), '?')
}

/// A character that a text lacks is first found behind the text.
pub proof fn lemma_index_of_absent(s: Seq<char>, c: char)
    requires
        lacks(s, c),
    ensures
        index_of(s, c) == s.len(),
        before_first(s, c) == s,
        behind_first(s, c) == Seq::<char>::empty(),
    decreases s.len(),
{
    if s.len() > 0 {
        assert(s[0] != c);
        let t = s.drop_first();
        assert forall|i: int| 0 <= i < t.len() implies #[trigger] t[i] != c by {
            assert(t[i] == s[i + 1]);
        }
        lemma_index_of_absent(t, c);
    }
    assert(s.take(s.len() as int) == s);
}

/// Cutting at the first `c` gives back what was joined by it, where the
/// first part lacks `c`.
pub proof fn lemma_index_of_found(a: Seq<char>, b: Seq<char>, c: char)
    requires
        lacks(a, c),
    ensures
        index_of(a + seq![c] + b, c) == a.len(),
        before_first(a + seq![c] + b, c) == a,
        behind_first(a + seq![c] + b, c) == b,
    decreases a.len(),
{
    let s = a + seq![c] + b;
    if a.len() == 0 {
        assert(s[0] == c);
    } else {
        assert(s[0] == a[0]);
        let t = a.drop_first();
        assert forall|i: int| 0 <= i < t.len() implies #[trigger] t[i] != c by {
            assert(t[i] == a[i + 1]);
        }
        lemma_index_of_found(t, b, c);
        assert(s.drop_first() == t + seq![c] + b);
    }
    assert(s.take(a.len() as int) == a);
    assert(s.skip(a.len() as int + 1) == b);
}

proof fn lemma_pieces_nonempty(s: Seq<char>, c: char)
    ensures
        pieces(s, c).len() >= 1,
    decreases s.len(),
{
    if s.len() > 0 {
        lemma_pieces_nonempty(s.drop_last(), c);
    }
}

/// A text that lacks `c` is one piece.
pub proof fn lemma_pieces_whole(s: Seq<char>, c: char)
    requires
        lacks(s, c),
    ensures
        pieces(s, c) == seq![s],
    decreases s.len(),
{
    if s.len() > 0 {
        let t = s.drop_last();
        assert forall|i: int| 0 <= i < t.len() implies #[trigger] t[i] != c by {
            assert(t[i] == s[i]);
        }
        lemma_pieces_whole(t, c);
        assert(s[s.len() - 1] != c);
        assert(t.push(s.last()) == s);
        assert(seq![t].drop_last().push(seq![t].last().push(s.last())) == seq![s]);
    } else {
        assert(s == Seq::<char>::empty());
    }
}

/// Two texts joined by `c` are cut into the pieces of the first and then
/// the pieces of the second.
pub proof fn lemma_pieces_joined(a: Seq<char>, b: Seq<char>, c: char)
    ensures
        pieces(a + seq![c] + b, c) == pieces(a, c) + pieces(b, c),
    decreases b.len(),
{
    let s = a + seq![c] + b;
    if b.len() == 0 {
        assert(s.drop_last() == a);
        assert(pieces(b, c) == seq![Seq::<char>::empty()]);
        assert(pieces(a, c).push(Seq::empty()) == pieces(a, c) + pieces(b, c));
    } else {
        let t = b.drop_last();
        lemma_pieces_joined(a, t, c);
        lemma_pieces_nonempty(t, c);
        assert(s.drop_last() == a + seq![c] + t);
        assert(s.last() == b.last());
        let left = pieces(a, c);
        let right = pieces(t, c);
        let cut = left + right;
        if b.last() == c {
            assert(cut.push(Seq::empty()) == left + right.push(Seq::empty()));
        } else {
            assert(cut.last() == right.last());
            assert(cut.drop_last() == left + right.drop_last());
            assert(cut.drop_last().push(cut.last().push(b.last())) == left
                + right.drop_last().push(right.last().push(b.last())));
        }
    }
}

/// A pair as it stands in a query holds no `&`, `#` or `?`, and reads as
/// the pair it was written from, where the name is made of unreserved
/// characters.
pub proof fn lemma_pair_reads_back(name: Seq<char>, value: Seq<char>)
    requires
        all_unreserved(name),
    ensures
        lacks(pair_text(name, value), '&'),
        lacks(pair_text(name, value), '#'),
        lacks(pair_text(name, value), '?'),
        pair_of(pair_text(name, value)) == (name, value),
{
    let e = percent_encoded(value);
    let t = pair_text(name, value);
    lemma_encoded_is_safe(value);
    assert forall|i: int| 0 <= i < t.len() implies {
        let c = #[trigger] t[i];
        c != '&' && c != '#' && c != '?'
    } by {
        if i < name.len() {
            assert(t[i] == name[i]);
            assert(is_unreserved(name[i]));
        } else if i > name.len() {
            assert(t[i] == e[i - name.len() - 1]);
        }
    }
    assert forall|i: int| 0 <= i < name.len() implies #[trigger] name[i] != '=' by {
        assert(is_unreserved(name[i]));
    }
    lemma_index_of_found(name, e, '=');
    lemma_decoded_encoded(value);
}

/// A written query reads as the pairs it was written from: no value can
/// add a pair, end one early, or reach into the fragment. This holds for
/// every row of at least one pair whose names are made of unreserved
/// characters, whatever the values.
pub proof fn lemma_query_reads_back(pairs: Seq<(Seq<char>, Seq<char>)>)
    requires
        pairs.len() >= 1,
        forall|i: int| 0 <= i < pairs.len() ==> all_unreserved(#[trigger] pairs[i].0),
    ensures
        query_pairs(query_text(pairs)) == pairs,
        lacks(query_text(pairs), '#'),
        lacks(query_text(pairs), '?'),
    decreases pairs.len(),
{
    let read = |piece: Seq<char>| pair_of(piece);
    let first = pair_text(pairs[0].0, pairs[0].1);
    assert(all_unreserved(pairs[0].0));
    lemma_pair_reads_back(pairs[0].0, pairs[0].1);
    if pairs.len() == 1 {
        lemma_pieces_whole(first, '&');
        assert(seq![first].map_values(read) == seq![pairs[0]]);
        assert(seq![pairs[0]] == pairs);
    } else {
        let rest = pairs.drop_first();
        assert forall|i: int| 0 <= i < rest.len() implies all_unreserved(#[trigger] rest[i].0) by {
            assert(rest[i] == pairs[i + 1]);
        }
        lemma_query_reads_back(rest);
        let tail = query_text(rest);
        let q = first + seq!['&'] + tail;
        lemma_pieces_joined(first, tail, '&');
        lemma_pieces_whole(first, '&');
        assert((seq![first] + pieces(tail, '&')).map_values(read) == seq![pairs[0]] + pieces(
            tail,
            '&',
        ).map_values(read));
        assert(seq![pairs[0]] + rest == pairs);
        assert forall|i: int| 0 <= i < q.len() implies {
            let c = #[trigger] q[i];
            c != '#' && c != '?'
        } by {
            if i < first.len() {
                assert(q[i] == first[i]);
            } else if i > first.len() {
                assert(q[i] == tail[i - first.len() - 1]);
            }
        }
    }
}

} // verus!
