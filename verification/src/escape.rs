//! Rendering untrusted text so that it cannot act as markup.
//!
//! Chat markup gives meaning to a handful of punctuation characters and to
//! line breaks. An escaped text holds each such character only directly
//! behind a backslash, and holds no line break at all. Behind each `@` it
//! also holds a zero-width space, so that no name of a mention follows the
//! `@` directly.
//!
//! What is assumed of the platform, and not proved here: that it shows a
//! character behind a backslash as itself, and that it takes an `@` for
//! the start of a mention only where the name follows it directly. The
//! second is the usual way to break `@everyone` and `@here`, and the `@`
//! is guarded both ways so that neither assumption stands alone.

use crate::text::chars_of;
use vstd::prelude::*;
use vstd::string::StrSliceExecFns;
use vstd::string::StringExecFns;

verus! {

/// Characters that chat markup gives a meaning to: emphasis, code, quotes,
/// spoilers, links, mentions, and the backslash that escapes them.
///
/// That a backslash before one of them takes its meaning away is an
/// assumption about the platform.
pub open spec fn is_markup(c: char) -> bool {
    ||| c == '\\'
    ||| c == '*'
    ||| c == '_'
    ||| c == '~'
    ||| c == '`'
    ||| c == '|'
    ||| c == '>'
    ||| c == '<'
    ||| c == '@'
    ||| c == '#'
    ||| c == ':'
    ||| c == '['
    ||| c == ']'
    ||| c == '('
    ||| c == ')'
}

/// Characters that end a line.
pub open spec fn is_line_break(c: char) -> bool {
    c == '\n' || c == '\r'
}

/// The zero-width space that is put behind each `@`.
pub open spec fn mention_break() -> char {
    '\u{200B}'
}

/// `c` as it reads once escaped: a line break reads as a blank, every
/// other character as itself.
pub open spec fn flat(c: char) -> char {
    if is_line_break(c) {
        ' '
    } else {
        c
    }
}

/// The escaped form of one character.
pub open spec fn escape_one(c: char) -> Seq<char> {
    if is_line_break(c) {
        seq![' ']
    } else if c == '@' {
        seq!['\\', '@', mention_break()]
    } else if is_markup(c) {
        seq!['\\', c]
    } else {
        seq![c]
    }
}

/// The escaped form of `s`: the escaped forms of its characters, in order.
pub open spec fn escape(s: Seq<char>) -> Seq<char>
    decreases s.len(),
{
    if s.len() == 0 {
        Seq::empty()
    } else {
        escape(s.drop_last()) + escape_one(s.last())
    }
}

/// How long the unit is that `t` begins with: three characters for an
/// escaped `@` with its break, two for any other escaped character, one
/// otherwise.
pub open spec fn unit_len(t: Seq<char>) -> int {
    if t.len() >= 2 && t[0] == '\\' {
        if t[1] == '@' {
            3
        } else {
            2
        }
    } else {
        1
    }
}

/// Whether `t` can be read from left to right as a row of units, each
/// one of: a character without meaning in markup; a backslash and a
/// markup character other than `@`; a backslash, `@` and the break.
pub open spec fn inert(t: Seq<char>) -> bool
    decreases t.len(),
{
    if t.len() == 0 {
        true
    } else if t[0] == '\\' {
        &&& t.len() >= unit_len(t)
        &&& t.len() >= 2
        &&& is_markup(t[1])
        &&& t[1] == '@' ==> t[2] == mention_break()
        &&& inert(t.skip(unit_len(t)))
    } else {
        !is_markup(t[0]) && !is_line_break(t[0]) && inert(t.skip(1))
    }
}

/// What an inert text reads as: each unit gives its one character, the
/// backslash of an escaped unit and the break behind an `@` are dropped.
pub open spec fn unescape(t: Seq<char>) -> Seq<char>
    decreases t.len(),
{
    if t.len() == 0 {
        Seq::empty()
    } else if t[0] == '\\' && t.len() >= 2 && t.len() >= unit_len(t) {
        seq![t[1]] + unescape(t.skip(unit_len(t)))
    } else {
        seq![t[0]] + unescape(t.skip(1))
    }
}

/// Whether `c` is one of the markup characters.
pub fn char_is_markup(c: char) -> (r: bool)
    ensures
        r == is_markup(c),
{
    c == '\\' || c == '*' || c == '_' || c == '~' || c == '`' || c == '|' || c == '>' || c == '<'
        || c == '@' || c == '#' || c == ':' || c == '[' || c == ']' || c == '(' || c == ')'
}

/// Escapes `s` for use inside a message.
pub fn escape_markup(s: &str) -> (r: String)
    ensures
        r@ == escape(s@),
{
    let v = chars_of(s);
    let mut out = String::new();
    let mut i: usize = 0;
    while i < v.len()
        invariant
            i <= v.len(),
            v@ == s@,
            out@ == escape(s@.take(i as int)),
        decreases v.len() - i,
    {
        let c = v[i];
        proof {
            reveal_strlit(" ");
            reveal_strlit("\\");
            reveal_strlit("\u{200B}");
            assert(s@.take(i + 1).drop_last() == s@.take(i as int));
        }
        if c == '\n' || c == '\r' {
            out.append(" ");
        } else {
            if char_is_markup(c) {
                out.append("\\");
            }
            out.append(s.substring_char(i, i + 1));
            assert(s@.subrange(i as int, i + 1) == seq![c]);
            if c == '@' {
                out.append("\u{200B}");
            }
        }
        assert(out@ == escape(s@.take(i as int)) + escape_one(c));
        i = i + 1;
    }
    assert(s@.take(i as int) == s@);
    out
}

/// Inert texts put one behind the other give an inert text.
pub proof fn lemma_inert_concat(a: Seq<char>, b: Seq<char>)
    requires
        inert(a),
        inert(b),
    ensures
        inert(a + b),
    decreases a.len(),
{
    if a.len() == 0 {
        assert(a + b == b);
    } else {
        let n = if a[0] == '\\' {
            unit_len(a)
        } else {
            1
        };
        lemma_inert_concat(a.skip(n), b);
        assert((a + b).skip(n) == a.skip(n) + b);
        assert(unit_len(a + b) == unit_len(a));
    }
}

proof fn lemma_inert_one(c: char)
    ensures
        inert(escape_one(c)),
{
    let u = escape_one(c);
    assert(inert(u.skip(u.len() as int)));
}

/// Whether `t` holds no markup character and no line break.
pub open spec fn plain(t: Seq<char>) -> bool {
    forall|i: int| 0 <= i < t.len() ==> !is_markup(#[trigger] t[i]) && !is_line_break(t[i])
}

/// A text without markup characters and line breaks is inert as it is.
pub proof fn lemma_plain_inert(t: Seq<char>)
    requires
        plain(t),
    ensures
        inert(t),
    decreases t.len(),
{
    if t.len() > 0 {
        assert(!is_markup(t[0]));
        let u = t.skip(1);
        assert forall|i: int| 0 <= i < u.len() implies !is_markup(#[trigger] u[i])
            && !is_line_break(u[i]) by {
            assert(u[i] == t[i + 1]);
        }
        lemma_plain_inert(u);
    }
}

/// An escaped text is inert: it reads as a row of harmless units, whatever
/// the text it was made from.
pub proof fn lemma_escape_inert(s: Seq<char>)
    ensures
        inert(escape(s)),
    decreases s.len(),
{
    if s.len() > 0 {
        lemma_escape_inert(s.drop_last());
        lemma_inert_one(s.last());
        lemma_inert_concat(escape(s.drop_last()), escape_one(s.last()));
    }
}

/// In an inert text every markup character but the backslash stands
/// directly behind a backslash, every `@` stands directly before the
/// break, and no character ends a line.
pub proof fn lemma_inert_guarded(t: Seq<char>, k: int)
    requires
        inert(t),
        0 <= k < t.len(),
    ensures
        !is_line_break(t[k]),
        is_markup(t[k]) && t[k] != '\\' ==> k > 0 && t[k - 1] == '\\',
        t[k] == '@' ==> k + 1 < t.len() && t[k + 1] == mention_break(),
    decreases t.len(),
{
    let n = if t[0] == '\\' {
        unit_len(t)
    } else {
        1
    };
    if k >= n {
        lemma_inert_guarded(t.skip(n), k - n);
    }
}

/// An inert text mentions neither everyone nor here: nowhere in it does
/// `@everyone` or `@here` stand.
pub proof fn lemma_inert_mentions_nobody(t: Seq<char>, k: int)
    requires
        inert(t),
        0 <= k <= t.len(),
    ensures
        !"@everyone"@.is_prefix_of(t.skip(k)),
        !"@here"@.is_prefix_of(t.skip(k)),
{
    reveal_strlit("@everyone");
    reveal_strlit("@here");
    let rest = t.skip(k);
    if "@everyone"@.is_prefix_of(rest) {
        assert(rest.subrange(0, 9)[0] == "@everyone"@[0]);
        assert(rest.subrange(0, 9)[1] == "@everyone"@[1]);
        assert(t[k] == '@' && t[k + 1] == 'e');
        lemma_inert_guarded(t, k);
    }
    if "@here"@.is_prefix_of(rest) {
        assert(rest.subrange(0, 5)[0] == "@here"@[0]);
        assert(rest.subrange(0, 5)[1] == "@here"@[1]);
        assert(t[k] == '@' && t[k + 1] == 'h');
        lemma_inert_guarded(t, k);
    }
}

proof fn lemma_unescape_concat(a: Seq<char>, b: Seq<char>)
    requires
        inert(a),
    ensures
        unescape(a + b) == unescape(a) + unescape(b),
    decreases a.len(),
{
    if a.len() == 0 {
        assert(a + b == b);
        assert(unescape(a) + unescape(b) == unescape(b));
    } else if a[0] == '\\' {
        let n = unit_len(a);
        lemma_unescape_concat(a.skip(n), b);
        assert((a + b).skip(n) == a.skip(n) + b);
        assert(unit_len(a + b) == n);
        assert(seq![a[1]] + (unescape(a.skip(n)) + unescape(b)) == (seq![a[1]] + unescape(
            a.skip(n),
        )) + unescape(b));
    } else {
        lemma_unescape_concat(a.skip(1), b);
        assert((a + b).skip(1) == a.skip(1) + b);
        assert(seq![a[0]] + (unescape(a.skip(1)) + unescape(b)) == (seq![a[0]] + unescape(
            a.skip(1),
        )) + unescape(b));
    }
}

proof fn lemma_unescape_one(c: char)
    ensures
        unescape(escape_one(c)) == seq![flat(c)],
{
    let u = escape_one(c);
    assert(unescape(u.skip(u.len() as int)) == Seq::<char>::empty());
    if !is_line_break(c) && is_markup(c) {
        assert(seq![u[1]] + unescape(u.skip(u.len() as int)) == seq![c]);
    } else {
        assert(seq![u[0]] + unescape(u.skip(1)) == seq![flat(c)]);
    }
}

/// Escaping loses nothing but line breaks: an escaped text reads as the
/// text it was made from, with a blank for each line break.
pub proof fn lemma_unescape_escape(s: Seq<char>)
    ensures
        unescape(escape(s)) == s.map_values(|c: char| flat(c)),
    decreases s.len(),
{
    let f = |c: char| flat(c);
    if s.len() == 0 {
        assert(s.map_values(f) == Seq::<char>::empty());
    } else {
        lemma_unescape_escape(s.drop_last());
        lemma_escape_inert(s.drop_last());
        lemma_unescape_concat(escape(s.drop_last()), escape_one(s.last()));
        lemma_unescape_one(s.last());
        assert(s.drop_last().map_values(f) + seq![flat(s.last())] == s.map_values(f));
    }
}

} // verus!
