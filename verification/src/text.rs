//! Character classes and small helpers on character sequences.

use vstd::prelude::*;
use vstd::string::StringExecFns;

verus! {

/// Whether `c` carries the Unicode `White_Space` property.
pub open spec fn is_space(c: char) -> bool {
    let n = c as u32;
    ||| 0x09 <= n <= 0x0D
    ||| n == 0x20
    ||| n == 0x85
    ||| n == 0xA0
    ||| n == 0x1680
    ||| 0x2000 <= n <= 0x200A
    ||| n == 0x2028
    ||| n == 0x2029
    ||| n == 0x202F
    ||| n == 0x205F
    ||| n == 0x3000
}

/// Tests `c` for the Unicode `White_Space` property.
pub fn char_is_space(c: char) -> (r: bool)
    ensures
        r == is_space(c),
{
    let n: u32 = c as u32;
    (0x09 <= n && n <= 0x0D) || n == 0x20 || n == 0x85 || n == 0xA0 || n == 0x1680 || (0x2000 <= n
        && n <= 0x200A) || n == 0x2028 || n == 0x2029 || n == 0x202F || n == 0x205F || n == 0x3000
}

/// The characters of `s`, in order.
pub fn chars_of(s: &str) -> (v: Vec<char>)
    ensures
        v@ == s@,
{
    let mut v: Vec<char> = Vec::new();
    for c in it: s.chars()
        invariant
            v@ == it.seq().take(it.index() as int),
            it.seq() == s@,
    {
        v.push(c);
    }
    v
}

/// Whether two character vectors hold the same text.
pub fn same_chars(a: &Vec<char>, b: &Vec<char>) -> (r: bool)
    ensures
        r == (a@ == b@),
{
    if a.len() != b.len() {
        return false;
    }
    let mut i: usize = 0;
    while i < a.len()
        invariant
            i <= a.len(),
            a.len() == b.len(),
            a@.take(i as int) == b@.take(i as int),
        decreases a.len() - i,
    {
        if a[i] != b[i] {
            return false;
        }
        assert(a@.take(i + 1) == a@.take(i as int).push(a@[i as int]));
        assert(b@.take(i + 1) == b@.take(i as int).push(b@[i as int]));
        i = i + 1;
    }
    assert(a@.take(i as int) == a@);
    assert(b@.take(i as int) == b@);
    true
}

/// Whether the text `a` begins with the text `p`.
pub fn begins_with(a: &Vec<char>, p: &Vec<char>) -> (r: bool)
    ensures
        r == p@.is_prefix_of(a@),
{
    if a.len() < p.len() {
        return false;
    }
    let mut i: usize = 0;
    while i < p.len()
        invariant
            i <= p.len() <= a.len(),
            a@.take(i as int) == p@.take(i as int),
        decreases p.len() - i,
    {
        if a[i] != p[i] {
            return false;
        }
        assert(a@.take(i + 1) == a@.take(i as int).push(a@[i as int]));
        assert(p@.take(i + 1) == p@.take(i as int).push(p@[i as int]));
        i = i + 1;
    }
    assert(p@.take(i as int) == p@);
    assert(a@.subrange(0, p@.len() as int) == a@.take(i as int));
    true
}

/// `s` without its leading white space.
pub open spec fn trim_start(s: Seq<char>) -> Seq<char>
    decreases s.len(),
{
    if s.len() > 0 && is_space(s[0]) {
        trim_start(s.drop_first())
    } else {
        s
    }
}

/// The longest prefix of `s` that holds no white space.
pub open spec fn leading_word(s: Seq<char>) -> Seq<char>
    decreases s.len(),
{
    if s.len() > 0 && !is_space(s[0]) {
        seq![s[0]] + leading_word(s.drop_first())
    } else {
        Seq::empty()
    }
}

/// The first white-space-delimited word of `s`; empty when `s` holds
/// nothing but white space.
pub open spec fn first_word(s: Seq<char>) -> Seq<char> {
    leading_word(trim_start(s))
}

/// Whether every character of `s` is white space.
pub open spec fn all_spaces(s: Seq<char>) -> bool {
    forall|i: int| 0 <= i < s.len() ==> is_space(#[trigger] s[i])
}

/// Whether no character of `s` is white space.
pub open spec fn no_spaces(s: Seq<char>) -> bool {
    forall|i: int| 0 <= i < s.len() ==> !is_space(#[trigger] s[i])
}

/// `first_word(s)` is the one stretch `s[a..b]` that follows only white
/// space, holds none, and ends at the end of `s` or before white space.
pub open spec fn bounds_first_word(s: Seq<char>, a: int, b: int) -> bool {
    &&& 0 <= a <= b <= s.len()
    &&& all_spaces(s.subrange(0, a))
    &&& no_spaces(s.subrange(a, b))
    &&& a == b ==> a == s.len()
    &&& b < s.len() ==> is_space(s[b])
}

proof fn lemma_trim_start_step(s: Seq<char>, i: int)
    requires
        0 <= i < s.len(),
        is_space(s[i]),
    ensures
        trim_start(s.skip(i)) == trim_start(s.skip(i + 1)),
{
    assert(s.skip(i).drop_first() == s.skip(i + 1));
}

proof fn lemma_leading_word_step(s: Seq<char>, i: int)
    requires
        0 <= i < s.len(),
        !is_space(s[i]),
    ensures
        leading_word(s.skip(i)) == seq![s[i]] + leading_word(s.skip(i + 1)),
{
    assert(s.skip(i).drop_first() == s.skip(i + 1));
}

proof fn lemma_trim_start_skips(s: Seq<char>, a: int)
    requires
        0 <= a <= s.len(),
        all_spaces(s.subrange(0, a)),
        a == s.len() || !is_space(s[a]),
    ensures
        trim_start(s) == s.skip(a),
    decreases a,
{
    if a == 0 {
        assert(s.skip(0) == s);
    } else {
        assert(s.subrange(0, a)[0] == s[0]);
        let t = s.drop_first();
        assert forall|i: int| 0 <= i < a - 1 implies is_space(#[trigger] t.subrange(0, a - 1)[i]) by {
            assert(t.subrange(0, a - 1)[i] == s.subrange(0, a)[i + 1]);
        }
        lemma_trim_start_skips(t, a - 1);
        assert(t.skip(a - 1) == s.skip(a));
    }
}

proof fn lemma_leading_word_takes(s: Seq<char>, n: int)
    requires
        0 <= n <= s.len(),
        no_spaces(s.subrange(0, n)),
        n == s.len() || is_space(s[n]),
    ensures
        leading_word(s) == s.subrange(0, n),
    decreases n,
{
    if n == 0 {
        assert(s.subrange(0, 0) == Seq::<char>::empty());
    } else {
        assert(s.subrange(0, n)[0] == s[0]);
        let t = s.drop_first();
        assert forall|i: int| 0 <= i < n - 1 implies !is_space(#[trigger] t.subrange(0, n - 1)[i]) by {
            assert(t.subrange(0, n - 1)[i] == s.subrange(0, n)[i + 1]);
        }
        lemma_leading_word_takes(t, n - 1);
        assert(seq![s[0]] + t.subrange(0, n - 1) == s.subrange(0, n));
    }
}

/// A leading word holds no white space.
pub proof fn lemma_leading_word_clean(s: Seq<char>)
    ensures
        no_spaces(leading_word(s)),
    decreases s.len(),
{
    if s.len() > 0 && !is_space(s[0]) {
        let t = s.drop_first();
        lemma_leading_word_clean(t);
        let w = leading_word(s);
        assert forall|i: int| 0 <= i < w.len() implies !is_space(#[trigger] w[i]) by {
            if i > 0 {
                assert(w[i] == leading_word(t)[i - 1]);
            }
        }
    }
}

/// The first word is fixed by where it lies: whenever `s[a..b]` follows
/// only white space, holds none, and ends at the end of `s` or before
/// white space, it is `first_word(s)`.
pub proof fn lemma_first_word_by_bounds(s: Seq<char>, a: int, b: int)
    requires
        bounds_first_word(s, a, b),
    ensures
        first_word(s) == s.subrange(a, b),
{
    if a < b {
        assert(s.subrange(a, b)[0] == s[a]);
    }
    lemma_trim_start_skips(s, a);
    let t = s.skip(a);
    assert forall|i: int| 0 <= i < b - a implies !is_space(#[trigger] t.subrange(0, b - a)[i]) by {
        assert(t.subrange(0, b - a)[i] == s.subrange(a, b)[i]);
    }
    if b < s.len() {
        assert(t[b - a] == s[b]);
    }
    lemma_leading_word_takes(t, b - a);
    assert(t.subrange(0, b - a) == s.subrange(a, b));
}

/// A text of white space alone has no first word, and only such a text
/// has none.
pub proof fn lemma_first_word_empty(s: Seq<char>)
    ensures
        first_word(s).len() == 0 <==> all_spaces(s),
    decreases s.len(),
{
    if s.len() > 0 && is_space(s[0]) {
        let t = s.drop_first();
        lemma_first_word_empty(t);
        if all_spaces(t) {
            assert forall|i: int| 0 <= i < s.len() implies is_space(#[trigger] s[i]) by {
                if i > 0 {
                    assert(s[i] == t[i - 1]);
                }
            }
        }
        if all_spaces(s) {
            assert forall|i: int| 0 <= i < t.len() implies is_space(#[trigger] t[i]) by {
                assert(t[i] == s[i + 1]);
            }
        }
    } else if s.len() > 0 {
        assert(first_word(s).len() > 0);
        assert(!is_space(s[0]));
    }
}

/// Finds the first word of `v` at or after `from`: returns `(a, b)` such
/// that the word is `v[a..b]`.
pub fn find_word(v: &Vec<char>, from: usize) -> (r: (usize, usize))
    requires
        from <= v.len(),
    ensures
        from <= r.0 <= r.1 <= v.len(),
        v@.subrange(r.0 as int, r.1 as int) == first_word(v@.skip(from as int)),
        bounds_first_word(v@.skip(from as int), r.0 - from, r.1 - from),
{
    let ghost s = v@;
    let mut a: usize = from;
    while a < v.len() && char_is_space(v[a])
        invariant
            from <= a <= v.len(),
            s == v@,
            trim_start(s.skip(from as int)) == trim_start(s.skip(a as int)),
            forall|i: int| from <= i < a ==> is_space(#[trigger] s[i]),
        decreases v.len() - a,
    {
        proof {
            lemma_trim_start_step(s, a as int);
        }
        a = a + 1;
    }
    assert(trim_start(s.skip(a as int)) == s.skip(a as int));
    let mut b: usize = a;
    while b < v.len() && !char_is_space(v[b])
        invariant
            a <= b <= v.len(),
            s == v@,
            leading_word(s.skip(a as int)) == s.subrange(a as int, b as int) + leading_word(
                s.skip(b as int),
            ),
            forall|i: int| a <= i < b ==> !is_space(#[trigger] s[i]),
        decreases v.len() - b,
    {
        proof {
            lemma_leading_word_step(s, b as int);
            assert(s.subrange(a as int, b + 1) == s.subrange(a as int, b as int) + seq![s[b as int]]);
        }
        b = b + 1;
    }
    proof {
        assert(leading_word(s.skip(b as int)) == Seq::<char>::empty());
        assert(s.subrange(a as int, b as int) + Seq::<char>::empty() == s.subrange(
            a as int,
            b as int,
        ));
        let t = s.skip(from as int);
        assert forall|i: int| 0 <= i < a - from implies is_space(
            #[trigger] t.subrange(0, a - from)[i],
        ) by {
            assert(t.subrange(0, a - from)[i] == s[from + i]);
        }
        assert forall|i: int| 0 <= i < b - a implies !is_space(
            #[trigger] t.subrange(a - from, b - from)[i],
        ) by {
            assert(t.subrange(a - from, b - from)[i] == s[a + i]);
        }
        if b < v.len() {
            assert(t[b - from] == s[b as int]);
        }
    }
    (a, b)
}

/// The decimal digit that stands for `d`, for `d` below ten.
pub open spec fn digit_char(d: nat) -> char {
    if d == 0 {
        '0'
    } else if d == 1 {
        '1'
    } else if d == 2 {
        '2'
    } else if d == 3 {
        '3'
    } else if d == 4 {
        '4'
    } else if d == 5 {
        '5'
    } else if d == 6 {
        '6'
    } else if d == 7 {
        '7'
    } else if d == 8 {
        '8'
    } else {
        '9'
    }
}

/// `n` written in base ten, most significant digit first, without padding.
pub open spec fn decimal(n: nat) -> Seq<char>
    decreases n,
{
    if n < 10 {
        seq![digit_char(n)]
    } else {
        decimal(n / 10).push(digit_char(n % 10))
    }
}

/// Whether `c` is one of the ten decimal digits.
pub open spec fn is_digit(c: char) -> bool {
    0x30 <= c as u32 <= 0x39
}

/// The number that a row of decimal digits stands for.
pub open spec fn decimal_value(s: Seq<char>) -> nat
    decreases s.len(),
{
    if s.len() == 0 {
        0
    } else {
        10 * decimal_value(s.drop_last()) + (s.last() as u32 - 0x30) as nat
    }
}

/// The decimal form of a number is a row of at least one digit, and leads
/// with a zero only for zero itself.
pub proof fn lemma_decimal_digits(n: nat)
    ensures
        decimal(n).len() >= 1,
        forall|i: int| 0 <= i < decimal(n).len() ==> is_digit(#[trigger] decimal(n)[i]),
        decimal(n)[0] == '0' ==> n == 0,
    decreases n,
{
    if n >= 10 {
        lemma_decimal_digits(n / 10);
    }
}

/// The decimal form of a number stands for that number, so different
/// numbers have different forms.
pub proof fn lemma_decimal_value(n: nat)
    ensures
        decimal_value(decimal(n)) == n,
    decreases n,
{
    if n < 10 {
        assert(decimal(n).drop_last().len() == 0);
        assert(decimal_value(decimal(n).drop_last()) == 0);
    } else {
        lemma_decimal_value(n / 10);
        assert(decimal(n).drop_last() == decimal(n / 10));
    }
}

fn digit_text(d: u64) -> (s: &'static str)
    requires
        d < 10,
    ensures
        s@ == seq![digit_char(d as nat)],
{
    proof {
        reveal_strlit("0");
        reveal_strlit("1");
        reveal_strlit("2");
        reveal_strlit("3");
        reveal_strlit("4");
        reveal_strlit("5");
        reveal_strlit("6");
        reveal_strlit("7");
        reveal_strlit("8");
        reveal_strlit("9");
    }
    let s = if d == 0 {
        "0"
    } else if d == 1 {
        "1"
    } else if d == 2 {
        "2"
    } else if d == 3 {
        "3"
    } else if d == 4 {
        "4"
    } else if d == 5 {
        "5"
    } else if d == 6 {
        "6"
    } else if d == 7 {
        "7"
    } else if d == 8 {
        "8"
    } else {
        "9"
    };
    assert(s@ =~= seq![digit_char(d as nat)]);
    s
}

/// Writes `n` in base ten.
pub fn render_decimal(n: u64) -> (s: String)
    ensures
        s@ == decimal(n as nat),
    decreases n,
{
    if n < 10 {
        String::from_str(digit_text(n))
    } else {
        let mut s = render_decimal(n / 10);
        s.append(digit_text(n % 10));
        assert(s@ =~= decimal(n as nat / 10).push(digit_char(n as nat % 10)));
        s
    }
}

} // verus!
