//! Small verified helpers on text: equality, concatenation and trimming.

use vstd::prelude::*;
use vstd::string::*;

verus! {

/// Whether `c` has the Unicode `White_Space` property: the tab, the line
/// feed, the vertical tab, the form feed, the carriage return, the space,
/// U+0085, U+00A0, U+1680, U+2000 to U+200A, U+2028, U+2029, U+202F, U+205F
/// and U+3000.
pub open spec fn is_white_space(c: char) -> bool {
    let n = c as u32;
    ||| 0x09 <= n <= 0x0d
    ||| n == 0x20
    ||| n == 0x85
    ||| n == 0xa0
    ||| n == 0x1680
    ||| 0x2000 <= n <= 0x200a
    ||| n == 0x2028
    ||| n == 0x2029
    ||| n == 0x202f
    ||| n == 0x205f
    ||| n == 0x3000
}

/// Whether `c` has the Unicode `White_Space` property, as `char::is_whitespace`
/// tells.
fn char_is_whitespace(c: char) -> (b: bool)
    ensures
        b == is_white_space(c),
{
    let n = c as u32;
    (0x09 <= n && n <= 0x0d) || n == 0x20 || n == 0x85 || n == 0xa0 || n == 0x1680 || (0x2000 <= n
        && n <= 0x200a) || n == 0x2028 || n == 0x2029 || n == 0x202f || n == 0x205f || n == 0x3000
}

/// Calls `String::push`, which appends one character (std documentation).
#[verifier::external_body]
fn push_char(s: &mut String, c: char)
    ensures
        final(s)@ == old(s)@.push(c),
{
    s.push(c)
}

/// `s` with the leading and the trailing white space removed.
pub open spec fn trim_spec(s: Seq<char>) -> Seq<char> {
    if leading_white(s) == s.len() {
        Seq::empty()
    } else {
        s.subrange(leading_white(s), s.len() - trailing_white(s))
    }
}

/// The number of white space characters at the start of `s`, all of them
/// when `s` is blank.
pub open spec fn leading_white(s: Seq<char>) -> int
    decreases s.len(),
{
    if s.len() == 0 {
        0
    } else if is_white_space(s[0]) {
        1 + leading_white(s.drop_first())
    } else {
        0
    }
}

/// The number of white space characters at the end of `s`.
pub open spec fn trailing_white(s: Seq<char>) -> int
    decreases s.len(),
{
    if s.len() == 0 || !is_white_space(s.last()) {
        0
    } else {
        1 + trailing_white(s.drop_last())
    }
}

/// Whether every character of `s` is white space.
pub open spec fn is_blank(s: Seq<char>) -> bool {
    forall|i: int| 0 <= i < s.len() ==> is_white_space(#[trigger] s[i])
}

proof fn lemma_leading_white(s: Seq<char>)
    ensures
        0 <= leading_white(s) <= s.len(),
        forall|i: int| 0 <= i < leading_white(s) ==> is_white_space(#[trigger] s[i]),
        leading_white(s) < s.len() ==> !is_white_space(s[leading_white(s)]),
    decreases s.len(),
{
    if s.len() > 0 && is_white_space(s[0]) {
        lemma_leading_white(s.drop_first());
        assert forall|i: int| 0 <= i < leading_white(s) implies is_white_space(#[trigger] s[i]) by {
            if i > 0 {
                assert(s[i] == s.drop_first()[i - 1]);
            }
        }
    }
}

proof fn lemma_trailing_white(s: Seq<char>)
    ensures
        0 <= trailing_white(s) <= s.len(),
        forall|i: int| s.len() - trailing_white(s) <= i < s.len() ==> is_white_space(#[trigger] s[i]),
        trailing_white(s) < s.len() ==> !is_white_space(s[s.len() - trailing_white(s) - 1]),
    decreases s.len(),
{
    if s.len() > 0 && is_white_space(s.last()) {
        lemma_trailing_white(s.drop_last());
        assert forall|i: int| s.len() - trailing_white(s) <= i < s.len() implies is_white_space(
            #[trigger] s[i],
        ) by {
            if i < s.len() - 1 {
                assert(s[i] == s.drop_last()[i]);
            }
        }
    }
}

/// A blank text trims to the empty text, and a text that is not blank
/// keeps at least one character.
pub proof fn lemma_trim_empty_iff_blank(s: Seq<char>)
    ensures
        (trim_spec(s).len() == 0) == is_blank(s),
{
    lemma_leading_white(s);
    lemma_trailing_white(s);
    if is_blank(s) {
        lemma_blank_leading(s);
    } else {
        let k = choose|k: int| 0 <= k < s.len() && !is_white_space(#[trigger] s[k]);
        assert(leading_white(s) <= k);
        assert(k < s.len() - trailing_white(s));
    }
}

proof fn lemma_blank_leading(s: Seq<char>)
    requires
        is_blank(s),
    ensures
        leading_white(s) == s.len(),
    decreases s.len(),
{
    if s.len() > 0 {
        assert(is_white_space(s[0]));
        assert(is_blank(s.drop_first())) by {
            assert forall|i: int| 0 <= i < s.drop_first().len() implies is_white_space(
                #[trigger] s.drop_first()[i],
            ) by {
                assert(s.drop_first()[i] == s[i + 1]);
            }
        }
        lemma_blank_leading(s.drop_first());
    }
}

/// The characters of `s`, one by one.
pub fn chars_of(s: &str) -> (v: Vec<char>)
    ensures
        v@ == s@,
{
    let mut v: Vec<char> = Vec::new();
    for c in it: s.chars()
        invariant
            v@ == it.seq().take(it.index() as int),
            it.seq() == s@,
    {
        v.push(c);
        assert(v@ =~= it.seq().take(it.index() as int + 1));
    }
    assert(v@ =~= s@);
    v
}

/// Whether two texts hold the same characters.
pub fn text_eq(a: &str, b: &str) -> (r: bool)
    ensures
        r == (a@ == b@),
{
    let x = String::from_str(a);
    let y = String::from_str(b);
    x == y
}

/// A new text with the characters of `s`.
pub fn text(s: &str) -> (r: String)
    ensures
        r@ == s@,
{
    String::from_str(s)
}

/// `s` with the leading and the trailing white space removed, as `str::trim`
/// does.
pub fn trim(s: &str) -> (r: String)
    ensures
        r@ == trim_spec(s@),
{
    let cs = chars_of(s);
    let n = cs.len();
    proof {
        lemma_leading_white(s@);
        lemma_trailing_white(s@);
    }
    let mut start: usize = 0;
    while start < n && char_is_whitespace(cs[start])
        invariant
            cs@ == s@,
            n == cs.len(),
            start <= leading_white(s@),
            0 <= leading_white(s@) <= s@.len(),
            forall|i: int| 0 <= i < leading_white(s@) ==> is_white_space(#[trigger] s@[i]),
            leading_white(s@) < s@.len() ==> !is_white_space(s@[leading_white(s@)]),
        decreases n - start,
    {
        start = start + 1;
    }
    assert(start == leading_white(s@));
    let mut end: usize = n;
    if start < n {
        while char_is_whitespace(cs[end - 1])
            invariant
                cs@ == s@,
                n == cs.len(),
                start < n,
                start == leading_white(s@),
                start < s@.len() ==> !is_white_space(s@[start as int]),
                s@.len() - trailing_white(s@) <= end <= n,
                0 <= trailing_white(s@) <= s@.len(),
                forall|i: int| s@.len() - trailing_white(s@) <= i < s@.len() ==> is_white_space(
                    #[trigger] s@[i],
                ),
                trailing_white(s@) < s@.len() ==> !is_white_space(
                    s@[s@.len() - trailing_white(s@) - 1],
                ),
                start < end,
            decreases end,
        {
            end = end - 1;
        }
        assert(end == s@.len() - trailing_white(s@));
    } else {
        proof {
            assert(leading_white(s@) == s@.len());
            lemma_blank_trailing(s@);
        }
    }
    let mut r = String::new();
    let mut i = start;
    while i < end
        invariant
            cs@ == s@,
            n == cs.len(),
            start <= i <= end <= n,
            r@ == s@.subrange(start as int, i as int),
        decreases end - i,
    {
        push_char(&mut r, cs[i]);
        i = i + 1;
        assert(r@ =~= s@.subrange(start as int, i as int));
    }
    r
}

proof fn lemma_blank_trailing(s: Seq<char>)
    requires
        forall|i: int| 0 <= i < s.len() ==> is_white_space(#[trigger] s[i]),
    ensures
        trailing_white(s) == s.len(),
    decreases s.len(),
{
    if s.len() > 0 {
        assert(is_white_space(s[s.len() - 1]));
        assert forall|i: int| 0 <= i < s.drop_last().len() implies is_white_space(
            #[trigger] s.drop_last()[i],
        ) by {
            assert(s.drop_last()[i] == s[i]);
        }
        lemma_blank_trailing(s.drop_last());
    }
}

/// Whether `s` holds only white space, as `s.trim().is_empty()` tells.
pub fn is_blank_text(s: &str) -> (r: bool)
    ensures
        r == is_blank(s@),
        r == (trim_spec(s@).len() == 0),
{
    let t = trim(s);
    proof {
        lemma_trim_empty_iff_blank(s@);
    }
    t.as_str().is_empty()
}

/// The decimal digit `d` (below ten).
pub open spec fn digit_char(d: nat) -> char {
    (d + 48) as char
}

/// The decimal digits of `n`, without leading zeros.
pub open spec fn digits_of(n: nat) -> Seq<char>
    decreases n,
{
    if n < 10 {
        seq![digit_char(n)]
    } else {
        digits_of(n / 10).push(digit_char(n % 10))
    }
}

/// The decimal text of `n`, with a `-` before a negative one, as `{}`
/// formats an integer.
pub open spec fn decimal_of(n: int) -> Seq<char> {
    if n < 0 {
        seq!['-'] + digits_of((-n) as nat)
    } else {
        digits_of(n as nat)
    }
}

fn push_digits(s: &mut String, n: u64)
    ensures
        final(s)@ == old(s)@ + digits_of(n as nat),
    decreases n,
{
    if n >= 10 {
        push_digits(s, n / 10);
    }
    let d: u8 = (n % 10) as u8;
    let c = (48u8 + d) as char;
    push_char(s, c);
    proof {
        if n >= 10 {
            assert(digits_of(n as nat) == digits_of((n / 10) as nat).push(digit_char((n % 10) as nat)));
        }
    }
    assert(s@ =~= old(s)@ + digits_of(n as nat));
}

/// The decimal text of an integer.
pub fn decimal(n: i64) -> (r: String)
    ensures
        r@ == decimal_of(n as int),
{
    let mut s = String::new();
    if n < 0 {
        push_char(&mut s, '-');
        let m: u64 = if n == i64::MIN {
            9223372036854775808u64
        } else {
            (-n) as u64
        };
        push_digits(&mut s, m);
        assert(s@ =~= seq!['-'] + digits_of((-n) as nat));
    } else {
        push_digits(&mut s, n as u64);
        assert(s@ =~= digits_of(n as nat));
    }
    s
}

} // verus!
