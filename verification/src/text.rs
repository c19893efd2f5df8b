//! Character-level helpers shared by the text-processing modules.
use vstd::prelude::*;
use vstd::string::*;

verus! {

broadcast use vstd::string::group_string_axioms;

/// Collects the characters of `s` into a vector.
pub fn chars_of(s: &str) -> (v: Vec<char>)
    ensures
        v@ == s@,
{
    let mut v: Vec<char> = Vec::new();
    let n = s.unicode_len();
    let mut i: usize = 0;
    while i < n
        invariant
            n == s@.len(),
            i <= n,
            v@ == s@.take(i as int),
        decreases n - i,
    {
        v.push(s.get_char(i));
        i = i + 1;
        assert(v@ =~= s@.take(i as int));
    }
    assert(v@ =~= s@);
    v
}

/// The Unicode lower-case mapping of a text, as `str::to_lowercase`
/// computes it.
pub uninterp spec fn lowercase(s: Seq<char>) -> Seq<char>;

/// Calls `str::to_lowercase`. The contract only names the result: it is the
/// lower-case mapping of the argument's characters, a function of them alone.
#[verifier::external_body]
pub(crate) fn to_lowercase(s: &str) -> (r: String)
    ensures
        r@ == lowercase(s@),
{
    s.to_lowercase()
}

/// Whether two texts hold the same characters.
pub(crate) fn str_eq(a: &str, b: &str) -> (r: bool)
    ensures
        r == (a@ == b@),
{
    let x = chars_of(a);
    let y = chars_of(b);
    if x.len() != y.len() {
        return false;
    }
    let mut i: usize = 0;
    while i < x.len()
        invariant
            i <= x@.len(),
            x@.len() == y@.len(),
            x@ == a@,
            y@ == b@,
            forall|k: int| 0 <= k < i ==> x@[k] == y@[k],
        decreases x@.len() - i,
    {
        if x[i] != y[i] {
            return false;
        }
        i = i + 1;
    }
    assert(x@ =~= y@);
    true
}

/// `String::push` appends the character to the end of the text.
pub assume_specification[ String::push ](s: &mut String, ch: char)
    ensures
        final(s)@ == old(s)@.push(ch),
;

pub open spec fn is_digit(c: char) -> bool {
    '0' <= c <= '9'
}

/// The value of a string of decimal digits.
pub open spec fn digits_value(s: Seq<char>) -> nat
    decreases s.len(),
{
    if s.len() == 0 {
        0
    } else {
        digits_value(s.drop_last()) * 10 + (s.last() as nat - '0' as nat) as nat
    }
}

/// What `u32::from_str` gives: an optional `+` followed by one or more
/// decimal digits whose value fits in `u32`; anything else is an error.
pub open spec fn parsed_u32(s: Seq<char>) -> Option<u32> {
    let d = if s.len() > 0 && s[0] == '+' {
        s.drop_first()
    } else {
        s
    };
    if d.len() > 0 && all_digits(d) && digits_value(d) <= u32::MAX {
        Some(digits_value(d) as u32)
    } else {
        None
    }
}

/// Every character of `s` is a decimal digit.
pub open spec fn all_digits(s: Seq<char>) -> bool {
    forall|i: int| 0 <= i < s.len() ==> is_digit(#[trigger] s[i])
}

/// The value of the digits `c[from..]`, saturated just above `cap`: `None`
/// when a character is not a digit.
fn digits_capped(c: &Vec<char>, from: usize, cap: u64) -> (r: Option<u64>)
    requires
        from <= c@.len(),
        cap <= 0x1_0000_0000,
    ensures
        ({
            let d = c@.subrange(from as int, c@.len() as int);
            match r {
                Some(v) => all_digits(d) && if digits_value(d) <= cap {
                    v == digits_value(d)
                } else {
                    v == cap + 1
                },
                None => !all_digits(d),
            }
        }),
{
    let n = c.len();
    let mut v: u64 = 0;
    let mut i: usize = from;
    assert(c@.subrange(from as int, from as int) =~= Seq::<char>::empty());
    while i < n
        invariant
            n == c@.len(),
            from <= i <= n,
            cap <= 0x1_0000_0000,
            all_digits(c@.subrange(from as int, i as int)),
            if digits_value(c@.subrange(from as int, i as int)) <= cap {
                v == digits_value(c@.subrange(from as int, i as int))
            } else {
                v == cap + 1
            },
        decreases n - i,
    {
        let ghost before = c@.subrange(from as int, i as int);
        let ghost after = c@.subrange(from as int, i + 1);
        assert(after.drop_last() =~= before);
        assert(after.last() == c@[i as int]);
        let ch = c[i];
        if !('0' <= ch && ch <= '9') {
            assert(!all_digits(c@.subrange(from as int, n as int))) by {
                assert(c@.subrange(from as int, n as int)[i - from] == ch);
            }
            return None;
        }
        let d = (ch as u32 - '0' as u32) as u64;
        assert(d == (after.last() as nat - '0' as nat) as nat);
        if v <= cap {
            let nv = v * 10 + d;
            v = if nv > cap { cap + 1 } else { nv };
        }
        assert forall|k: int| 0 <= k < after.len() implies is_digit(#[trigger] after[k]) by {
            if k < before.len() {
                assert(after[k] == before[k]);
            }
        }
        i = i + 1;
    }
    assert(c@.subrange(from as int, n as int) == c@.subrange(from as int, i as int));
    Some(v)
}

/// `str::parse::<u32>` (see `parsed_u32`): an optional `+` and decimal
/// digits whose value fits in `u32`.
pub(crate) fn parse_u32(s: &str) -> (r: Option<u32>)
    ensures
        r == parsed_u32(s@),
{
    let c = chars_of(s);
    let from: usize = if c.len() > 0 && c[0] == '+' {
        1
    } else {
        0
    };
    let ghost d = if s@.len() > 0 && s@[0] == '+' {
        s@.drop_first()
    } else {
        s@
    };
    assert(c@.subrange(from as int, c@.len() as int) =~= d);
    if from == c.len() {
        return None;
    }
    match digits_capped(&c, from, 4294967295) {
        None => None,
        Some(v) => if v <= 4294967295 {
            Some(v as u32)
        } else {
            None
        },
    }
}

/// What `i32::from_str` gives: an optional `+` or `-` followed by one or
/// more decimal digits whose signed value fits in `i32`; anything else is
/// an error.
pub open spec fn parsed_i32(s: Seq<char>) -> Option<i32> {
    let negative = s.len() > 0 && s[0] == '-';
    let d = if s.len() > 0 && (s[0] == '+' || s[0] == '-') {
        s.drop_first()
    } else {
        s
    };
    let v: int = if negative {
        -(digits_value(d) as int)
    } else {
        digits_value(d) as int
    };
    if d.len() > 0 && all_digits(d) && i32::MIN <= v <= i32::MAX {
        Some(v as i32)
    } else {
        None
    }
}

/// `str::parse::<i32>` (see `parsed_i32`): an optional `+` or `-` and
/// decimal digits whose signed value fits in `i32`.
pub(crate) fn parse_i32(s: &str) -> (r: Option<i32>)
    ensures
        r == parsed_i32(s@),
{
    let c = chars_of(s);
    let negative = c.len() > 0 && c[0] == '-';
    let from: usize = if c.len() > 0 && (c[0] == '+' || c[0] == '-') {
        1
    } else {
        0
    };
    let ghost d = if s@.len() > 0 && (s@[0] == '+' || s@[0] == '-') {
        s@.drop_first()
    } else {
        s@
    };
    assert(c@.subrange(from as int, c@.len() as int) =~= d);
    if from == c.len() {
        return None;
    }
    match digits_capped(&c, from, 2147483648) {
        None => None,
        Some(v) => if negative {
            if v < 2147483648 {
                Some(-(v as i32))
            } else if v == 2147483648 {
                Some(i32::MIN)
            } else {
                None
            }
        } else if v <= 2147483647 {
            Some(v as i32)
        } else {
            None
        },
    }
}

/// Whether a character has the Unicode `White_Space` property: the
/// characters U+0009 to U+000D, U+0020, U+0085, U+00A0, U+1680, U+2000 to
/// U+200A, U+2028, U+2029, U+202F, U+205F and U+3000.
pub open spec fn is_white_space(c: char) -> bool {
    let u = c as int;
    ||| 0x9 <= u <= 0xd
    ||| u == 0x20
    ||| u == 0x85
    ||| u == 0xa0
    ||| u == 0x1680
    ||| 0x2000 <= u <= 0x200a
    ||| u == 0x2028
    ||| u == 0x2029
    ||| u == 0x202f
    ||| u == 0x205f
    ||| u == 0x3000
}

/// Whether a character has the Unicode `White_Space` property (see
/// `is_white_space`), as `char::is_whitespace` tells.
pub(crate) fn is_whitespace(c: char) -> (r: bool)
    ensures
        r == is_white_space(c),
{
    let u = c as u32;
    (0x9 <= u && u <= 0xd) || u == 0x20 || u == 0x85 || u == 0xa0 || u == 0x1680 || (0x2000 <= u && u <= 0x200a)
        || u == 0x2028 || u == 0x2029 || u == 0x202f || u == 0x205f || u == 0x3000
}

/// Whether the text has a character that is not whitespace.
pub fn has_visible_char(s: &str) -> (r: bool)
    ensures
        r == exists|i: int| 0 <= i < s@.len() && !is_white_space(#[trigger] s@[i]),
{
    let chars = chars_of(s);
    let mut i: usize = 0;
    while i < chars.len()
        invariant
            chars@ == s@,
            i <= chars@.len(),
            forall|k: int| 0 <= k < i ==> is_white_space(#[trigger] s@[k]),
        decreases chars@.len() - i,
    {
        if !is_whitespace(chars[i]) {
            return true;
        }
        i = i + 1;
    }
    false
}

/// The text without leading whitespace.
pub open spec fn trim_front(s: Seq<char>) -> Seq<char>
    decreases s.len(),
{
    if s.len() > 0 && is_white_space(s[0]) {
        trim_front(s.drop_first())
    } else {
        s
    }
}

/// The text without trailing whitespace.
pub open spec fn trim_back(s: Seq<char>) -> Seq<char>
    decreases s.len(),
{
    if s.len() > 0 && is_white_space(s.last()) {
        trim_back(s.drop_last())
    } else {
        s
    }
}

/// The text without leading and trailing whitespace.
pub open spec fn trimmed(s: Seq<char>) -> Seq<char> {
    trim_back(trim_front(s))
}

proof fn lemma_trim_front(s: Seq<char>, i: int)
    requires
        0 <= i <= s.len(),
        forall|k: int| 0 <= k < i ==> is_white_space(#[trigger] s[k]),
        i == s.len() || !is_white_space(s[i]),
    ensures
        trim_front(s) == s.subrange(i, s.len() as int),
    decreases i,
{
    if i == 0 {
        assert(s.subrange(0, s.len() as int) =~= s);
    } else {
        let d = s.drop_first();
        assert forall|k: int| 0 <= k < i - 1 implies is_white_space(#[trigger] d[k]) by {
            assert(d[k] == s[k + 1]);
        }
        if i < s.len() {
            assert(d[i - 1] == s[i]);
        }
        lemma_trim_front(d, i - 1);
        assert(d.subrange(i - 1, d.len() as int) =~= s.subrange(i, s.len() as int));
    }
}

proof fn lemma_trim_back(t: Seq<char>, j: int)
    requires
        0 <= j <= t.len(),
        forall|k: int| j <= k < t.len() ==> is_white_space(#[trigger] t[k]),
        j == 0 || !is_white_space(t[j - 1]),
    ensures
        trim_back(t) == t.subrange(0, j),
    decreases t.len() - j,
{
    if j == t.len() {
        assert(t.subrange(0, j) =~= t);
    } else {
        let d = t.drop_last();
        assert(is_white_space(t[t.len() - 1]));
        assert forall|k: int| j <= k < d.len() implies is_white_space(#[trigger] d[k]) by {
            assert(d[k] == t[k]);
        }
        if j > 0 {
            assert(d[j - 1] == t[j - 1]);
        }
        lemma_trim_back(d, j);
        assert(d.subrange(0, j) =~= t.subrange(0, j));
    }
}

/// The text without leading and trailing whitespace (see `trimmed`), as
/// `str::trim` gives it.
pub(crate) fn trim(s: &str) -> (r: &str)
    ensures
        r@ == trimmed(s@),
{
    let c = chars_of(s);
    let n = c.len();
    let mut i: usize = 0;
    while i < n && is_whitespace(c[i])
        invariant
            n == c@.len(),
            c@ == s@,
            i <= n,
            forall|k: int| 0 <= k < i ==> is_white_space(#[trigger] c@[k]),
        decreases n - i,
    {
        i = i + 1;
    }
    let mut j: usize = n;
    while j > i && is_whitespace(c[j - 1])
        invariant
            n == c@.len(),
            c@ == s@,
            i <= j <= n,
            forall|k: int| j <= k < n ==> is_white_space(#[trigger] c@[k]),
        decreases j,
    {
        j = j - 1;
    }
    proof {
        lemma_trim_front(s@, i as int);
        let f = s@.subrange(i as int, n as int);
        assert forall|k: int| j - i <= k < f.len() implies is_white_space(#[trigger] f[k]) by {
            assert(f[k] == s@[i + k]);
        }
        if j > i {
            assert(f[j - i - 1] == s@[j - 1]);
        }
        lemma_trim_back(f, j - i);
        assert(f.subrange(0, j - i) =~= s@.subrange(i as int, j as int));
    }
    s.substring_char(i, j)
}

} // verus!
