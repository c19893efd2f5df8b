//! Inline text style markup parser for dialog text.
//!
//! Supports underscore-fenced styling:
//! - `___text___` is BoldItalic
//! - `__text__` is Bold
//! - `_text_` is Italic
//!
//! Unclosed delimiters are emitted as plain text.
use vstd::prelude::*;
use vstd::string::*;
use crate::text::chars_of;

verus! {

/// The visual style applied to a text segment.
#[derive(Clone, Copy, Debug, PartialEq, Eq, Structural)]
pub enum TextStyle {
    Plain,
    Bold,
    Italic,
    BoldItalic,
}

/// A segment of parsed dialog text with an associated style.
#[derive(Clone, Debug, PartialEq, Eq)]
pub struct TextSegment {
    pub text: String,
    pub style: TextStyle,
}

/// A parsed segment as mathematical values: its characters and its style.
pub type SegmentView = (Seq<char>, TextStyle);

pub open spec fn segment_view(t: TextSegment) -> SegmentView {
    (t.text@, t.style)
}

pub open spec fn segments_view(v: Seq<TextSegment>) -> Seq<SegmentView> {
    v.map_values(|t: TextSegment| segment_view(t))
}

/// The style fenced by `d` underscores.
pub open spec fn style_for(d: int) -> TextStyle {
    if d == 3 {
        TextStyle::BoldItalic
    } else if d == 2 {
        TextStyle::Bold
    } else {
        TextStyle::Italic
    }
}

/// The end of the run of underscores that starts at `i`.
pub open spec fn run_end(s: Seq<char>, i: int) -> int
    decreases s.len() - i,
{
    if 0 <= i < s.len() && s[i] == '_' {
        run_end(s, i + 1)
    } else {
        i
    }
}

/// `d` underscores start at position `p`.
pub open spec fn is_window(s: Seq<char>, p: int, d: int) -> bool {
    &&& 0 <= p
    &&& p + d <= s.len()
    &&& forall|k: int| p <= k < p + d ==> s[k] == '_'
}

/// The first position at or after `i` where `d` underscores begin.
pub open spec fn find_close(s: Seq<char>, i: int, d: int) -> Option<int>
    decreases s.len() - i,
{
    if i < 0 || i + d > s.len() {
        None
    } else if is_window(s, i, d) {
        Some(i)
    } else {
        find_close(s, i + 1, d)
    }
}

/// The delimiter that closes an opening run of `d` (or fewer) underscores
/// whose content starts at `inner_start`: the longest fence tried first.
/// Yields the style, the content bounds and the position after the fence.
pub open spec fn delim_match(s: Seq<char>, inner_start: int, d: int) -> Option<
    (TextStyle, int, int, int),
>
    decreases d,
{
    if d < 1 {
        None
    } else {
        match find_close(s, inner_start, d) {
            Some(c) => Some((style_for(d), inner_start, c, c + d)),
            None => delim_match(s, inner_start, d - 1),
        }
    }
}

/// Appends a segment, merging it into the last one when the styles agree
/// and dropping it when it is empty.
pub open spec fn push_seg(segs: Seq<SegmentView>, text: Seq<char>, style: TextStyle) -> Seq<
    SegmentView,
> {
    if text.len() == 0 {
        segs
    } else if segs.len() > 0 && segs.last().1 == style {
        segs.update(segs.len() - 1, (segs.last().0 + text, style))
    } else {
        segs.push((text, style))
    }
}

pub open spec fn min3(c: int) -> int {
    if c < 3 {
        c
    } else {
        3
    }
}

/// The segments produced by scanning `s` from `pos`, where plain text has
/// been accumulating since `plain_start` and `segs` were emitted before.
pub open spec fn parse_from(s: Seq<char>, pos: int, plain_start: int, segs: Seq<SegmentView>) -> Seq<
    SegmentView,
>
    decreases s.len() - pos,
{
    if pos < 0 || pos >= s.len() {
        if 0 <= plain_start < s.len() {
            push_seg(segs, s.subrange(plain_start, s.len() as int), TextStyle::Plain)
        } else {
            segs
        }
    } else if s[pos] == '_' {
        let j = run_end(s, pos);
        proof {
            lemma_run_end(s, pos);
        }
        match delim_match(s, j, min3(j - pos)) {
            Some(m) => {
                proof {
                    lemma_delim_match(s, j, min3(j - pos));
                }
                let segs1 = if pos > plain_start {
                    push_seg(segs, s.subrange(plain_start, pos), TextStyle::Plain)
                } else {
                    segs
                };
                parse_from(s, m.3, m.3, push_seg(segs1, s.subrange(m.1, m.2), m.0))
            },
            None => parse_from(s, j, plain_start, segs),
        }
    } else {
        parse_from(s, pos + 1, plain_start, segs)
    }
}

/// The segments that `parse_markup` produces for the characters `s`.
pub open spec fn spec_parse_markup(s: Seq<char>) -> Seq<SegmentView> {
    parse_from(s, 0, 0, Seq::empty())
}

pub proof fn lemma_run_end(s: Seq<char>, i: int)
    requires
        0 <= i <= s.len(),
    ensures
        i <= run_end(s, i) <= s.len(),
        forall|k: int| i <= k < run_end(s, i) ==> s[k] == '_',
        run_end(s, i) == s.len() || s[run_end(s, i)] != '_',
        i < s.len() && s[i] == '_' ==> run_end(s, i) > i,
    decreases s.len() - i,
{
    if i < s.len() && s[i] == '_' {
        lemma_run_end(s, i + 1);
    }
}

pub proof fn lemma_find_close(s: Seq<char>, i: int, d: int)
    requires
        0 <= i,
        1 <= d,
    ensures
        find_close(s, i, d) matches Some(c) ==> i <= c && c + d <= s.len() && is_window(s, c, d),
    decreases s.len() - i,
{
    if i + d <= s.len() && !is_window(s, i, d) {
        lemma_find_close(s, i + 1, d);
    }
}

pub proof fn lemma_delim_match(s: Seq<char>, inner_start: int, d: int)
    requires
        0 <= inner_start,
        d <= 3,
    ensures
        delim_match(s, inner_start, d) matches Some(m) ==> m.1 == inner_start && inner_start <= m.2
            && m.3 == m.2 + (if m.0 == TextStyle::BoldItalic {
            3int
        } else if m.0 == TextStyle::Bold {
            2int
        } else {
            1int
        }) && m.3 <= s.len() && m.3 > m.2 && m.0 != TextStyle::Plain && is_window(s, m.2, m.3 - m.2),
    decreases d,
{
    if d >= 1 {
        lemma_find_close(s, inner_start, d);
        if find_close(s, inner_start, d) is None {
            lemma_delim_match(s, inner_start, d - 1);
        }
    }
}

/// Skipping a run of fewer than `d` underscores does not pass over a window.
proof fn lemma_find_close_skip_run(s: Seq<char>, i: int, j: int, d: int)
    requires
        0 <= i <= j <= s.len(),
        1 <= d,
        j - i < d,
        j == s.len() || s[j] != '_',
    ensures
        find_close(s, i, d) == find_close(s, j, d),
    decreases j - i,
{
    if i < j {
        if i + d <= s.len() {
            assert(!is_window(s, i, d)) by {
                if is_window(s, i, d) {
                    assert(i <= j < i + d);
                    assert(s[j] == '_');
                }
            }
        }
        lemma_find_close_skip_run(s, i + 1, j, d);
    }
}

/// Search for a closing delimiter of `delim_len` underscores starting from
/// `search_start`. Returns the position where the closing delimiter begins.
fn find_closing_delimiter(chars: &Vec<char>, search_start: usize, delim_len: usize, len: usize) -> (r:
    Option<usize>)
    requires
        len == chars@.len(),
        search_start <= len,
        1 <= delim_len <= 3,
    ensures
        r == (match find_close(chars@, search_start as int, delim_len as int) {
            Some(c) => Some(c as usize),
            None => None::<usize>,
        }),
        r matches Some(c) ==> c + delim_len <= len && find_close(
            chars@,
            search_start as int,
            delim_len as int,
        ) == Some(c as int),
        r is None ==> find_close(chars@, search_start as int, delim_len as int) is None,
{
    let ghost s = chars@;
    let mut i = search_start;
    proof {
        lemma_find_close(s, search_start as int, delim_len as int);
    }
    while delim_len <= len && i <= len - delim_len
        invariant
            s == chars@,
            len == s.len(),
            1 <= delim_len <= 3,
            search_start <= i <= len,
            find_close(s, i as int, delim_len as int) == find_close(
                s,
                search_start as int,
                delim_len as int,
            ),
        decreases len - i,
    {
        if chars[i] == '_' {
            let mut consecutive: usize = 0;
            let start = i;
            proof {
                lemma_run_end(s, start as int);
            }
            while i < len && chars[i] == '_'
                invariant
                    s == chars@,
                    len == s.len(),
                    start <= i <= len,
                    consecutive == i - start,
                    run_end(s, i as int) == run_end(s, start as int),
                decreases len - i,
            {
                consecutive = consecutive + 1;
                i = i + 1;
            }
            proof {
                lemma_run_end(s, start as int);
            }
            if consecutive == delim_len {
                assert(is_window(s, start as int, delim_len as int));
                return Some(start);
            }
            if consecutive >= delim_len {
                assert(is_window(s, start as int, delim_len as int));
                return Some(start);
            }
            proof {
                lemma_find_close_skip_run(s, start as int, i as int, delim_len as int);
            }
        } else {
            assert(!is_window(s, i as int, delim_len as int));
            i = i + 1;
        }
    }
    None
}

/// Try to match a delimiter opened by `count` underscores at
/// `underscore_start`, longest first (at most three).
fn try_match_delimiter(chars: &Vec<char>, underscore_start: usize, count: usize, len: usize) -> (r:
    Option<(TextStyle, usize, usize, usize)>)
    requires
        len == chars@.len(),
        underscore_start + count <= len,
    ensures
        r == (match delim_match(chars@, underscore_start + count, min3(count as int)) {
            Some(m) => Some((m.0, m.1 as usize, m.2 as usize, m.3 as usize)),
            None => None::<(TextStyle, usize, usize, usize)>,
        }),
{
    let max_delim: usize = if count < 3 {
        count
    } else {
        3
    };
    let inner_start = underscore_start + count;
    let mut delim_len = max_delim;
    while delim_len >= 1
        invariant
            len == chars@.len(),
            inner_start == underscore_start + count,
            inner_start <= len,
            delim_len <= 3,
            delim_match(chars@, inner_start as int, delim_len as int) == delim_match(
                chars@,
                inner_start as int,
                min3(count as int),
            ),
        decreases delim_len,
    {
        let style = if delim_len == 3 {
            TextStyle::BoldItalic
        } else if delim_len == 2 {
            TextStyle::Bold
        } else {
            TextStyle::Italic
        };
        assert(style == style_for(delim_len as int));
        if let Some(close_pos) = find_closing_delimiter(chars, inner_start, delim_len, len) {
            assert(delim_match(chars@, inner_start as int, delim_len as int) == Some(
                (style, inner_start as int, close_pos as int, close_pos + delim_len),
            ));
            return Some((style, inner_start, close_pos, close_pos + delim_len));
        }
        delim_len = delim_len - 1;
    }
    None
}

/// Push a segment onto the list, merging with the previous segment if styles
/// match and avoiding empty segments.
fn push_segment(segments: &mut Vec<TextSegment>, text: &str, style: TextStyle)
    ensures
        segments_view(final(segments)@) == push_seg(segments_view(old(segments)@), text@, style),
{
    if text.is_empty() {
        return;
    }
    let n = segments.len();
    if n > 0 && segments[n - 1].style == style {
        let mut last = segments.pop().unwrap();
        last.text.append(text);
        segments.push(last);
        assert(segments_view(segments@) =~= push_seg(
            segments_view(old(segments)@),
            text@,
            style,
        ));
    } else {
        segments.push(TextSegment { text: String::from_str(text), style });
        assert(segments_view(segments@) =~= push_seg(
            segments_view(old(segments)@),
            text@,
            style,
        ));
    }
}

/// Parse underscore-fenced markup into styled text segments.
///
/// The parser scans left to right. At each run of underscores it tries the
/// longest delimiter first (3 underscores, then 2, then 1) and searches for
/// the matching closing delimiter. If none is found before the end of the
/// string, the opening underscores are emitted as plain text.
pub fn parse_markup(input: &str) -> (segments: Vec<TextSegment>)
    ensures
        segments_view(segments@) == spec_parse_markup(input@),
{
    let chars = chars_of(input);
    let ghost s = input@;
    let len = chars.len();
    let mut segments: Vec<TextSegment> = Vec::new();
    let mut pos: usize = 0;
    let mut plain_start: usize = 0;
    assert(segments_view(segments@) =~= Seq::<SegmentView>::empty());
    while pos < len
        invariant
            chars@ == s,
            s == input@,
            len == s.len(),
            plain_start <= pos <= len,
            parse_from(s, pos as int, plain_start as int, segments_view(segments@))
                == spec_parse_markup(s),
        decreases len - pos,
    {
        if chars[pos] == '_' {
            let underscore_start = pos;
            let mut count: usize = 0;
            proof {
                lemma_run_end(s, pos as int);
            }
            while pos < len && chars[pos] == '_'
                invariant
                    chars@ == s,
                    len == s.len(),
                    underscore_start <= pos <= len,
                    count == pos - underscore_start,
                    run_end(s, pos as int) == run_end(s, underscore_start as int),
                decreases len - pos,
            {
                count = count + 1;
                pos = pos + 1;
            }
            proof {
                lemma_run_end(s, underscore_start as int);
            }
            let matched = try_match_delimiter(&chars, underscore_start, count, len);
            if let Some((style, inner_start, inner_end, after_close)) = matched {
                proof {
                    lemma_delim_match(s, pos as int, min3(count as int));
                }
                if underscore_start > plain_start {
                    push_segment(
                        &mut segments,
                        input.substring_char(plain_start, underscore_start),
                        TextStyle::Plain,
                    );
                }
                push_segment(&mut segments, input.substring_char(inner_start, inner_end), style);
                pos = after_close;
                plain_start = pos;
            }
        } else {
            pos = pos + 1;
        }
    }
    if plain_start < len {
        push_segment(&mut segments, input.substring_char(plain_start, len), TextStyle::Plain);
    }
    segments
}


/// No segment is empty and neighbouring segments differ in style.
pub open spec fn segments_well_formed(segs: Seq<SegmentView>) -> bool {
    &&& forall|i: int| 0 <= i < segs.len() ==> #[trigger] segs[i].0.len() > 0
    &&& forall|i: int| 0 < i < segs.len() ==> #[trigger] segs[i].1 != segs[i - 1].1
}

proof fn lemma_push_seg_well_formed(segs: Seq<SegmentView>, text: Seq<char>, style: TextStyle)
    requires
        segments_well_formed(segs),
    ensures
        segments_well_formed(push_seg(segs, text, style)),
{
    let r = push_seg(segs, text, style);
    if text.len() > 0 && segs.len() > 0 && segs.last().1 == style {
        assert forall|i: int| 0 < i < r.len() implies #[trigger] r[i].1 != r[i - 1].1 by {
            if i == r.len() - 1 {
                assert(r[i].1 == segs[i].1);
            } else {
                assert(r[i] == segs[i]);
            }
        }
    }
}

proof fn lemma_parse_from_well_formed(s: Seq<char>, pos: int, plain_start: int, segs: Seq<SegmentView>)
    requires
        segments_well_formed(segs),
    ensures
        segments_well_formed(parse_from(s, pos, plain_start, segs)),
    decreases s.len() - pos,
{
    if pos < 0 || pos >= s.len() {
        if 0 <= plain_start < s.len() {
            lemma_push_seg_well_formed(segs, s.subrange(plain_start, s.len() as int), TextStyle::Plain);
        }
    } else if s[pos] == '_' {
        let j = run_end(s, pos);
        lemma_run_end(s, pos);
        match delim_match(s, j, min3(j - pos)) {
            Some(m) => {
                lemma_delim_match(s, j, min3(j - pos));
                let segs1 = if pos > plain_start {
                    push_seg(segs, s.subrange(plain_start, pos), TextStyle::Plain)
                } else {
                    segs
                };
                if pos > plain_start {
                    lemma_push_seg_well_formed(segs, s.subrange(plain_start, pos), TextStyle::Plain);
                }
                lemma_push_seg_well_formed(segs1, s.subrange(m.1, m.2), m.0);
                lemma_parse_from_well_formed(s, m.3, m.3, push_seg(segs1, s.subrange(m.1, m.2), m.0));
            },
            None => {
                lemma_parse_from_well_formed(s, j, plain_start, segs);
            },
        }
    } else {
        lemma_parse_from_well_formed(s, pos + 1, plain_start, segs);
    }
}

/// Parsing never yields an empty segment, and two neighbouring segments
/// never share a style (equal styles are merged).
pub proof fn law_parse_markup_well_formed(s: Seq<char>)
    ensures
        segments_well_formed(spec_parse_markup(s)),
{
    lemma_parse_from_well_formed(s, 0, 0, Seq::empty());
}

proof fn lemma_parse_from_plain(s: Seq<char>, pos: int)
    requires
        0 <= pos <= s.len(),
        forall|k: int| 0 <= k < s.len() ==> s[k] != '_',
    ensures
        parse_from(s, pos, 0, Seq::empty()) == (if s.len() == 0 {
            Seq::<SegmentView>::empty()
        } else {
            seq![(s, TextStyle::Plain)]
        }),
    decreases s.len() - pos,
{
    if pos < s.len() {
        lemma_parse_from_plain(s, pos + 1);
    } else {
        assert(s.subrange(0, s.len() as int) =~= s);
    }
}

/// Text without underscores is returned unchanged as one plain segment
/// (and the empty text as no segment at all).
pub proof fn law_text_without_markup_is_plain(s: Seq<char>)
    requires
        forall|k: int| 0 <= k < s.len() ==> s[k] != '_',
    ensures
        spec_parse_markup(s) == (if s.len() == 0 {
            Seq::<SegmentView>::empty()
        } else {
            seq![(s, TextStyle::Plain)]
        }),
{
    lemma_parse_from_plain(s, 0);
}

/// `d` underscores.
pub open spec fn fence(d: nat) -> Seq<char> {
    Seq::new(d, |i: int| '_')
}

proof fn lemma_fence_run(t: Seq<char>, d: int, k: int)
    requires
        0 <= k <= d < t.len(),
        forall|i: int| 0 <= i < d ==> t[i] == '_',
        t[d] != '_',
    ensures
        run_end(t, k) == d,
    decreases d - k,
{
    if k < d {
        lemma_fence_run(t, d, k + 1);
    }
}

proof fn lemma_fence_close(t: Seq<char>, d: int, n: int, i: int)
    requires
        1 <= d,
        d <= i <= d + n,
        t.len() == 2 * d + n,
        forall|k: int| d <= k < d + n ==> t[k] != '_',
        forall|k: int| d + n <= k < 2 * d + n ==> t[k] == '_',
    ensures
        find_close(t, i, d) == Some(d + n),
    decreases d + n - i,
{
    if i < d + n {
        assert(!is_window(t, i, d)) by {
            assert(t[i] != '_');
        }
        lemma_fence_close(t, d, n, i + 1);
    } else {
        assert(is_window(t, i, d));
    }
}

/// Text without underscores fenced by one, two or three underscores on
/// each side becomes one italic, bold or bold-italic segment.
pub proof fn law_fenced_text_is_styled(s: Seq<char>, d: nat)
    requires
        s.len() > 0,
        forall|k: int| 0 <= k < s.len() ==> s[k] != '_',
        1 <= d <= 3,
    ensures
        spec_parse_markup(fence(d) + s + fence(d)) == seq![(s, style_for(d as int))],
{
    let t = fence(d) + s + fence(d);
    let n = s.len() as int;
    let di = d as int;
    assert(t.len() == 2 * di + n);
    assert forall|i: int| 0 <= i < di implies t[i] == '_' by {
        assert(t[i] == fence(d)[i]);
    }
    assert forall|k: int| di <= k < di + n implies t[k] != '_' by {
        assert(t[k] == s[k - di]);
    }
    assert forall|k: int| di + n <= k < 2 * di + n implies t[k] == '_' by {
        assert(t[k] == fence(d)[k - di - n]);
    }
    assert(t[di] == s[0]);
    lemma_fence_run(t, di, 0);
    assert(min3(di) == di);
    lemma_fence_close(t, di, n, di);
    assert(delim_match(t, di, di) == Some((style_for(di), di, di + n, di + n + di)));
    assert(t.subrange(di, di + n) =~= s);
    let segs = push_seg(Seq::<SegmentView>::empty(), s, style_for(di));
    assert(segs == seq![(s, style_for(di))]);
    assert(parse_from(t, 2 * di + n, 2 * di + n, segs) == segs);
}

/// The text without its underscores.
pub open spec fn without_marks(s: Seq<char>) -> Seq<char>
    decreases s.len(),
{
    if s.len() == 0 {
        s
    } else {
        without_marks(s.drop_last()) + if s.last() == '_' {
            Seq::<char>::empty()
        } else {
            seq![s.last()]
        }
    }
}

/// The texts of the segments, one after another.
pub open spec fn segment_text(segs: Seq<SegmentView>) -> Seq<char>
    decreases segs.len(),
{
    if segs.len() == 0 {
        Seq::empty()
    } else {
        segment_text(segs.drop_last()) + segs.last().0
    }
}

proof fn lemma_without_marks_concat(a: Seq<char>, b: Seq<char>)
    ensures
        without_marks(a + b) == without_marks(a) + without_marks(b),
    decreases b.len(),
{
    if b.len() == 0 {
        assert(a + b =~= a);
        assert(without_marks(a) + without_marks(b) =~= without_marks(a));
    } else {
        lemma_without_marks_concat(a, b.drop_last());
        assert((a + b).drop_last() =~= a + b.drop_last());
        assert((a + b).last() == b.last());
        let tail = if b.last() == '_' {
            Seq::<char>::empty()
        } else {
            seq![b.last()]
        };
        assert(without_marks(a) + without_marks(b.drop_last()) + tail =~= without_marks(a) + (without_marks(
            b.drop_last(),
        ) + tail));
    }
}

proof fn lemma_without_marks_underscores(s: Seq<char>)
    requires
        forall|k: int| 0 <= k < s.len() ==> s[k] == '_',
    ensures
        without_marks(s) == Seq::<char>::empty(),
    decreases s.len(),
{
    if s.len() > 0 {
        lemma_without_marks_underscores(s.drop_last());
        assert(without_marks(s) =~= Seq::<char>::empty());
    }
}

proof fn lemma_segment_text_push(segs: Seq<SegmentView>, text: Seq<char>, style: TextStyle)
    ensures
        segment_text(push_seg(segs, text, style)) == segment_text(segs) + text,
{
    if text.len() == 0 {
        assert(segment_text(segs) + text =~= segment_text(segs));
    } else if segs.len() > 0 && segs.last().1 == style {
        let u = segs.update(segs.len() - 1, (segs.last().0 + text, style));
        assert(u.drop_last() =~= segs.drop_last());
        assert(segment_text(u) =~= segment_text(segs) + text);
    } else {
        assert(segs.push((text, style)).drop_last() =~= segs);
    }
}

proof fn lemma_split3(s: Seq<char>, a: int, b: int, c: int)
    requires
        0 <= a <= b <= c <= s.len(),
    ensures
        without_marks(s.subrange(a, c)) == without_marks(s.subrange(a, b)) + without_marks(s.subrange(b, c)),
{
    assert(s.subrange(a, c) =~= s.subrange(a, b) + s.subrange(b, c));
    lemma_without_marks_concat(s.subrange(a, b), s.subrange(b, c));
}

proof fn lemma_parse_from_keeps_text(s: Seq<char>, pos: int, plain_start: int, segs: Seq<SegmentView>)
    requires
        0 <= plain_start <= pos <= s.len(),
    ensures
        without_marks(segment_text(parse_from(s, pos, plain_start, segs))) == without_marks(
            segment_text(segs),
        ) + without_marks(s.subrange(plain_start, s.len() as int)),
        segment_text(parse_from(s, pos, plain_start, segs)).len() <= segment_text(segs).len() + (s.len()
            - plain_start),
    decreases s.len() - pos,
{
    let len = s.len() as int;
    if pos >= len {
        if plain_start < len {
            lemma_segment_text_push(segs, s.subrange(plain_start, len), TextStyle::Plain);
            lemma_without_marks_concat(segment_text(segs), s.subrange(plain_start, len));
        } else {
            assert(s.subrange(plain_start, len) =~= Seq::<char>::empty());
            assert(without_marks(segment_text(segs)) + without_marks(Seq::<char>::empty()) =~= without_marks(
                segment_text(segs),
            ));
        }
    } else if s[pos] == '_' {
        let j = run_end(s, pos);
        lemma_run_end(s, pos);
        match delim_match(s, j, min3(j - pos)) {
            Some(m) => {
                lemma_delim_match(s, j, min3(j - pos));
                let segs1 = if pos > plain_start {
                    push_seg(segs, s.subrange(plain_start, pos), TextStyle::Plain)
                } else {
                    segs
                };
                let segs2 = push_seg(segs1, s.subrange(m.1, m.2), m.0);
                lemma_parse_from_keeps_text(s, m.3, m.3, segs2);
                lemma_segment_text_push(segs1, s.subrange(m.1, m.2), m.0);
                if pos > plain_start {
                    lemma_segment_text_push(segs, s.subrange(plain_start, pos), TextStyle::Plain);
                    lemma_without_marks_concat(segment_text(segs), s.subrange(plain_start, pos));
                } else {
                    assert(s.subrange(plain_start, pos) =~= Seq::<char>::empty());
                }
                lemma_without_marks_concat(segment_text(segs1), s.subrange(m.1, m.2));
                lemma_split3(s, plain_start, pos, len);
                lemma_split3(s, pos, j, len);
                lemma_split3(s, j, m.2, len);
                lemma_split3(s, m.2, m.3, len);
                lemma_without_marks_underscores(s.subrange(pos, j));
                lemma_without_marks_underscores(s.subrange(m.2, m.3));
                assert(without_marks(s.subrange(pos, j)) + without_marks(s.subrange(j, len)) =~= without_marks(
                    s.subrange(j, len),
                ));
                assert(without_marks(s.subrange(m.2, m.3)) + without_marks(s.subrange(m.3, len))
                    =~= without_marks(s.subrange(m.3, len)));
                let w0 = without_marks(segment_text(segs));
                let wa = without_marks(s.subrange(plain_start, pos));
                let wb = without_marks(s.subrange(m.1, m.2));
                let wc = without_marks(s.subrange(m.3, len));
                assert(w0 + wa + wb + wc =~= w0 + (wa + (wb + wc)));
            },
            None => {
                lemma_parse_from_keeps_text(s, j, plain_start, segs);
            },
        }
    } else {
        lemma_parse_from_keeps_text(s, pos + 1, plain_start, segs);
    }
}

/// `f` places the characters of `a`, in order, at positions of `b` that
/// hold them.
pub open spec fn embeds(a: Seq<char>, b: Seq<char>, f: spec_fn(int) -> int) -> bool {
    &&& forall|i: int| 0 <= i < a.len() ==> 0 <= #[trigger] f(i) < b.len() && b[f(i)] == a[i]
    &&& forall|i: int, j: int| 0 <= i < j < a.len() ==> #[trigger] f(i) < #[trigger] f(j)
}

/// `a` is `b` with some characters left out.
pub open spec fn is_subsequence(a: Seq<char>, b: Seq<char>) -> bool {
    exists|f: spec_fn(int) -> int| embeds(a, b, f)
}

proof fn lemma_subsequence_concat(a1: Seq<char>, b1: Seq<char>, a2: Seq<char>, b2: Seq<char>)
    requires
        is_subsequence(a1, b1),
        is_subsequence(a2, b2),
    ensures
        is_subsequence(a1 + a2, b1 + b2),
{
    let f1 = choose|f: spec_fn(int) -> int| embeds(a1, b1, f);
    let f2 = choose|f: spec_fn(int) -> int| embeds(a2, b2, f);
    let n1 = a1.len() as int;
    let m1 = b1.len() as int;
    let f = |i: int| if i < n1 { f1(i) } else { m1 + f2(i - n1) };
    let a = a1 + a2;
    let b = b1 + b2;
    assert forall|i: int| 0 <= i < a.len() implies 0 <= #[trigger] f(i) < b.len() && b[f(i)] == a[i] by {
        if i < n1 {
            assert(0 <= f1(i) < b1.len() && b1[f1(i)] == a1[i]);
        } else {
            assert(0 <= f2(i - n1) < b2.len() && b2[f2(i - n1)] == a2[i - n1]);
        }
    }
    assert forall|i: int, j: int| 0 <= i < j < a.len() implies #[trigger] f(i) < #[trigger] f(j) by {
        if j < n1 {
            assert(f1(i) < f1(j));
        } else if i < n1 {
            assert(0 <= f1(i) < b1.len());
            assert(0 <= f2(j - n1) < b2.len());
        } else {
            assert(f2(i - n1) < f2(j - n1));
        }
    }
    assert(embeds(a, b, f));
}

proof fn lemma_subsequence_part(s: Seq<char>, x: int, y: int, p: int, q: int)
    requires
        0 <= p <= x <= y <= q <= s.len(),
    ensures
        is_subsequence(s.subrange(x, y), s.subrange(p, q)),
{
    let f = |i: int| x - p + i;
    assert(embeds(s.subrange(x, y), s.subrange(p, q), f));
}

proof fn lemma_parse_from_subsequence(s: Seq<char>, pos: int, plain_start: int, segs: Seq<SegmentView>)
    requires
        0 <= plain_start <= pos <= s.len(),
        is_subsequence(segment_text(segs), s.subrange(0, plain_start)),
    ensures
        is_subsequence(segment_text(parse_from(s, pos, plain_start, segs)), s),
    decreases s.len() - pos,
{
    let len = s.len() as int;
    if pos >= len {
        lemma_subsequence_part(s, plain_start, len, plain_start, len);
        lemma_subsequence_concat(segment_text(segs), s.subrange(0, plain_start), s.subrange(plain_start, len), s.subrange(plain_start, len));
        assert(s.subrange(0, plain_start) + s.subrange(plain_start, len) =~= s);
        if plain_start < len {
            lemma_segment_text_push(segs, s.subrange(plain_start, len), TextStyle::Plain);
        } else {
            assert(segment_text(segs) + s.subrange(plain_start, len) =~= segment_text(segs));
        }
    } else if s[pos] == '_' {
        let j = run_end(s, pos);
        lemma_run_end(s, pos);
        match delim_match(s, j, min3(j - pos)) {
            Some(m) => {
                lemma_delim_match(s, j, min3(j - pos));
                let segs1 = if pos > plain_start {
                    push_seg(segs, s.subrange(plain_start, pos), TextStyle::Plain)
                } else {
                    segs
                };
                let segs2 = push_seg(segs1, s.subrange(m.1, m.2), m.0);
                lemma_segment_text_push(segs1, s.subrange(m.1, m.2), m.0);
                lemma_subsequence_part(s, plain_start, pos, plain_start, pos);
                lemma_subsequence_concat(segment_text(segs), s.subrange(0, plain_start), s.subrange(plain_start, pos), s.subrange(plain_start, pos));
                assert(s.subrange(0, plain_start) + s.subrange(plain_start, pos) =~= s.subrange(0, pos));
                if pos > plain_start {
                    lemma_segment_text_push(segs, s.subrange(plain_start, pos), TextStyle::Plain);
                } else {
                    assert(segment_text(segs) + s.subrange(plain_start, pos) =~= segment_text(segs));
                }
                assert(is_subsequence(segment_text(segs1), s.subrange(0, pos)));
                lemma_subsequence_part(s, m.1, m.2, pos, m.3);
                lemma_subsequence_concat(segment_text(segs1), s.subrange(0, pos), s.subrange(m.1, m.2), s.subrange(pos, m.3));
                assert(s.subrange(0, pos) + s.subrange(pos, m.3) =~= s.subrange(0, m.3));
                lemma_parse_from_subsequence(s, m.3, m.3, segs2);
            },
            None => {
                lemma_parse_from_subsequence(s, j, plain_start, segs);
            },
        }
    } else {
        lemma_parse_from_subsequence(s, pos + 1, plain_start, segs);
    }
}

/// Parsing drops only underscores, and only those used as delimiters: the
/// segment texts read one after another are the input with some of its
/// underscores left out, so they hold all of the input's other characters,
/// in order, and add nothing.
pub proof fn law_parse_markup_keeps_text(s: Seq<char>)
    ensures
        without_marks(segment_text(spec_parse_markup(s))) == without_marks(s),
        is_subsequence(segment_text(spec_parse_markup(s)), s),
        segment_text(spec_parse_markup(s)).len() <= s.len(),
{
    lemma_parse_from_keeps_text(s, 0, 0, Seq::empty());
    let f = |i: int| i;
    assert(embeds(Seq::<char>::empty(), s.subrange(0, 0), f));
    assert(segment_text(Seq::<SegmentView>::empty()) == Seq::<char>::empty());
    lemma_parse_from_subsequence(s, 0, 0, Seq::empty());
    assert(s.subrange(0, s.len() as int) =~= s);
    assert(Seq::<char>::empty() + without_marks(s) =~= without_marks(s));
}

} // verus!
