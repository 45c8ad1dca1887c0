//! White space, and what is left of a line once it is trimmed.

use vstd::prelude::*;

verus! {

/// The characters that Unicode counts as white space (`White_Space`): the
/// ones that `char::is_whitespace` accepts.
pub open spec fn white_space(c: char) -> bool {
    ||| '\u{9}' <= c <= '\u{D}'
    ||| c == ' '
    ||| c == '\u{85}'
    ||| c == '\u{A0}'
    ||| c == '\u{1680}'
    ||| '\u{2000}' <= c <= '\u{200A}'
    ||| c == '\u{2028}'
    ||| c == '\u{2029}'
    ||| c == '\u{202F}'
    ||| c == '\u{205F}'
    ||| c == '\u{3000}'
}

/// `s` without the white space it begins with.
pub open spec fn trim_start(s: Seq<char>) -> Seq<char>
    decreases s.len(),
{
    if s.len() > 0 && white_space(s.first()) {
        trim_start(s.drop_first())
    } else {
        s
    }
}

/// `s` without the white space it ends with.
pub open spec fn trim_end(s: Seq<char>) -> Seq<char>
    decreases s.len(),
{
    if s.len() > 0 && white_space(s.last()) {
        trim_end(s.drop_last())
    } else {
        s
    }
}

/// `s` without the white space around it.
pub open spec fn trim(s: Seq<char>) -> Seq<char> {
    trim_end(trim_start(s))
}

/// Whether every character of `s` is white space.
pub open spec fn blank(s: Seq<char>) -> bool {
    forall|i: int| 0 <= i < s.len() ==> white_space(#[trigger] s[i])
}

/// Tells white space from the other characters.
pub fn is_whitespace(c: char) -> (b: bool)
    ensures
        b == white_space(c),
{
    (c >= '\u{9}' && c <= '\u{D}') || c == ' ' || c == '\u{85}' || c == '\u{A0}' || c == '\u{1680}'
        || (c >= '\u{2000}' && c <= '\u{200A}') || c == '\u{2028}' || c == '\u{2029}'
        || c == '\u{202F}' || c == '\u{205F}' || c == '\u{3000}'
}

/// Where the trimmed text lies: `trim_start` cuts `s` down to its part from
/// `from` on, when `from` is the first place that holds no white space.
pub proof fn lemma_trim_start_at(s: Seq<char>, from: int)
    requires
        0 <= from <= s.len(),
        blank(s.subrange(0, from)),
        from < s.len() ==> !white_space(s[from]),
    ensures
        trim_start(s) == s.subrange(from, s.len() as int),
    decreases s.len(),
{
    if from > 0 {
        assert(s.subrange(0, from)[0] == s[0]);
        let rest = s.drop_first();
        assert(rest.subrange(0, from - 1) =~= s.subrange(0, from).drop_first());
        lemma_trim_start_at(rest, from - 1);
    }
}

/// `trim_end` cuts `s` down to its part before `to`, when the place before
/// `to` is the last that holds no white space.
pub proof fn lemma_trim_end_at(s: Seq<char>, to: int)
    requires
        0 <= to <= s.len(),
        blank(s.subrange(to, s.len() as int)),
        0 < to ==> !white_space(s[to - 1]),
    ensures
        trim_end(s) == s.subrange(0, to),
    decreases s.len(),
{
    if to < s.len() {
        assert(s.subrange(to, s.len() as int)[s.len() - to - 1] == s.last());
        let rest = s.drop_last();
        assert(rest.subrange(to, rest.len() as int) =~= s.subrange(to, s.len() as int).drop_last());
        lemma_trim_end_at(rest, to);
    }
}

/// A text that is all white space has nothing left once its beginning is
/// trimmed, and a text of which nothing is left then is all white space.
pub proof fn lemma_trim_start_of_blank(s: Seq<char>)
    ensures
        blank(s) <==> trim_start(s).len() == 0,
        blank(trim_start(s)) ==> blank(s),
    decreases s.len(),
{
    if s.len() > 0 && white_space(s.first()) {
        let rest = s.drop_first();
        lemma_trim_start_of_blank(rest);
        if blank(s) {
            assert forall|i: int| 0 <= i < rest.len() implies white_space(#[trigger] rest[i]) by {}
        }
        if blank(rest) {
            assert forall|i: int| 0 <= i < s.len() implies white_space(#[trigger] s[i]) by {
                if i > 0 {
                    assert(s[i] == rest[i - 1]);
                }
            }
        }
    }
}

/// A text of which nothing is left once its end is trimmed is all white
/// space.
pub proof fn lemma_trim_end_of_blank(s: Seq<char>)
    ensures
        blank(s) <==> trim_end(s).len() == 0,
    decreases s.len(),
{
    if s.len() > 0 && white_space(s.last()) {
        let rest = s.drop_last();
        lemma_trim_end_of_blank(rest);
        if blank(s) {
            assert forall|i: int| 0 <= i < rest.len() implies white_space(#[trigger] rest[i]) by {}
        }
        if blank(rest) {
            assert forall|i: int| 0 <= i < s.len() implies white_space(#[trigger] s[i]) by {
                if i < rest.len() {
                    assert(s[i] == rest[i]);
                }
            }
        }
    }
}

/// Trimming the beginning of two texts in a row trims the first, and goes on
/// into the second only where the first is all white space.
pub proof fn lemma_trim_start_append(x: Seq<char>, y: Seq<char>)
    ensures
        trim_start(x + y) == (if blank(x) {
            trim_start(y)
        } else {
            trim_start(x) + y
        }),
    decreases x.len(),
{
    if x.len() > 0 && white_space(x.first()) {
        let rest = x.drop_first();
        assert((x + y).drop_first() =~= rest + y);
        lemma_trim_start_append(rest, y);
        lemma_trim_start_of_blank(x);
        lemma_trim_start_of_blank(rest);
    }
}

/// White space after a text makes no difference to what trimming the end
/// leaves.
pub proof fn lemma_trim_end_append(x: Seq<char>, y: Seq<char>)
    requires
        blank(y),
    ensures
        trim_end(x + y) == trim_end(x),
    decreases y.len(),
{
    if y.len() > 0 {
        let rest = y.drop_last();
        assert((x + y).drop_last() =~= x + rest);
        assert forall|i: int| 0 <= i < rest.len() implies white_space(#[trigger] rest[i]) by {}
        lemma_trim_end_append(x, rest);
    }
}

/// White space around a text makes no difference to what trimming leaves of
/// it.
pub proof fn law_trim_ignores_padding(before: Seq<char>, text: Seq<char>, after: Seq<char>)
    requires
        blank(before),
        blank(after),
    ensures
        trim(before + text + after) == trim(text),
{
    assert(before + text + after =~= before + (text + after));
    lemma_trim_start_append(before, text + after);
    lemma_trim_start_append(text, after);
    if blank(text) {
        lemma_trim_start_of_blank(after);
        lemma_trim_start_of_blank(text);
    } else {
        lemma_trim_end_append(trim_start(text), after);
    }
}

/// Trimming leaves nothing of a text exactly when the text is all white
/// space.
pub proof fn law_trim_of_blank(s: Seq<char>)
    ensures
        blank(s) <==> trim(s).len() == 0,
{
    lemma_trim_start_of_blank(s);
    lemma_trim_end_of_blank(trim_start(s));
}

/// Copies the characters of a line into a vector.
pub fn chars_of(line: &str) -> (chars: Vec<char>)
    ensures
        chars@ == line@,
{
    let mut chars: Vec<char> = Vec::with_capacity(line.len());
    for c in it: line.chars()
        invariant
            it.seq() == line@,
            chars@ == line@.take(it.index()),
    {
        chars.push(c);
    }
    chars
}

/// Finds the trimmed part of a line: the places `from` and `to` between
/// which it lies.
pub fn trim_bounds(chars: &Vec<char>) -> (bounds: (usize, usize))
    ensures
        bounds.0 <= bounds.1 <= chars@.len(),
        chars@.subrange(bounds.0 as int, bounds.1 as int) == trim(chars@),
{
    let n = chars.len();
    let mut from: usize = 0;
    while from < n && is_whitespace(chars[from])
        invariant
            from <= n == chars@.len(),
            blank(chars@.subrange(0, from as int)),
        decreases n - from,
    {
        from = from + 1;
    }
    let mut to: usize = n;
    while to > from && is_whitespace(chars[to - 1])
        invariant
            from <= to <= n == chars@.len(),
            blank(chars@.subrange(to as int, n as int)),
        decreases to,
    {
        proof {
            let tail = chars@.subrange(to as int, n as int);
            let longer = chars@.subrange(to - 1, n as int);
            assert forall|i: int| 0 <= i < longer.len() implies white_space(#[trigger] longer[i]) by {
                if i > 0 {
                    assert(longer[i] == tail[i - 1]);
                }
            }
        }
        to = to - 1;
    }
    proof {
        let s = chars@;
        let t = s.subrange(from as int, n as int);
        lemma_trim_start_at(s, from as int);
        assert(t.subrange(to - from, t.len() as int) =~= s.subrange(to as int, n as int));
        lemma_trim_end_at(t, to - from);
    }
    (from, to)
}

} // verus!
