//! Character-level text helpers: Unicode white space, trimming and line
//! splitting, each stated over the text's sequence of characters.
use vstd::prelude::*;

verus! {

/// The Unicode `White_Space` property (PropList.txt), the definition of
/// white space that `char::is_whitespace` and `str::trim` use.
pub open spec fn is_white_space(c: char) -> bool {
    ||| ('\u{9}' <= c && c <= '\u{d}')
    ||| c == ' '
    ||| c == '\u{85}'
    ||| c == '\u{a0}'
    ||| c == '\u{1680}'
    ||| ('\u{2000}' <= c && c <= '\u{200a}')
    ||| c == '\u{2028}'
    ||| c == '\u{2029}'
    ||| c == '\u{202f}'
    ||| c == '\u{205f}'
    ||| c == '\u{3000}'
}

/// Whether `c` is Unicode white space.
pub fn char_is_white_space(c: char) -> (r: bool)
    ensures
        r == is_white_space(c),
{
    ('\u{9}' <= c && c <= '\u{d}') || c == ' ' || c == '\u{85}' || c == '\u{a0}' || c
        == '\u{1680}' || ('\u{2000}' <= c && c <= '\u{200a}') || c == '\u{2028}' || c
        == '\u{2029}' || c == '\u{202f}' || c == '\u{205f}' || c == '\u{3000}'
}

/// Every character of `s` is white space (true of the empty text).
pub open spec fn all_white_space(s: Seq<char>) -> bool {
    forall|k: int| 0 <= k < s.len() ==> is_white_space(#[trigger] s[k])
}

/// `s` without its leading and trailing white space.
pub open spec fn trimmed(s: Seq<char>) -> Seq<char>
    decreases s.len(),
{
    if s.len() == 0 {
        s
    } else if is_white_space(s[0]) {
        trimmed(s.drop_first())
    } else if is_white_space(s.last()) {
        trimmed(s.drop_last())
    } else {
        s
    }
}

/// A text that is nothing but white space trims to the empty text.
pub proof fn lemma_trimmed_all_white(s: Seq<char>)
    requires
        all_white_space(s),
    ensures
        trimmed(s) == Seq::<char>::empty(),
    decreases s.len(),
{
    if s.len() > 0 {
        assert(is_white_space(s[0]));
        let t = s.drop_first();
        assert forall|k: int| 0 <= k < t.len() implies is_white_space(#[trigger] t[k]) by {
            assert(t[k] == s[k + 1]);
        }
        lemma_trimmed_all_white(t);
    }
}

/// Where `s[i..j]` starts and ends with a visible character and everything
/// around it is white space, `s[i..j]` is the trimmed text.
pub proof fn lemma_trimmed_range(s: Seq<char>, i: int, j: int)
    requires
        0 <= i < j <= s.len(),
        forall|k: int| 0 <= k < i ==> is_white_space(#[trigger] s[k]),
        forall|k: int| j <= k < s.len() ==> is_white_space(#[trigger] s[k]),
        !is_white_space(s[i]),
        !is_white_space(s[j - 1]),
    ensures
        trimmed(s) == s.subrange(i, j),
    decreases s.len(),
{
    if i > 0 {
        let t = s.drop_first();
        assert forall|k: int| 0 <= k < i - 1 implies is_white_space(#[trigger] t[k]) by {
            assert(t[k] == s[k + 1]);
        }
        assert forall|k: int| j - 1 <= k < t.len() implies is_white_space(#[trigger] t[k]) by {
            assert(t[k] == s[k + 1]);
        }
        assert(is_white_space(s[0]));
        lemma_trimmed_range(t, i - 1, j - 1);
        assert(t.subrange(i - 1, j - 1) =~= s.subrange(i, j));
    } else if j < s.len() {
        let t = s.drop_last();
        assert(is_white_space(s[s.len() - 1]));
        assert forall|k: int| j <= k < t.len() implies is_white_space(#[trigger] t[k]) by {
            assert(t[k] == s[k]);
        }
        lemma_trimmed_range(t, i, j);
        assert(t.subrange(i, j) =~= s.subrange(i, j));
    } else {
        assert(s.subrange(0, s.len() as int) =~= s);
    }
}

/// `r` is the stretch `s[i..j]` of `s` that holds every visible character
/// of `s`: only white space lies outside it, and it starts and ends with a
/// visible character unless it is empty.
pub open spec fn is_visible_stretch(s: Seq<char>, r: Seq<char>, i: int, j: int) -> bool {
    &&& 0 <= i <= j <= s.len()
    &&& r == s.subrange(i, j)
    &&& forall|k: int| 0 <= k < i ==> is_white_space(#[trigger] s[k])
    &&& forall|k: int| j <= k < s.len() ==> is_white_space(#[trigger] s[k])
    &&& i < j ==> !is_white_space(s[i]) && !is_white_space(s[j - 1])
}

proof fn lemma_stretch_after_white(s: Seq<char>, r: Seq<char>, i: int, j: int)
    requires
        s.len() > 0,
        is_white_space(s[0]),
        is_visible_stretch(s.drop_first(), r, i, j),
    ensures
        is_visible_stretch(s, r, i + 1, j + 1),
{
    let t = s.drop_first();
    assert(t.subrange(i, j) =~= s.subrange(i + 1, j + 1));
    assert forall|k: int| 0 <= k < i + 1 implies is_white_space(#[trigger] s[k]) by {
        if k > 0 {
            assert(s[k] == t[k - 1]);
        }
    }
    assert forall|k: int| j + 1 <= k < s.len() implies is_white_space(#[trigger] s[k]) by {
        assert(s[k] == t[k - 1]);
    }
    if i < j {
        assert(s[i + 1] == t[i] && s[j] == t[j - 1]);
    }
}

proof fn lemma_stretch_before_white(s: Seq<char>, r: Seq<char>, i: int, j: int)
    requires
        s.len() > 0,
        is_white_space(s.last()),
        is_visible_stretch(s.drop_last(), r, i, j),
    ensures
        is_visible_stretch(s, r, i, j),
{
    let t = s.drop_last();
    assert(t.subrange(i, j) =~= s.subrange(i, j));
    assert forall|k: int| 0 <= k < i implies is_white_space(#[trigger] s[k]) by {
        assert(s[k] == t[k]);
    }
    assert forall|k: int| j <= k < s.len() implies is_white_space(#[trigger] s[k]) by {
        if k < s.len() - 1 {
            assert(s[k] == t[k]);
        }
    }
    if i < j {
        assert(s[i] == t[i] && s[j - 1] == t[j - 1]);
    }
}

/// The trimmed text is the stretch of the text that holds all its visible
/// characters.
pub proof fn lemma_trimmed_is_visible_stretch(s: Seq<char>)
    ensures
        exists|i: int, j: int| is_visible_stretch(s, trimmed(s), i, j),
    decreases s.len(),
{
    if s.len() == 0 {
        assert(s.subrange(0, 0) =~= s);
        assert(is_visible_stretch(s, trimmed(s), 0, 0));
    } else if is_white_space(s[0]) {
        let t = s.drop_first();
        lemma_trimmed_is_visible_stretch(t);
        let (i, j) = choose|i: int, j: int| is_visible_stretch(t, trimmed(t), i, j);
        lemma_stretch_after_white(s, trimmed(t), i, j);
        assert(trimmed(s) == trimmed(t));
        assert(is_visible_stretch(s, trimmed(s), i + 1, j + 1));
    } else if is_white_space(s.last()) {
        let t = s.drop_last();
        lemma_trimmed_is_visible_stretch(t);
        let (i, j) = choose|i: int, j: int| is_visible_stretch(t, trimmed(t), i, j);
        lemma_stretch_before_white(s, trimmed(t), i, j);
        assert(trimmed(s) == trimmed(t));
        assert(is_visible_stretch(s, trimmed(s), i, j));
    } else {
        assert(s.subrange(0, s.len() as int) =~= s);
        assert(is_visible_stretch(s, trimmed(s), 0, s.len() as int));
    }
}

/// Trimming twice is trimming once.
pub proof fn lemma_trimmed_idempotent(s: Seq<char>)
    ensures
        trimmed(trimmed(s)) == trimmed(s),
    decreases s.len(),
{
    if s.len() == 0 {
    } else if is_white_space(s[0]) {
        lemma_trimmed_idempotent(s.drop_first());
    } else if is_white_space(s.last()) {
        lemma_trimmed_idempotent(s.drop_last());
    } else {
    }
}

/// The characters of a text, in order.
pub(crate) fn chars_of(s: &str) -> (r: Vec<char>)
    ensures
        r@ == s@,
{
    let mut r: Vec<char> = Vec::new();
    for c in it: s.chars()
        invariant
            r@ == it.seq().take(it.index() as int),
    {
        r.push(c);
    }
    r
}

/// The text made of `cs[from..to]`.
#[verifier::external_body]
pub(crate) fn string_of_range(cs: &Vec<char>, from: usize, to: usize) -> (r: String)
    requires
        from <= to <= cs@.len(),
    ensures
        r@ == cs@.subrange(from as int, to as int),
{
    cs[from..to].iter().collect()
}

/// The text made of all of `cs`.
pub fn string_of(cs: &Vec<char>) -> (r: String)
    ensures
        r@ == cs@,
{
    let r = string_of_range(cs, 0, cs.len());
    assert(cs@.subrange(0, cs@.len() as int) =~= cs@);
    r
}

/// Position of the first visible character of `cs[..]`, or `cs.len()`.
fn leading_white_end(cs: &Vec<char>) -> (i: usize)
    ensures
        i <= cs@.len(),
        forall|k: int| 0 <= k < i ==> is_white_space(#[trigger] cs@[k]),
        i < cs@.len() ==> !is_white_space(cs@[i as int]),
{
    let n = cs.len();
    let mut i: usize = 0;
    while i < n
        invariant
            i <= n == cs@.len(),
            forall|k: int| 0 <= k < i ==> is_white_space(#[trigger] cs@[k]),
        decreases n - i,
    {
        if !char_is_white_space(cs[i]) {
            return i;
        }
        i = i + 1;
    }
    i
}

/// `s` with leading and trailing white space removed, as `str::trim` does.
pub fn trim(s: &str) -> (r: String)
    ensures
        r@ == trimmed(s@),
{
    let cs = chars_of(s);
    let n = cs.len();
    let i = leading_white_end(&cs);
    if i == n {
        proof {
            lemma_trimmed_all_white(s@);
        }
        return string_of_range(&cs, n, n);
    }
    let mut j: usize = n;
    while j > i && char_is_white_space(cs[j - 1])
        invariant
            i < n == cs@.len(),
            i < j <= n,
            !is_white_space(cs@[i as int]),
            forall|k: int| j <= k < n ==> is_white_space(#[trigger] cs@[k]),
        decreases j,
    {
        j = j - 1;
    }
    proof {
        lemma_trimmed_range(s@, i as int, j as int);
    }
    string_of_range(&cs, i, j)
}

/// Whether `s` holds nothing but white space.
pub fn is_blank(s: &str) -> (r: bool)
    ensures
        r == (trimmed(s@).len() == 0),
{
    let t = trim(s);
    t.as_str().is_empty()
}

/// Number of characters before the first line feed of `s`, or `s.len()`.
pub open spec fn newline_index(s: Seq<char>) -> nat
    decreases s.len(),
{
    if s.len() == 0 {
        0
    } else if s[0] == '\n' {
        0
    } else {
        1 + newline_index(s.drop_first())
    }
}

/// A line without the carriage return that ended it, if any.
pub open spec fn strip_cr(l: Seq<char>) -> Seq<char> {
    if l.len() > 0 && l.last() == '\r' {
        l.drop_last()
    } else {
        l
    }
}

/// The lines of `s` as `str::lines` gives them: split at `\n` or `\r\n`,
/// without the terminators, the final line ending being optional.
pub open spec fn lines_of(s: Seq<char>) -> Seq<Seq<char>>
    decreases s.len(),
{
    if s.len() == 0 {
        Seq::empty()
    } else {
        let k = newline_index(s);
        if k >= s.len() {
            seq![s]
        } else {
            seq![strip_cr(s.take(k as int))] + lines_of(s.skip(k as int + 1))
        }
    }
}

pub(crate) proof fn lemma_newline_index(s: Seq<char>, k: int)
    requires
        0 <= k <= s.len(),
        forall|i: int| 0 <= i < k ==> #[trigger] s[i] != '\n',
        k == s.len() || s[k] == '\n',
    ensures
        newline_index(s) == k,
    decreases k,
{
    if k > 0 {
        let t = s.drop_first();
        assert(s[0] != '\n');
        assert forall|i: int| 0 <= i < k - 1 implies #[trigger] t[i] != '\n' by {
            assert(t[i] == s[i + 1]);
        }
        lemma_newline_index(t, k - 1);
    }
}

/// Law: a text without a line feed is one line, the text itself (no line
/// for the empty text); a line feed ends the line before it, which loses a
/// carriage return just before the feed, and the lines after it follow.
pub proof fn law_lines_split_at_line_feeds(a: Seq<char>, b: Seq<char>)
    requires
        forall|k: int| 0 <= k < a.len() ==> #[trigger] a[k] != '\n',
    ensures
        a.len() > 0 ==> lines_of(a) == seq![a],
        a.len() == 0 ==> lines_of(a).len() == 0,
        lines_of(a + seq!['\n'] + b) == seq![strip_cr(a)] + lines_of(b),
{
    lemma_newline_index(a, a.len() as int);
    let s = a + seq!['\n'] + b;
    assert forall|k: int| 0 <= k < a.len() implies #[trigger] s[k] != '\n' by {
        assert(s[k] == a[k]);
    }
    assert(s[a.len() as int] == '\n');
    lemma_newline_index(s, a.len() as int);
    assert(s.take(a.len() as int) =~= a);
    assert(s.skip(a.len() as int + 1) =~= b);
}

/// The views of a sequence of character vectors.
pub open spec fn views_of(v: Seq<Vec<char>>) -> Seq<Seq<char>> {
    v.map_values(|l: Vec<char>| l@)
}

/// Copies `cs[from..to]`, dropping one final `\r` when `drop_cr` is set.
fn copy_line(cs: &Vec<char>, from: usize, to: usize, drop_cr: bool) -> (r: Vec<char>)
    requires
        from <= to <= cs@.len(),
    ensures
        drop_cr ==> r@ == strip_cr(cs@.subrange(from as int, to as int)),
        !drop_cr ==> r@ == cs@.subrange(from as int, to as int),
{
    let mut end = to;
    if drop_cr && to > from && cs[to - 1] == '\r' {
        end = to - 1;
    }
    let mut r: Vec<char> = Vec::new();
    let mut k = from;
    while k < end
        invariant
            from <= k <= end <= to <= cs@.len(),
            r@ == cs@.subrange(from as int, k as int),
        decreases end - k,
    {
        r.push(cs[k]);
        k = k + 1;
        assert(r@ =~= cs@.subrange(from as int, k as int));
    }
    assert(drop_cr ==> r@ =~= strip_cr(cs@.subrange(from as int, to as int)));
    assert(!drop_cr ==> r@ =~= cs@.subrange(from as int, to as int));
    r
}

/// The lines of `cs`, as `str::lines` splits them.
pub fn lines(cs: &Vec<char>) -> (r: Vec<Vec<char>>)
    ensures
        views_of(r@) == lines_of(cs@),
{
    let n = cs.len();
    let mut r: Vec<Vec<char>> = Vec::new();
    let mut start: usize = 0;
    assert(cs@.skip(0) =~= cs@);
    while start < n
        invariant
            n == cs@.len(),
            start <= n,
            views_of(r@) + lines_of(cs@.skip(start as int)) == lines_of(cs@),
        decreases n - start,
    {
        let mut k = start;
        while k < n && cs[k] != '\n'
            invariant
                start <= k <= n == cs@.len(),
                forall|i: int| start <= i < k ==> #[trigger] cs@[i] != '\n',
            decreases n - k,
        {
            k = k + 1;
        }
        let ghost rest = cs@.skip(start as int);
        proof {
            assert forall|i: int| 0 <= i < k - start implies #[trigger] rest[i] != '\n' by {
                assert(rest[i] == cs@[start + i]);
            }
            lemma_newline_index(rest, k - start);
            assert(rest.take(k - start) =~= cs@.subrange(start as int, k as int));
        }
        let line = copy_line(cs, start, k, k < n);
        let ghost before = r@;
        r.push(line);
        proof {
            assert(views_of(r@) =~= views_of(before).push(line@));
        }
        if k == n {
            proof {
                assert(rest =~= cs@.subrange(start as int, n as int));
                assert(lines_of(rest) == seq![rest]);
                assert(cs@.skip(n as int) =~= Seq::<char>::empty());
                assert(views_of(r@) + lines_of(cs@.skip(n as int)) =~= views_of(before) + lines_of(rest));
            }
            start = n;
        } else {
            proof {
                assert(rest.skip(k - start + 1) =~= cs@.skip(k + 1));
                assert(views_of(before) + lines_of(rest) == lines_of(cs@));
                assert(lines_of(rest) == seq![line@] + lines_of(cs@.skip(k + 1)));
                assert(views_of(r@) + lines_of(cs@.skip(k + 1)) =~= views_of(before) + (
                seq![line@] + lines_of(cs@.skip(k + 1))));
            }
            start = k + 1;
        }
    }
    assert(cs@.skip(n as int) =~= Seq::<char>::empty());
    assert(views_of(r@) + Seq::<Seq<char>>::empty() =~= views_of(r@));
    r
}


/// Whether two texts are the same sequence of characters.
pub fn text_eq(a: &str, b: &str) -> (r: bool)
    ensures
        r == (a@ == b@),
{
    let x = chars_of(a);
    let y = chars_of(b);
    if x.len() != y.len() {
        return false;
    }
    let n = x.len();
    let mut i: usize = 0;
    while i < n
        invariant
            n == x@.len() == y@.len(),
            x@ == a@,
            y@ == b@,
            i <= n,
            forall|k: int| 0 <= k < i ==> x@[k] == y@[k],
        decreases n - i,
    {
        if x[i] != y[i] {
            return false;
        }
        i = i + 1;
    }
    assert(x@ =~= y@);
    true
}

} // verus!
