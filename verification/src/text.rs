//! Character-level text model: whitespace, trimming, line splitting, prefixes
//! and substring search, with executable functions proved against it.

use vstd::prelude::*;

verus! {

// ---------------------------------------------------------------------------
// Specification
// ---------------------------------------------------------------------------

/// Unicode `White_Space` property (the definition `char::is_whitespace` and
/// `str::trim` use).
pub open spec fn is_whitespace(c: char) -> bool {
    let n = c as u32;
    ||| 0x09 <= n <= 0x0d
    ||| n == 0x20
    ||| n == 0x85
    ||| n == 0xa0
    ||| n == 0x1680
    ||| 0x2000 <= n <= 0x200a
    ||| n == 0x2028
    ||| n == 0x2029
    ||| n == 0x202f
    ||| n == 0x205f
    ||| n == 0x3000
}

/// Every character of `s` is whitespace (so `s` trims to the empty string).
pub open spec fn is_blank(s: Seq<char>) -> bool {
    forall|i: int| 0 <= i < s.len() ==> is_whitespace(#[trigger] s[i])
}

/// `s` with leading whitespace removed.
pub open spec fn trim_start(s: Seq<char>) -> Seq<char>
    decreases s.len(),
{
    if s.len() > 0 && is_whitespace(s[0]) {
        trim_start(s.drop_first())
    } else {
        s
    }
}

/// `s` with trailing whitespace removed.
pub open spec fn trim_end(s: Seq<char>) -> Seq<char>
    decreases s.len(),
{
    if s.len() > 0 && is_whitespace(s.last()) {
        trim_end(s.drop_last())
    } else {
        s
    }
}

/// `s` with leading and trailing whitespace removed (`str::trim`).
pub open spec fn trim(s: Seq<char>) -> Seq<char> {
    trim_end(trim_start(s))
}

/// `p` is a prefix of `s`.
pub open spec fn has_prefix(s: Seq<char>, p: Seq<char>) -> bool {
    p.len() <= s.len() && s.take(p.len() as int) == p
}

/// `n` occurs in `h` as a contiguous run of characters (`str::contains`).
pub open spec fn contains_text(h: Seq<char>, n: Seq<char>) -> bool {
    exists|i: int| 0 <= i <= h.len() - n.len() && #[trigger] h.subrange(i, i + n.len()) == n
}

/// Index of the first `'\n'` in `s`, or `s.len()` when there is none.
pub open spec fn first_newline(s: Seq<char>) -> int
    decreases s.len(),
{
    if s.len() == 0 {
        0
    } else if s[0] == '\n' {
        0
    } else {
        1 + first_newline(s.drop_first())
    }
}

/// A line taken from before a `'\n'` loses one trailing `'\r'`.
pub open spec fn strip_cr(l: Seq<char>) -> Seq<char> {
    if l.len() > 0 && l.last() == '\r' {
        l.drop_last()
    } else {
        l
    }
}

/// The lines of `s` as `str::lines` yields them: split at `'\n'` (a `"\r\n"`
/// ending counts as one terminator), with the final terminator optional.
pub open spec fn lines(s: Seq<char>) -> Seq<Seq<char>>
    decreases s.len(),
{
    if s.len() == 0 {
        Seq::empty()
    } else {
        let k = first_newline(s);
        proof {
            lemma_first_newline_bounds(s);
        }
        if k >= s.len() {
            seq![s]
        } else {
            seq![strip_cr(s.take(k))] + lines(s.skip(k + 1))
        }
    }
}

/// Every character of `s` is ASCII.
pub open spec fn is_ascii_text(s: Seq<char>) -> bool {
    forall|i: int| 0 <= i < s.len() ==> (#[trigger] s[i] as u32) < 128
}

/// `c` with an ASCII capital letter turned into the small one.
pub open spec fn ascii_lower_char(c: char) -> char {
    if 'A' <= c <= 'Z' {
        ((c as u32) + 32) as char
    } else {
        c
    }
}

/// `s` with every ASCII capital letter turned into the small one.
pub open spec fn ascii_lowercase(s: Seq<char>) -> Seq<char> {
    s.map_values(|c: char| ascii_lower_char(c))
}

/// Result of `str::to_lowercase` (Unicode lowercase mapping) on a string.
pub uninterp spec fn lowercase(s: Seq<char>) -> Seq<char>;

// ---------------------------------------------------------------------------
// Lemmas
// ---------------------------------------------------------------------------

pub proof fn lemma_first_newline_bounds(s: Seq<char>)
    ensures
        0 <= first_newline(s) <= s.len(),
        first_newline(s) < s.len() ==> s[first_newline(s)] == '\n',
        forall|i: int| 0 <= i < first_newline(s) ==> s[i] != '\n',
    decreases s.len(),
{
    if s.len() > 0 && s[0] != '\n' {
        lemma_first_newline_bounds(s.drop_first());
        assert forall|i: int| 0 <= i < first_newline(s) implies s[i] != '\n' by {
            if i > 0 {
                assert(s[i] == s.drop_first()[i - 1]);
            }
        }
    }
}

pub proof fn lemma_first_newline_is(s: Seq<char>, k: int)
    requires
        0 <= k <= s.len(),
        k < s.len() ==> s[k] == '\n',
        forall|i: int| 0 <= i < k ==> s[i] != '\n',
    ensures
        first_newline(s) == k,
    decreases k,
{
    if k > 0 {
        let t = s.drop_first();
        assert forall|i: int| 0 <= i < k - 1 implies t[i] != '\n' by {
            assert(t[i] == s[i + 1]);
        }
        lemma_first_newline_is(t, k - 1);
    }
}

proof fn lemma_trim_start_skip(s: Seq<char>, k: int)
    requires
        0 <= k <= s.len(),
        forall|i: int| 0 <= i < k ==> is_whitespace(#[trigger] s[i]),
    ensures
        trim_start(s) == trim_start(s.subrange(k, s.len() as int)),
    decreases k,
{
    if k == 0 {
        assert(s.subrange(0, s.len() as int) =~= s);
    } else {
        let t = s.drop_first();
        assert(is_whitespace(s[0]));
        assert forall|i: int| 0 <= i < k - 1 implies is_whitespace(#[trigger] t[i]) by {
            assert(t[i] == s[i + 1]);
        }
        lemma_trim_start_skip(t, k - 1);
        assert(t.subrange(k - 1, t.len() as int) =~= s.subrange(k, s.len() as int));
    }
}

proof fn lemma_trim_end_cut(s: Seq<char>, k: int)
    requires
        0 <= k <= s.len(),
        forall|i: int| k <= i < s.len() ==> is_whitespace(#[trigger] s[i]),
    ensures
        trim_end(s) == trim_end(s.subrange(0, k)),
    decreases s.len() - k,
{
    if k == s.len() {
        assert(s.subrange(0, k) =~= s);
    } else {
        let t = s.drop_last();
        assert(is_whitespace(s.last()));
        assert forall|i: int| k <= i < t.len() implies is_whitespace(#[trigger] t[i]) by {
            assert(t[i] == s[i]);
        }
        lemma_trim_end_cut(t, k);
        assert(t.subrange(0, k) =~= s.subrange(0, k));
    }
}

/// Trimming a blank string gives the empty string, and only then.
pub proof fn lemma_trim_empty_iff_blank(s: Seq<char>)
    ensures
        (trim(s).len() == 0) <==> is_blank(s),
{
    let n = s.len() as int;
    if is_blank(s) {
        lemma_trim_start_skip(s, n);
        assert(s.subrange(n, n).len() == 0);
    } else {
        let j = choose|j: int| 0 <= j < s.len() && !is_whitespace(#[trigger] s[j]);
        lemma_trim_start_nonblank(s, j);
    }
}

proof fn lemma_trim_start_nonblank(s: Seq<char>, j: int)
    requires
        0 <= j < s.len(),
        !is_whitespace(s[j]),
    ensures
        trim(s).len() > 0,
    decreases s.len(),
{
    if s.len() > 0 && is_whitespace(s[0]) {
        let t = s.drop_first();
        assert(j > 0);
        assert(t[j - 1] == s[j]);
        lemma_trim_start_nonblank(t, j - 1);
    } else {
        // trim_start(s) == s and s[0] is not whitespace; trimming the end keeps s[0].
        lemma_trim_end_keeps_first(s);
    }
}

proof fn lemma_trim_end_keeps_first(s: Seq<char>)
    requires
        s.len() > 0,
        !is_whitespace(s[0]),
    ensures
        trim_end(s).len() > 0,
    decreases s.len(),
{
    if is_whitespace(s.last()) {
        let t = s.drop_last();
        assert(t.len() > 0);
        assert(t[0] == s[0]);
        lemma_trim_end_keeps_first(t);
    }
}

proof fn lemma_trim_start_push_ws(x: Seq<char>, c: char)
    requires
        is_whitespace(c),
    ensures
        trim_start(x.push(c)) == (if trim_start(x).len() == 0 {
            Seq::<char>::empty()
        } else {
            trim_start(x).push(c)
        }),
    decreases x.len(),
{
    let y = x.push(c);
    assert(trim_start(Seq::<char>::empty()) =~= Seq::<char>::empty());
    if x.len() == 0 {
        assert(y[0] == c);
        assert(y.drop_first() =~= Seq::<char>::empty());
    } else if is_whitespace(x[0]) {
        assert(y[0] == x[0]);
        assert(y.drop_first() =~= x.drop_first().push(c));
        lemma_trim_start_push_ws(x.drop_first(), c);
    } else {
        assert(y[0] == x[0]);
    }
}

/// A trailing whitespace character does not change the trimmed text.
pub proof fn lemma_trim_push_ws(x: Seq<char>, c: char)
    requires
        is_whitespace(c),
    ensures
        trim(x.push(c)) == trim(x),
{
    lemma_trim_start_push_ws(x, c);
    let t = trim_start(x);
    if t.len() > 0 {
        assert(t.push(c).drop_last() =~= t);
    }
}

/// Dropping the `'\r'` of a `"\r\n"` ending does not change the trimmed line.
pub proof fn lemma_trim_strip_cr(l: Seq<char>)
    ensures
        trim(strip_cr(l)) == trim(l),
{
    if l.len() > 0 && l.last() == '\r' {
        assert(l.drop_last().push('\r') =~= l);
        lemma_trim_push_ws(l.drop_last(), '\r');
    }
}

/// Adding a final `'\n'` to a text adds an empty last line when the text
/// already ended with one, and otherwise only drops a `'\r'` from its last
/// line.
pub proof fn lemma_lines_push_newline(t: Seq<char>)
    ensures
        t.len() == 0 ==> lines(t.push('\n')) == seq![Seq::<char>::empty()],
        t.len() > 0 && first_newline(t) < t.len() ==> lines(t.push('\n')) == seq![
            strip_cr(t.take(first_newline(t))),
        ] + lines(t.skip(first_newline(t) + 1).push('\n')),
        t.len() > 0 && first_newline(t) >= t.len() ==> lines(t) == seq![t] && lines(t.push('\n'))
            == seq![strip_cr(t)],
{
    let u = t.push('\n');
    lemma_first_newline_bounds(t);
    let k = first_newline(t);
    if t.len() == 0 {
        lemma_first_newline_is(u, 0);
        assert(u.take(0) =~= Seq::<char>::empty());
        assert(u.skip(1) =~= Seq::<char>::empty());
        assert(lines(Seq::<char>::empty()) =~= Seq::<Seq<char>>::empty());
        assert(strip_cr(Seq::<char>::empty()) =~= Seq::<char>::empty());
        assert(lines(u) =~= seq![Seq::<char>::empty()]);
    } else if k < t.len() {
        assert forall|i: int| 0 <= i < k implies u[i] != '\n' by {
            assert(u[i] == t[i]);
        }
        lemma_first_newline_is(u, k);
        assert(u.take(k) =~= t.take(k));
        assert(u.skip(k + 1) =~= t.skip(k + 1).push('\n'));
    } else {
        assert forall|i: int| 0 <= i < t.len() implies u[i] != '\n' by {
            assert(u[i] == t[i]);
        }
        lemma_first_newline_is(u, t.len() as int);
        assert(u.take(t.len() as int) =~= t);
        assert(u.skip(t.len() as int + 1) =~= Seq::<char>::empty());
        assert(lines(Seq::<char>::empty()) =~= Seq::<Seq<char>>::empty());
        assert(lines(u) =~= seq![strip_cr(t)]);
    }
}

/// No line of `ls` holds a line break.
pub open spec fn no_breaks(ls: Seq<Seq<char>>) -> bool {
    forall|i: int, j: int| 0 <= i < ls.len() && 0 <= j < ls[i].len() ==> #[trigger] ls[i][j] != '\n'
}

/// The lines `str::lines` yields hold no line break.
pub proof fn lemma_lines_no_breaks(s: Seq<char>)
    ensures
        no_breaks(lines(s)),
    decreases s.len(),
{
    if s.len() > 0 {
        lemma_first_newline_bounds(s);
        let k = first_newline(s);
        if k < s.len() {
            let rest = s.skip(k + 1);
            lemma_lines_no_breaks(rest);
            let l = strip_cr(s.take(k));
            let ls = lines(s);
            assert(ls == seq![l] + lines(rest));
            assert forall|i: int, j: int| 0 <= i < ls.len() && 0 <= j < ls[i].len() implies #[trigger] ls[i][j] != '\n' by {
                if i == 0 {
                    assert(ls[0][j] == s[j]);
                } else {
                    assert(ls[i] == lines(rest)[i - 1]);
                }
            }
        }
    }
}

/// `s` is empty or ends with a line break: whatever follows starts a line.
pub open spec fn at_line_start(s: Seq<char>) -> bool {
    s.len() == 0 || s.last() == '\n'
}

/// The lines of a text that ends with a line break, followed by more text,
/// are the lines of the one followed by the lines of the other.
pub proof fn lemma_lines_append(a: Seq<char>, x: Seq<char>)
    requires
        at_line_start(a),
    ensures
        lines(a + x) == lines(a) + lines(x),
    decreases a.len(),
{
    if a.len() == 0 {
        assert(a + x =~= x);
        assert(lines(a) =~= Seq::<Seq<char>>::empty());
        assert(lines(a) + lines(x) =~= lines(x));
    } else {
        lemma_first_newline_bounds(a);
        let k = first_newline(a);
        if k >= a.len() {
            assert(a[a.len() - 1] == '\n');
            assert(false);
        }
        let u = a + x;
        assert forall|i: int| 0 <= i < k implies u[i] != '\n' by {
            assert(u[i] == a[i]);
        }
        assert(u[k] == a[k]);
        lemma_first_newline_is(u, k);
        assert(u.take(k) =~= a.take(k));
        let rest = a.skip(k + 1);
        assert(u.skip(k + 1) =~= rest + x);
        if rest.len() > 0 {
            assert(rest.last() == a.last());
        }
        lemma_lines_append(rest, x);
        assert(lines(u) =~= seq![strip_cr(a.take(k))] + (lines(rest) + lines(x)));
        assert(lines(a) =~= seq![strip_cr(a.take(k))] + lines(rest));
        assert(lines(u) =~= lines(a) + lines(x));
    }
}

/// A text that starts with a line and its break: that line, then the lines
/// of the rest.
pub proof fn lemma_lines_first_line(d: Seq<char>, b: Seq<char>)
    requires
        forall|i: int| 0 <= i < d.len() ==> d[i] != '\n',
    ensures
        lines(d + seq!['\n'] + b) == seq![strip_cr(d)] + lines(b),
{
    let u = d + seq!['\n'] + b;
    assert forall|i: int| 0 <= i < d.len() implies u[i] != '\n' by {
        assert(u[i] == d[i]);
    }
    assert(u[d.len() as int] == '\n');
    lemma_first_newline_is(u, d.len() as int);
    assert(u.take(d.len() as int) =~= d);
    assert(u.skip(d.len() as int + 1) =~= b);
}

// ---------------------------------------------------------------------------
// Executable functions
// ---------------------------------------------------------------------------

/// The characters of a string slice, in order.
pub fn chars_of(s: &str) -> (v: Vec<char>)
    ensures
        v@ == s@,
{
    let mut v: Vec<char> = Vec::new();
    for c in it: s.chars()
        invariant
            v@ == it.seq().take(it.index() as int),
    {
        v.push(c);
    }
    v
}

/// Whether `c` has the Unicode `White_Space` property (`char::is_whitespace`).
pub fn is_whitespace_char(c: char) -> (b: bool)
    ensures
        b == is_whitespace(c),
{
    let n = c as u32;
    (0x09 <= n && n <= 0x0d) || n == 0x20 || n == 0x85 || n == 0xa0 || n == 0x1680 || (0x2000
        <= n && n <= 0x200a) || n == 0x2028 || n == 0x2029 || n == 0x202f || n == 0x205f || n
        == 0x3000
}

/// Bounds of `trim(v[lo..hi])` inside `v`.
pub fn trim_range(v: &Vec<char>, lo: usize, hi: usize) -> (r: (usize, usize))
    requires
        lo <= hi <= v.len(),
    ensures
        lo <= r.0 <= r.1 <= hi,
        v@.subrange(r.0 as int, r.1 as int) == trim(v@.subrange(lo as int, hi as int)),
{
    let ghost s = v@.subrange(lo as int, hi as int);
    let mut a = lo;
    while a < hi && is_whitespace_char(v[a])
        invariant
            lo <= a <= hi <= v.len(),
            s == v@.subrange(lo as int, hi as int),
            forall|i: int| lo <= i < a ==> is_whitespace(#[trigger] v@[i]),
        decreases hi - a,
    {
        a = a + 1;
    }
    proof {
        assert forall|i: int| 0 <= i < a - lo implies is_whitespace(#[trigger] s[i]) by {
            assert(s[i] == v@[lo + i]);
        }
        lemma_trim_start_skip(s, a - lo);
        let t = s.subrange(a - lo, s.len() as int);
        assert(t =~= v@.subrange(a as int, hi as int));
        if a < hi {
            assert(t[0] == v@[a as int]);
        }
        assert(trim_start(t) == t);
    }
    let mut b = hi;
    while b > a && is_whitespace_char(v[b - 1])
        invariant
            lo <= a <= b <= hi <= v.len(),
            forall|i: int| b <= i < hi ==> is_whitespace(#[trigger] v@[i]),
        decreases b - a,
    {
        b = b - 1;
    }
    proof {
        let t = v@.subrange(a as int, hi as int);
        assert forall|i: int| b - a <= i < t.len() implies is_whitespace(#[trigger] t[i]) by {
            assert(t[i] == v@[a + i]);
        }
        lemma_trim_end_cut(t, b - a);
        let u = t.subrange(0, b - a);
        assert(u =~= v@.subrange(a as int, b as int));
        if b > a {
            assert(u.last() == v@[b - 1]);
        }
        assert(trim_end(u) == u);
    }
    (a, b)
}

/// Whether two string slices hold the same characters (`==` on `str`).
pub fn str_eq(a: &str, b: &str) -> (r: bool)
    ensures
        r == (a@ == b@),
{
    let x = chars_of(a);
    let y = chars_of(b);
    if x.len() != y.len() {
        return false;
    }
    let mut i: usize = 0;
    while i < x.len()
        invariant
            x@ == a@,
            y@ == b@,
            x.len() == y.len(),
            i <= x.len(),
            forall|j: int| 0 <= j < i ==> x@[j] == y@[j],
        decreases x.len() - i,
    {
        if x[i] != y[i] {
            return false;
        }
        i = i + 1;
    }
    assert(x@ =~= y@);
    true
}

/// Whether every character of `s` is whitespace (`s.trim().is_empty()`).
pub fn is_blank_str(s: &str) -> (b: bool)
    ensures
        b == is_blank(s@),
        b == (trim(s@).len() == 0),
{
    proof {
        lemma_trim_empty_iff_blank(s@);
    }
    let v = chars_of(s);
    let mut i: usize = 0;
    while i < v.len()
        invariant
            v@ == s@,
            i <= v.len(),
            forall|j: int| 0 <= j < i ==> is_whitespace(#[trigger] v@[j]),
        decreases v.len() - i,
    {
        if !is_whitespace_char(v[i]) {
            assert(!is_whitespace(s@[i as int]));
            assert(!is_blank(s@));
            proof {
                lemma_trim_empty_iff_blank(s@);
            }
            return false;
        }
        i = i + 1;
    }
    true
}

/// `s.trim()` as an owned string.
pub fn trimmed(s: &str) -> (r: String)
    ensures
        r@ == trim(s@),
{
    let v = chars_of(s);
    let (a, b) = trim_range(&v, 0, v.len());
    proof {
        assert(v@.subrange(0, v@.len() as int) =~= v@);
    }
    String::from_str(s.substring_char(a, b))
}

/// Calls `str::to_lowercase`. The contract claims that the result is a
/// function of the argument's characters, named `lowercase`, and that on
/// ASCII text it maps `A`..`Z` to `a`..`z` and keeps every other character.
/// The Unicode lowercase mapping beyond ASCII is not written out here.
#[verifier::external_body]
pub(crate) fn to_lowercase(s: &str) -> (r: String)
    ensures
        r@ == lowercase(s@),
        is_ascii_text(s@) ==> r@ == ascii_lowercase(s@),
{
    s.to_lowercase()
}

/// Whether `v[lo..hi]` starts with `p`.
pub fn range_has_prefix(v: &Vec<char>, lo: usize, hi: usize, p: &Vec<char>) -> (b: bool)
    requires
        lo <= hi <= v.len(),
    ensures
        b == has_prefix(v@.subrange(lo as int, hi as int), p@),
{
    let ghost s = v@.subrange(lo as int, hi as int);
    if p.len() > hi - lo {
        return false;
    }
    let mut i: usize = 0;
    while i < p.len()
        invariant
            lo <= hi <= v.len(),
            p.len() <= hi - lo,
            s == v@.subrange(lo as int, hi as int),
            i <= p.len(),
            forall|j: int| 0 <= j < i ==> v@[lo + j] == p@[j],
        decreases p.len() - i,
    {
        if v[lo + i] != p[i] {
            assert(s.take(p.len() as int)[i as int] != p@[i as int]);
            return false;
        }
        i = i + 1;
    }
    assert(s.take(p.len() as int) =~= p@);
    true
}

/// Whether `n` occurs in `h` as a contiguous run of characters.
pub fn contains_chars(h: &Vec<char>, n: &Vec<char>) -> (b: bool)
    ensures
        b == contains_text(h@, n@),
{
    if n.len() > h.len() {
        return false;
    }
    if n.len() == 0 {
        assert(h@.subrange(0, 0 + n.len()) =~= n@);
        return true;
    }
    let last = h.len() - n.len();
    let mut i: usize = 0;
    while i <= last
        invariant
            last == h.len() - n.len(),
            0 < n.len() <= h.len(),
            i <= last + 1,
            forall|k: int| 0 <= k < i ==> #[trigger] h@.subrange(k, k + n.len()) != n@,
        decreases last + 1 - i,
    {
        let mut j: usize = 0;
        let mut matched = true;
        while j < n.len()
            invariant
                i <= last,
                last == h.len() - n.len(),
                j <= n.len(),
                matched ==> forall|m: int| 0 <= m < j ==> h@[i + m] == n@[m],
                !matched ==> h@.subrange(i as int, i + n.len()) != n@,
            decreases n.len() - j,
        {
            if h[i + j] != n[j] {
                assert(h@.subrange(i as int, i + n.len())[j as int] != n@[j as int]);
                matched = false;
            }
            j = j + 1;
        }
        if matched {
            assert(h@.subrange(i as int, i + n.len()) =~= n@);
            return true;
        }
        i = i + 1;
    }
    assert forall|k: int| 0 <= k <= h@.len() - n@.len() implies #[trigger] h@.subrange(
        k,
        k + n.len(),
    ) != n@ by {}
    false
}

/// Whether the string literal `needle` occurs in `h`.
pub fn contains_str(h: &Vec<char>, needle: &str) -> (b: bool)
    ensures
        b == contains_text(h@, needle@),
{
    let n = chars_of(needle);
    contains_chars(h, &n)
}

/// Index just past the line content that starts at `start`: the position of
/// the next `'\n'`, or `v.len()`.
pub fn next_newline(v: &Vec<char>, start: usize) -> (e: usize)
    requires
        start <= v.len(),
    ensures
        start <= e <= v.len(),
        e - start == first_newline(v@.subrange(start as int, v.len() as int)),
{
    let mut e = start;
    while e < v.len() && v[e] != '\n'
        invariant
            start <= e <= v.len(),
            forall|i: int| start <= i < e ==> v@[i] != '\n',
        decreases v.len() - e,
    {
        e = e + 1;
    }
    proof {
        let s = v@.subrange(start as int, v.len() as int);
        assert forall|i: int| 0 <= i < e - start implies s[i] != '\n' by {
            assert(s[i] == v@[start + i]);
        }
        lemma_first_newline_is(s, e - start);
    }
    e
}

/// Splitting off the first line: relates `lines` of a suffix of `v` to the
/// line that starts there and the lines of what follows it.
pub proof fn lemma_lines_unfold(v: Seq<char>, start: int, e: int)
    requires
        0 <= start < v.len(),
        start <= e <= v.len(),
        e - start == first_newline(v.subrange(start, v.len() as int)),
    ensures
        e < v.len() ==> lines(v.subrange(start, v.len() as int)) == seq![
            strip_cr(v.subrange(start, e)),
        ] + lines(v.subrange(e + 1, v.len() as int)),
        e == v.len() ==> lines(v.subrange(start, v.len() as int)) == seq![
            v.subrange(start, e),
        ],
{
    let s = v.subrange(start, v.len() as int);
    let k = e - start;
    if e < v.len() {
        assert(s.take(k) =~= v.subrange(start, e));
        assert(s.skip(k + 1) =~= v.subrange(e + 1, v.len() as int));
    }
}

} // verus!
