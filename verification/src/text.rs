//! Verified text primitives: whitespace trimming, newline search, line
//! splitting, equality (exact and ASCII-case-insensitive), and simple
//! string building. Every executable function is specified against a
//! spec-level counterpart over `Seq<char>`.

use vstd::prelude::*;

verus! {

/// The whitespace characters recognised when trimming and when testing a
/// line for blankness: space, tab, line feed and carriage return.
pub open spec fn is_space(c: char) -> bool {
    c == ' ' || c == '\t' || c == '\n' || c == '\r'
}

/// Executable counterpart of [`is_space`].
pub fn is_space_char(c: char) -> (r: bool)
    ensures
        r == is_space(c),
{
    c == ' ' || c == '\t' || c == '\n' || c == '\r'
}

/// A sequence of characters with leading and trailing whitespace removed.
pub open spec fn trim_seq(s: Seq<char>) -> Seq<char>
    decreases s.len(),
{
    if s.len() == 0 {
        s
    } else if is_space(s[0]) {
        trim_seq(s.drop_first())
    } else if is_space(s.last()) {
        trim_seq(s.drop_last())
    } else {
        s
    }
}

/// A line is blank when trimming leaves nothing.
pub open spec fn is_blank(s: Seq<char>) -> bool {
    trim_seq(s).len() == 0
}

/// Trimming never grows the sequence, and the result of trimming a
/// non-empty sequence starts and ends with non-whitespace.
proof fn lemma_trim_seq_shape(s: Seq<char>)
    ensures
        trim_seq(s).len() <= s.len(),
        trim_seq(s).len() > 0 ==> !is_space(trim_seq(s)[0]) && !is_space(trim_seq(s).last()),
    decreases s.len(),
{
    if s.len() == 0 {
    } else if is_space(s[0]) {
        lemma_trim_seq_shape(s.drop_first());
    } else if is_space(s.last()) {
        lemma_trim_seq_shape(s.drop_last());
    }
}

/// Trimming a subrange `[a, b)` of `s` whose outside is all whitespace
/// gives the same result as trimming `s` itself.
proof fn lemma_trim_seq_subrange(s: Seq<char>, a: int, b: int)
    requires
        0 <= a <= b <= s.len(),
        forall|i: int| 0 <= i < a ==> is_space(s[i]),
        forall|i: int| b <= i < s.len() ==> is_space(s[i]),
    ensures
        trim_seq(s) == trim_seq(s.subrange(a, b)),
    decreases s.len(),
{
    if a == 0 && b == s.len() {
        assert(s.subrange(a, b) =~= s);
    } else if is_space(s[0]) {
        assert(s.drop_first() =~= s.subrange(1, s.len() as int));
        if a > 0 {
            assert(s.subrange(a, b) =~= s.drop_first().subrange(a - 1, b - 1));
            lemma_trim_seq_subrange(s.drop_first(), a - 1, b - 1);
        } else if b == 0 {
            assert(is_space(s[0]));
            lemma_trim_seq_subrange(s.drop_first(), 0, 0);
            assert(s.subrange(0, 0) =~= s.drop_first().subrange(0, 0));
        } else {
            let t = s.subrange(a, b);
            assert(is_space(t[0]));
            assert(t.drop_first() =~= s.drop_first().subrange(0, b - 1));
            lemma_trim_seq_subrange(s.drop_first(), 0, b - 1);
        }
    } else {
        // The prefix `[0, a)` is all whitespace, so `a == 0` here.
        assert(a == 0);
        assert(b < s.len());
        assert(is_space(s.last()));
        assert(s.drop_last() =~= s.subrange(0, s.len() - 1));
        assert(s.subrange(a, b) =~= s.drop_last().subrange(a, b));
        lemma_trim_seq_subrange(s.drop_last(), a, b);
    }
}

/// Returns the borrowed slice of `s` with leading and trailing whitespace
/// removed.
pub fn trim_str(s: &str) -> (r: &str)
    ensures
        r@ == trim_seq(s@),
{
    let n = s.unicode_len();
    let mut a: usize = 0;
    while a < n && is_space_char(s.get_char(a))
        invariant
            n == s@.len(),
            a <= n,
            forall|i: int| 0 <= i < a ==> is_space(s@[i]),
        decreases n - a,
    {
        a = a + 1;
    }
    if a == n {
        proof {
            lemma_trim_seq_subrange(s@, n as int, n as int);
            assert(s@.subrange(n as int, n as int) =~= Seq::<char>::empty());
            assert(trim_seq(Seq::<char>::empty()) =~= Seq::<char>::empty());
        }
        let r = s.substring_char(n, n);
        proof {
            assert(r@ =~= trim_seq(s@));
        }
        return r;
    }
    let mut b: usize = n;
    while b > a && is_space_char(s.get_char(b - 1))
        invariant
            n == s@.len(),
            a < n,
            a <= b <= n,
            forall|i: int| b <= i < n ==> is_space(s@[i]),
        decreases b,
    {
        b = b - 1;
    }
    assert(!is_space(s@[a as int]));
    assert(b > a);
    let r = s.substring_char(a, b);
    proof {
        lemma_trim_seq_subrange(s@, a as int, b as int);
        let t = s@.subrange(a as int, b as int);
        assert(!is_space(t[0]));
        assert(t.last() == s@[b - 1]);
        assert(!is_space(t.last()));
        assert(trim_seq(t) == t);
    }
    r
}

/// True when some character of `s` is a line feed.
pub open spec fn has_newline(s: Seq<char>) -> bool {
    exists|i: int| 0 <= i < s.len() && s[i] == '\n'
}

/// Executable counterpart of [`has_newline`].
pub fn contains_newline(s: &str) -> (r: bool)
    ensures
        r == has_newline(s@),
{
    let n = s.unicode_len();
    let mut i: usize = 0;
    while i < n
        invariant
            n == s@.len(),
            i <= n,
            forall|j: int| 0 <= j < i ==> s@[j] != '\n',
        decreases n - i,
    {
        if s.get_char(i) == '\n' {
            return true;
        }
        i = i + 1;
    }
    false
}

/// The views of a sequence of owned strings.
pub open spec fn views(ss: Seq<String>) -> Seq<Seq<char>> {
    ss.map_values(|s: String| s@)
}

/// A line with a final carriage return removed, as when splitting on
/// `\r\n` line endings.
pub open spec fn strip_cr(l: Seq<char>) -> Seq<char> {
    if l.len() > 0 && l.last() == '\r' {
        l.drop_last()
    } else {
        l
    }
}

/// The lines of `s`, split at line feeds, with a carriage return before a
/// line feed removed; a final line ending does not open a further empty
/// line. `cur` is the text read so far on the current line.
pub open spec fn split_lines_from(s: Seq<char>, cur: Seq<char>) -> Seq<Seq<char>>
    decreases s.len(),
{
    if s.len() == 0 {
        if cur.len() == 0 {
            Seq::empty()
        } else {
            seq![strip_cr(cur)]
        }
    } else if s[0] == '\n' {
        seq![strip_cr(cur)] + split_lines_from(s.drop_first(), Seq::empty())
    } else {
        split_lines_from(s.drop_first(), cur.push(s[0]))
    }
}

/// The lines of `s`; see [`split_lines_from`].
pub open spec fn split_lines(s: Seq<char>) -> Seq<Seq<char>> {
    split_lines_from(s, Seq::empty())
}

/// Reading a newline-free segment `[i, j)` extends the current line; a
/// line feed at `j` closes it.
proof fn lemma_split_segment(s: Seq<char>, i: int, j: int, cur: Seq<char>)
    requires
        0 <= i <= j <= s.len(),
        forall|k: int| i <= k < j ==> s[k] != '\n',
    ensures
        j < s.len() && s[j] == '\n' ==> split_lines_from(s.skip(i), cur) == seq![
            strip_cr(cur + s.subrange(i, j)),
        ] + split_lines_from(s.skip(j + 1), Seq::empty()),
        j == s.len() ==> split_lines_from(s.skip(i), cur) == (if (cur + s.subrange(i, j)).len()
            == 0 {
            Seq::<Seq<char>>::empty()
        } else {
            seq![strip_cr(cur + s.subrange(i, j))]
        }),
    decreases j - i,
{
    if i == j {
        assert(cur + s.subrange(i, j) =~= cur);
        if j < s.len() && s[j] == '\n' {
            assert(s.skip(i)[0] == '\n');
            assert(s.skip(i).drop_first() =~= s.skip(j + 1));
        } else if j == s.len() {
            assert(s.skip(i) =~= Seq::<char>::empty());
        }
    } else {
        assert(s.skip(i)[0] == s[i]);
        assert(s[i] != '\n');
        assert(s.skip(i).drop_first() =~= s.skip(i + 1));
        lemma_split_segment(s, i + 1, j, cur.push(s[i]));
        assert(cur.push(s[i]) + s.subrange(i + 1, j) =~= cur + s.subrange(i, j));
    }
}

/// Splits `s` into its lines, as [`split_lines`] describes.
pub fn split_lines_str(s: &str) -> (r: Vec<String>)
    ensures
        views(r@) == split_lines(s@),
{
    let n = s.unicode_len();
    let mut acc: Vec<String> = Vec::new();
    let mut i: usize = 0;
    proof {
        assert(s@.skip(0) =~= s@);
        assert(views(acc@) + split_lines(s@) =~= split_lines(s@));
    }
    while i < n
        invariant
            n == s@.len(),
            i <= n,
            split_lines(s@) == views(acc@) + split_lines_from(s@.skip(i as int), Seq::empty()),
        decreases n - i,
    {
        let mut j: usize = i;
        while j < n && s.get_char(j) != '\n'
            invariant
                n == s@.len(),
                i <= j <= n,
                forall|k: int| i <= k < j ==> s@[k] != '\n',
            decreases n - j,
        {
            j = j + 1;
        }
        let end: usize = if j > i && s.get_char(j - 1) == '\r' {
            j - 1
        } else {
            j
        };
        let line = s.substring_char(i, end);
        proof {
            lemma_split_segment(s@, i as int, j as int, Seq::empty());
            let seg = s@.subrange(i as int, j as int);
            assert(Seq::empty() + seg =~= seg);
            if j > i && s@[j - 1] == '\r' {
                assert(seg.last() == s@[j - 1]);
                assert(seg.drop_last() =~= s@.subrange(i as int, end as int));
            }
            assert(line@ == strip_cr(seg));
        }
        let ghost old_acc = acc@;
        acc.push(line.to_owned());
        proof {
            assert(views(acc@) =~= views(old_acc).push(line@));
        }
        if j < n {
            i = j + 1;
        } else {
            i = j;
            proof {
                assert(s@.skip(i as int) =~= Seq::<char>::empty());
            }
        }
        proof {
            assert(split_lines(s@) == views(acc@) + split_lines_from(
                s@.skip(i as int),
                Seq::empty(),
            ));
        }
    }
    proof {
        assert(s@.skip(i as int) =~= Seq::<char>::empty());
        assert(views(acc@) + split_lines_from(s@.skip(i as int), Seq::empty()) =~= views(acc@));
    }
    acc
}

/// The code point of `c` with an ASCII capital letter folded to its small
/// letter.
pub open spec fn fold_char(c: char) -> int {
    if 65 <= c as u32 && c as u32 <= 90 {
        c as u32 + 32
    } else {
        (c as u32) as int
    }
}

/// Equality of two character sequences up to ASCII case.
pub open spec fn eq_fold(a: Seq<char>, b: Seq<char>) -> bool {
    a.len() == b.len() && forall|i: int| 0 <= i < a.len() ==> fold_char(a[i]) == fold_char(b[i])
}

/// Compares two string slices for equality up to ASCII case.
pub fn str_eq_fold(a: &str, b: &str) -> (r: bool)
    ensures
        r == eq_fold(a@, b@),
{
    let na = a.unicode_len();
    let nb = b.unicode_len();
    if na != nb {
        return false;
    }
    let mut i: usize = 0;
    while i < na
        invariant
            na == a@.len(),
            na == b@.len(),
            i <= na,
            forall|j: int| 0 <= j < i ==> fold_char(a@[j]) == fold_char(b@[j]),
        decreases na - i,
    {
        let ca = a.get_char(i) as u32;
        let cb = b.get_char(i) as u32;
        let fa = if 65 <= ca && ca <= 90 {
            ca + 32
        } else {
            ca
        };
        let fb = if 65 <= cb && cb <= 90 {
            cb + 32
        } else {
            cb
        };
        if fa != fb {
            return false;
        }
        i = i + 1;
    }
    true
}

/// A row of `length` underscores, the text of the separator bar.
pub fn underscores(length: usize) -> (r: String)
    ensures
        r@ == Seq::new(length as nat, |i: int| '_'),
{
    let mut r = String::new();
    let mut i: usize = 0;
    while i < length
        invariant
            i <= length,
            r@ =~= Seq::new(i as nat, |k: int| '_'),
        decreases length - i,
    {
        proof {
            reveal_strlit("_");
        }
        r.append("_");
        i = i + 1;
        proof {
            assert(r@ =~= Seq::new(i as nat, |k: int| '_'));
        }
    }
    r
}

/// A copy of a vector of strings, equal entry for entry.
pub fn clone_strings(v: &Vec<String>) -> (r: Vec<String>)
    ensures
        r@ == v@,
{
    let mut r: Vec<String> = Vec::new();
    let mut i: usize = 0;
    while i < v.len()
        invariant
            i <= v@.len(),
            r@ == v@.take(i as int),
        decreases v@.len() - i,
    {
        let ghost r0 = r@;
        r.push(v[i].clone());
        proof {
            assert(v@.take(i + 1) =~= r0.push(v@[i as int]));
        }
        i = i + 1;
    }
    proof {
        assert(v@.take(v@.len() as int) =~= v@);
    }
    r
}

/// Character-for-character equality of two string slices.
pub fn str_eq(a: &str, b: &str) -> (r: bool)
    ensures
        r == (a@ == b@),
{
    let na = a.unicode_len();
    let nb = b.unicode_len();
    if na != nb {
        return false;
    }
    let mut i: usize = 0;
    while i < na
        invariant
            na == a@.len(),
            na == b@.len(),
            i <= na,
            forall|j: int| 0 <= j < i ==> a@[j] == b@[j],
        decreases na - i,
    {
        if a.get_char(i) != b.get_char(i) {
            return false;
        }
        i = i + 1;
    }
    proof {
        assert(a@ =~= b@);
    }
    true
}

} // verus!
