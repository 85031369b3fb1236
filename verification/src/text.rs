//! Character-level text helpers shared by the library's parsers.
//!
//! Text is handled as sequences of Unicode scalar values (`char`), which is
//! also how `str` is viewed in specifications.

use vstd::prelude::*;
use vstd::string::StringExecFns;

verus! {

/// The characters of a string, in order.
pub fn chars_of(s: &str) -> (r: Vec<char>)
    ensures
        r@ == s@,
{
    let mut r: Vec<char> = Vec::new();
    for c in it: s.chars()
        invariant
            r@ == it.seq().take(it.index() as int),
            it.seq() == s@,
    {
        r.push(c);
    }
    r
}

/// The Unicode `White_Space` property, which `char::is_whitespace` and
/// `str::trim` go by.
pub open spec fn is_whitespace(c: char) -> bool {
    let u = c as u32;
    ||| 0x9 <= u <= 0xd
    ||| u == 0x20
    ||| u == 0x85
    ||| u == 0xa0
    ||| u == 0x1680
    ||| 0x2000 <= u <= 0x200a
    ||| u == 0x2028
    ||| u == 0x2029
    ||| u == 0x202f
    ||| u == 0x205f
    ||| u == 0x3000
}

pub fn is_whitespace_char(c: char) -> (b: bool)
    ensures
        b == is_whitespace(c),
{
    let u = c as u32;
    (0x9 <= u && u <= 0xd) || u == 0x20 || u == 0x85 || u == 0xa0 || u == 0x1680 || (0x2000 <= u
        && u <= 0x200a) || u == 0x2028 || u == 0x2029 || u == 0x202f || u == 0x205f || u == 0x3000
}

/// `s` without its leading whitespace.
pub open spec fn trim_start(s: Seq<char>) -> Seq<char>
    decreases s.len(),
{
    if s.len() > 0 && is_whitespace(s[0]) {
        trim_start(s.drop_first())
    } else {
        s
    }
}

/// `s` without its trailing whitespace.
pub open spec fn trim_end(s: Seq<char>) -> Seq<char>
    decreases s.len(),
{
    if s.len() > 0 && is_whitespace(s.last()) {
        trim_end(s.drop_last())
    } else {
        s
    }
}

/// `s` without leading and trailing whitespace, as `str::trim` gives it.
pub open spec fn trim(s: Seq<char>) -> Seq<char> {
    trim_end(trim_start(s))
}

pub fn trim_chars(s: &[char]) -> (r: Vec<char>)
    ensures
        r@ == trim(s@),
{
    let n = s.len();
    let mut lo: usize = 0;
    assert(s@.skip(0) =~= s@);
    while lo < n && is_whitespace_char(s[lo])
        invariant
            n == s@.len(),
            lo <= n,
            trim_start(s@) == trim_start(s@.skip(lo as int)),
        decreases n - lo,
    {
        assert(s@.skip(lo as int).drop_first() =~= s@.skip(lo + 1));
        lo = lo + 1;
    }
    let ghost t = s@.skip(lo as int);
    assert(trim_start(t) == t);
    let mut hi: usize = n;
    while hi > lo && is_whitespace_char(s[hi - 1])
        invariant
            n == s@.len(),
            lo <= hi <= n,
            t == s@.skip(lo as int),
            trim_end(t) == trim_end(s@.subrange(lo as int, hi as int)),
        decreases hi,
    {
        assert(s@.subrange(lo as int, hi as int).drop_last() =~= s@.subrange(lo as int, hi - 1));
        hi = hi - 1;
    }
    let mut r: Vec<char> = Vec::new();
    let mut k: usize = lo;
    while k < hi
        invariant
            n == s@.len(),
            lo <= k <= hi <= n,
            r@ == s@.subrange(lo as int, k as int),
        decreases hi - k,
    {
        r.push(s[k]);
        k = k + 1;
    }
    assert(trim_end(s@.subrange(lo as int, hi as int)) == s@.subrange(lo as int, hi as int));
    r
}

/// Whether `s` begins with `prefix`.
pub open spec fn starts_with(s: Seq<char>, prefix: Seq<char>) -> bool {
    prefix.len() <= s.len() && s.take(prefix.len() as int) =~= prefix
}

pub fn chars_start_with(s: &[char], prefix: &[char]) -> (b: bool)
    ensures
        b == starts_with(s@, prefix@),
{
    if prefix.len() > s.len() {
        return false;
    }
    let mut i: usize = 0;
    while i < prefix.len()
        invariant
            prefix@.len() <= s@.len(),
            i <= prefix@.len(),
            forall|j: int| 0 <= j < i ==> s@[j] == prefix@[j],
        decreases prefix.len() - i,
    {
        if s[i] != prefix[i] {
            assert(s@.take(prefix@.len() as int)[i as int] != prefix@[i as int]);
            return false;
        }
        i = i + 1;
    }
    true
}

/// Whether `pattern` occurs in `s` starting at index `i`.
pub open spec fn occurs_at(s: Seq<char>, pattern: Seq<char>, i: int) -> bool {
    0 <= i && i + pattern.len() <= s.len() && s.subrange(i, i + pattern.len()) =~= pattern
}

/// Whether `pattern` occurs anywhere in `s`.
pub open spec fn contains(s: Seq<char>, pattern: Seq<char>) -> bool {
    exists|i: int| occurs_at(s, pattern, i)
}

pub fn chars_contain(s: &[char], pattern: &[char]) -> (b: bool)
    ensures
        b == contains(s@, pattern@),
{
    if pattern.len() > s.len() {
        return false;
    }
    if pattern.len() == 0 {
        assert(occurs_at(s@, pattern@, 0));
        return true;
    }
    let last = s.len() - pattern.len();
    let mut i: usize = 0;
    while i <= last
        invariant
            last + pattern@.len() == s@.len(),
            s@.len() == s.len(),
            pattern@.len() > 0,
            i <= last + 1,
            forall|j: int| 0 <= j < i ==> !occurs_at(s@, pattern@, j),
        decreases last + 1 - i,
    {
        let mut k: usize = 0;
        let mut matched = true;
        while k < pattern.len()
            invariant
                last + pattern@.len() == s@.len(),
                s@.len() == s.len(),
                i <= last,
                k <= pattern@.len(),
                matched == (forall|j: int| 0 <= j < k ==> s@[i + j] == pattern@[j]),
            decreases pattern.len() - k,
        {
            if s[i + k] != pattern[k] {
                matched = false;
            }
            k = k + 1;
        }
        if matched {
            assert(occurs_at(s@, pattern@, i as int));
            return true;
        }
        assert(!occurs_at(s@, pattern@, i as int)) by {
            let j = choose|j: int| 0 <= j < pattern@.len() && s@[i + j] != pattern@[j];
            assert(s@.subrange(i as int, i + pattern@.len())[j] != pattern@[j]);
        }
        i = i + 1;
    }
    assert forall|j: int| !occurs_at(s@, pattern@, j) by {
        if 0 <= j && j + pattern@.len() <= s@.len() {
            assert(j < i);
        }
    }
    false
}

pub fn chars_eq(a: &[char], b: &[char]) -> (r: bool)
    ensures
        r == (a@ == b@),
{
    if a.len() != b.len() {
        return false;
    }
    let mut i: usize = 0;
    while i < a.len()
        invariant
            a@.len() == b@.len(),
            i <= a@.len(),
            forall|j: int| 0 <= j < i ==> a@[j] == b@[j],
        decreases a.len() - i,
    {
        if a[i] != b[i] {
            return false;
        }
        i = i + 1;
    }
    assert(a@ =~= b@);
    true
}

/// The views of a sequence of character vectors.
pub open spec fn views(v: Seq<Vec<char>>) -> Seq<Seq<char>> {
    v.map_values(|x: Vec<char>| x@)
}

/// A line that a newline ended, without that newline's carriage return.
pub open spec fn without_cr(line: Seq<char>) -> Seq<char> {
    if line.len() > 0 && line.last() == '\r' {
        line.drop_last()
    } else {
        line
    }
}

/// After reading `s`: the lines that a newline has ended, and the line being
/// read.
pub open spec fn line_split(s: Seq<char>) -> (Seq<Seq<char>>, Seq<char>)
    decreases s.len(),
{
    if s.len() == 0 {
        (Seq::empty(), Seq::empty())
    } else {
        let (done, cur) = line_split(s.drop_last());
        if s.last() == '\n' {
            (done.push(without_cr(cur)), Seq::empty())
        } else {
            (done, cur.push(s.last()))
        }
    }
}

/// The lines of `s`, as `str::lines` yields them: split at each `\n`, a `\r`
/// right before the `\n` dropped, and no empty line after a final `\n`.
pub open spec fn lines(s: Seq<char>) -> Seq<Seq<char>> {
    let (done, cur) = line_split(s);
    if cur.len() == 0 {
        done
    } else {
        done.push(cur)
    }
}

/// The lines of `s`, each trimmed.
pub open spec fn trimmed_lines(s: Seq<char>) -> Seq<Seq<char>> {
    lines(s).map_values(|l: Seq<char>| trim(l))
}

fn without_cr_chars(line: Vec<char>) -> (r: Vec<char>)
    ensures
        r@ == without_cr(line@),
{
    let mut line = line;
    if line.len() > 0 && line[line.len() - 1] == '\r' {
        line.pop();
    }
    line
}

/// The lines of `s`, each trimmed: `s.lines().map(str::trim)`.
pub fn trimmed_lines_of(s: &[char]) -> (r: Vec<Vec<char>>)
    ensures
        views(r@) =~= trimmed_lines(s@),
{
    let mut done: Vec<Vec<char>> = Vec::new();
    let mut cur: Vec<char> = Vec::new();
    let mut i: usize = 0;
    while i < s.len()
        invariant
            i <= s@.len(),
            (views(done@), cur@) == line_split(s@.take(i as int)),
        decreases s.len() - i,
    {
        assert(s@.take(i + 1).drop_last() =~= s@.take(i as int));
        let c = s[i];
        if c == '\n' {
            let line = without_cr_chars(cur);
            done.push(line);
            cur = Vec::new();
            assert(views(done@) =~= line_split(s@.take(i + 1)).0);
            assert(cur@ =~= line_split(s@.take(i + 1)).1);
        } else {
            cur.push(c);
            assert(views(done@) =~= line_split(s@.take(i + 1)).0);
        }
        i = i + 1;
    }
    assert(s@.take(s@.len() as int) =~= s@);
    if cur.len() > 0 {
        done.push(cur);
    }
    assert(views(done@) =~= lines(s@));
    let mut r: Vec<Vec<char>> = Vec::new();
    let mut k: usize = 0;
    while k < done.len()
        invariant
            k <= done@.len(),
            views(done@) == lines(s@),
            r@.len() == k,
            forall|j: int| 0 <= j < k ==> #[trigger] r@[j]@ == trim(done@[j]@),
        decreases done.len() - k,
    {
        let t = trim_chars(done[k].as_slice());
        r.push(t);
        k = k + 1;
    }
    assert(views(r@) =~= trimmed_lines(s@)) by {
        assert forall|j: int| 0 <= j < r@.len() implies views(r@)[j] == trimmed_lines(s@)[j] by {
            assert(views(done@)[j] == done@[j]@);
        }
    }
    r
}

/// Reading on after a line end starts from nothing: the lines of `x + y`,
/// where `x` ends a line, are those of `x` followed by those of `y`.
pub proof fn lemma_line_split_append(x: Seq<char>, y: Seq<char>)
    requires
        line_split(x).1.len() == 0,
    ensures
        line_split(x + y) == (line_split(x).0 + line_split(y).0, line_split(y).1),
    decreases y.len(),
{
    if y.len() == 0 {
        assert(x + y =~= x);
        assert(line_split(x).0 + line_split(y).0 =~= line_split(x).0);
        assert(line_split(x).1 =~= line_split(y).1);
    } else {
        lemma_line_split_append(x, y.drop_last());
        assert((x + y).drop_last() =~= x + y.drop_last());
        assert((x + y).last() == y.last());
        let (d, c) = line_split(y.drop_last());
        if y.last() == '\n' {
            assert((line_split(x).0 + d).push(without_cr(c)) =~= line_split(x).0 + d.push(
                without_cr(c),
            ));
        }
    }
}

/// The lines of `p`, a newline, then `s`: those of `p` (its last one ended by
/// the newline), then those of `s`.
pub proof fn lemma_lines_after_newline(p: Seq<char>, s: Seq<char>)
    ensures
        lines(p + seq!['\n'] + s) == line_split(p.push('\n')).0 + lines(s),
        trimmed_lines(p + seq!['\n'] + s) == line_split(p.push('\n')).0.map_values(
            |l: Seq<char>| trim(l),
        ) + trimmed_lines(s),
{
    let q = p.push('\n');
    assert(p + seq!['\n'] =~= q);
    assert(q.drop_last() =~= p);
    lemma_line_split_append(q, s);
    let (d, c) = line_split(s);
    if c.len() != 0 {
        assert((line_split(q).0 + d).push(c) =~= line_split(q).0 + d.push(c));
    }
    let dq = line_split(q).0;
    assert((dq + lines(s)).map_values(|l: Seq<char>| trim(l)) =~= dq.map_values(
        |l: Seq<char>| trim(l),
    ) + lines(s).map_values(|l: Seq<char>| trim(l)));
}

/// A text without a newline reads as one unfinished line.
pub proof fn lemma_line_split_single(x: Seq<char>)
    requires
        forall|i: int| 0 <= i < x.len() ==> x[i] != '\n',
    ensures
        line_split(x) == (Seq::<Seq<char>>::empty(), x),
    decreases x.len(),
{
    if x.len() > 0 {
        lemma_line_split_single(x.drop_last());
        assert(x.drop_last().push(x.last()) =~= x);
    }
}

/// Trimming ignores trailing whitespace, however much of it is taken off.
pub proof fn lemma_trim_drop_last_whitespace(l: Seq<char>)
    requires
        l.len() > 0,
        is_whitespace(l.last()),
    ensures
        trim(l) == trim(l.drop_last()),
    decreases l.len(),
{
    if l.len() == 1 {
        assert(trim_start(l.drop_first()) == l.drop_first());
        assert(l.drop_first() =~= Seq::<char>::empty());
        assert(l.drop_last() =~= Seq::<char>::empty());
    } else if is_whitespace(l[0]) {
        let t = l.drop_first();
        lemma_trim_drop_last_whitespace(t);
        assert(l.drop_last().drop_first() =~= t.drop_last());
        assert(l.drop_last()[0] == l[0]);
    } else {
        assert(l.drop_last()[0] == l[0]);
    }
}

/// The lines of `s` once a newline ends its last line: its trimmed lines, and
/// one more empty line when that last line was already ended.
pub proof fn lemma_trimmed_lines_newline_ended(s: Seq<char>)
    ensures
        ({
            let ended = line_split(s.push('\n')).0.map_values(|l: Seq<char>| trim(l));
            if line_split(s).1.len() == 0 {
                ended == trimmed_lines(s).push(Seq::<char>::empty())
            } else {
                ended == trimmed_lines(s)
            }
        }),
{
    assert(s.push('\n').drop_last() =~= s);
    let (d, c) = line_split(s);
    let ended = line_split(s.push('\n')).0.map_values(|l: Seq<char>| trim(l));
    assert(line_split(s.push('\n')).0 == d.push(without_cr(c)));
    if c.len() == 0 {
        assert(without_cr(c) == c);
        assert(trim_start(c) == c);
        assert(trim(c) =~= Seq::<char>::empty());
        assert(ended =~= trimmed_lines(s).push(Seq::<char>::empty()));
    } else {
        if c.last() == '\r' {
            assert(is_whitespace('\r'));
            lemma_trim_drop_last_whitespace(c);
        }
        assert(trim(without_cr(c)) == trim(c));
        assert(ended =~= trimmed_lines(s));
    }
}

/// A text that begins and ends with something other than whitespace is its own
/// trim.
pub proof fn lemma_trim_unchanged(x: Seq<char>)
    requires
        x.len() > 0,
        !is_whitespace(x[0]),
        !is_whitespace(x.last()),
    ensures
        trim(x) == x,
{
}

/// Whitespace in front of a text does not survive trimming.
pub proof fn lemma_trim_start_indent(indent: Seq<char>, x: Seq<char>)
    requires
        forall|i: int| 0 <= i < indent.len() ==> is_whitespace(#[trigger] indent[i]),
    ensures
        trim_start(indent + x) == trim_start(x),
    decreases indent.len(),
{
    if indent.len() > 0 {
        assert((indent + x).drop_first() =~= indent.drop_first() + x);
        lemma_trim_start_indent(indent.drop_first(), x);
    } else {
        assert(indent + x =~= x);
    }
}

/// A line without a newline, then a newline, then more text: that line,
/// trimmed, then the lines of the rest.
pub proof fn lemma_trimmed_lines_cons(x: Seq<char>, rest: Seq<char>)
    requires
        forall|i: int| 0 <= i < x.len() ==> x[i] != '\n',
    ensures
        trimmed_lines(x + seq!['\n'] + rest) == seq![trim(x)] + trimmed_lines(rest),
{
    lemma_lines_after_newline(x, rest);
    lemma_line_split_single(x);
    assert(x.push('\n').drop_last() =~= x);
    assert(line_split(x.push('\n')).0 =~= seq![without_cr(x)]);
    if x.len() > 0 && x.last() == '\r' {
        assert(is_whitespace('\r'));
        lemma_trim_drop_last_whitespace(x);
    }
    assert(seq![without_cr(x)].map_values(|l: Seq<char>| trim(l)) =~= seq![trim(x)]);
}

/// A non-empty text without a newline is one line.
pub proof fn lemma_trimmed_lines_single(x: Seq<char>)
    requires
        x.len() > 0,
        forall|i: int| 0 <= i < x.len() ==> x[i] != '\n',
    ensures
        trimmed_lines(x) == seq![trim(x)],
{
    lemma_line_split_single(x);
    assert(lines(x) =~= seq![x]);
    assert(seq![x].map_values(|l: Seq<char>| trim(l)) =~= seq![trim(x)]);
}

/// The pieces joined, with `sep` between each two of them.
pub open spec fn join(pieces: Seq<Seq<char>>, sep: Seq<char>) -> Seq<char>
    decreases pieces.len(),
{
    if pieces.len() == 0 {
        Seq::empty()
    } else if pieces.len() == 1 {
        pieces[0]
    } else {
        join(pieces.drop_last(), sep) + sep + pieces.last()
    }
}

/// The lines `start..end` of `lines`, joined by `sep`.
pub fn join_range(lines: &Vec<Vec<char>>, start: usize, end: usize, sep: &[char]) -> (r: Vec<char>)
    requires
        start <= end <= lines@.len(),
    ensures
        r@ == join(views(lines@).subrange(start as int, end as int), sep@),
{
    let mut r: Vec<char> = Vec::new();
    let mut k: usize = start;
    while k < end
        invariant
            start <= k <= end <= lines@.len(),
            r@ == join(views(lines@).subrange(start as int, k as int), sep@),
        decreases end - k,
    {
        let ghost before = r@;
        if k > start {
            let mut j: usize = 0;
            while j < sep.len()
                invariant
                    j <= sep@.len(),
                    r@ == before + sep@.take(j as int),
                decreases sep.len() - j,
            {
                r.push(sep[j]);
                assert(before + sep@.take(j + 1) =~= (before + sep@.take(j as int)).push(sep@[j as int]));
                j = j + 1;
            }
            assert(sep@.take(sep@.len() as int) =~= sep@);
        }
        let ghost mid = r@;
        let line = &lines[k];
        let mut j: usize = 0;
        while j < line.len()
            invariant
                j <= line@.len(),
                r@ == mid + line@.take(j as int),
            decreases line.len() - j,
        {
            r.push(line[j]);
            assert(mid + line@.take(j + 1) =~= (mid + line@.take(j as int)).push(line@[j as int]));
            j = j + 1;
        }
        assert(line@.take(line@.len() as int) =~= line@);
        let ghost pieces = views(lines@).subrange(start as int, k + 1);
        assert(pieces.drop_last() =~= views(lines@).subrange(start as int, k as int));
        assert(pieces.last() == lines@[k as int]@);
        if k == start {
            assert(r@ =~= join(pieces, sep@));
        } else {
            assert(r@ =~= join(pieces, sep@));
        }
        k = k + 1;
    }
    r
}

/// `a` sorts before `b` or equals it: compared character by character by code
/// point, a proper prefix first. For UTF-8 text this is the byte order that
/// `str`'s `Ord` uses.
pub open spec fn lex_le(a: Seq<char>, b: Seq<char>) -> bool
    decreases a.len(),
{
    if a.len() == 0 {
        true
    } else if b.len() == 0 {
        false
    } else if a[0] != b[0] {
        (a[0] as int) < (b[0] as int)
    } else {
        lex_le(a.drop_first(), b.drop_first())
    }
}

pub proof fn lemma_lex_le_reflexive(a: Seq<char>)
    ensures
        lex_le(a, a),
    decreases a.len(),
{
    if a.len() > 0 {
        lemma_lex_le_reflexive(a.drop_first());
    }
}

pub proof fn lemma_lex_le_antisymmetric(a: Seq<char>, b: Seq<char>)
    requires
        lex_le(a, b),
        lex_le(b, a),
    ensures
        a == b,
    decreases a.len(),
{
    if a.len() > 0 && b.len() > 0 {
        lemma_lex_le_antisymmetric(a.drop_first(), b.drop_first());
        assert(a =~= seq![a[0]] + a.drop_first());
        assert(b =~= seq![b[0]] + b.drop_first());
    }
}

pub proof fn lemma_lex_le_transitive(a: Seq<char>, b: Seq<char>, c: Seq<char>)
    requires
        lex_le(a, b),
        lex_le(b, c),
    ensures
        lex_le(a, c),
    decreases a.len(),
{
    if a.len() > 0 && b.len() > 0 && c.len() > 0 {
        if a[0] == b[0] && b[0] == c[0] {
            lemma_lex_le_transitive(a.drop_first(), b.drop_first(), c.drop_first());
        }
    }
}

pub proof fn lemma_lex_le_total(a: Seq<char>, b: Seq<char>)
    ensures
        lex_le(a, b) || lex_le(b, a),
    decreases a.len(),
{
    if a.len() > 0 && b.len() > 0 {
        if a[0] == b[0] {
            lemma_lex_le_total(a.drop_first(), b.drop_first());
        } else {
            assert(a[0] as int != b[0] as int);
        }
    }
}

proof fn lemma_char_u32(c: char)
    ensures
        c as u32 as int == c as int,
{
    assert(0 <= c as int <= 0x10FFFF);
}

pub fn chars_lex_le(a: &[char], b: &[char]) -> (r: bool)
    ensures
        r == lex_le(a@, b@),
{
    let mut i: usize = 0;
    assert(a@.skip(0) =~= a@ && b@.skip(0) =~= b@);
    while i < a.len() && i < b.len() && a[i] == b[i]
        invariant
            i <= a@.len(),
            i <= b@.len(),
            lex_le(a@, b@) == lex_le(a@.skip(i as int), b@.skip(i as int)),
        decreases a.len() - i,
    {
        assert(a@.skip(i as int).drop_first() =~= a@.skip(i + 1));
        assert(b@.skip(i as int).drop_first() =~= b@.skip(i + 1));
        i = i + 1;
    }
    if i == a.len() {
        true
    } else if i == b.len() {
        false
    } else {
        proof {
            lemma_char_u32(a@[i as int]);
            lemma_char_u32(b@[i as int]);
        }
        (a[i] as u32) < (b[i] as u32)
    }
}

/// The decimal digits of `n`, as `{}` formats an unsigned integer.
pub open spec fn decimal(n: nat) -> Seq<char>
    decreases n,
{
    if n < 10 {
        seq![digit_char(n)]
    } else {
        decimal(n / 10).push(digit_char(n % 10))
    }
}

pub open spec fn digit_char(d: nat) -> char {
    if d == 0 {
        '0'
    } else if d == 1 {
        '1'
    } else if d == 2 {
        '2'
    } else if d == 3 {
        '3'
    } else if d == 4 {
        '4'
    } else if d == 5 {
        '5'
    } else if d == 6 {
        '6'
    } else if d == 7 {
        '7'
    } else if d == 8 {
        '8'
    } else {
        '9'
    }
}

fn digit_text(d: usize) -> (r: &'static str)
    requires
        d < 10,
    ensures
        r@ == seq![digit_char(d as nat)],
{
    proof {
        reveal_strlit("0");
        reveal_strlit("1");
        reveal_strlit("2");
        reveal_strlit("3");
        reveal_strlit("4");
        reveal_strlit("5");
        reveal_strlit("6");
        reveal_strlit("7");
        reveal_strlit("8");
        reveal_strlit("9");
    }
    let r = if d == 0 {
        "0"
    } else if d == 1 {
        "1"
    } else if d == 2 {
        "2"
    } else if d == 3 {
        "3"
    } else if d == 4 {
        "4"
    } else if d == 5 {
        "5"
    } else if d == 6 {
        "6"
    } else if d == 7 {
        "7"
    } else if d == 8 {
        "8"
    } else {
        "9"
    };
    assert(r@ =~= seq![digit_char(d as nat)]);
    r
}

/// Appends the decimal digits of `n`.
pub fn push_decimal(out: &mut String, n: usize)
    ensures
        final(out)@ == old(out)@ + decimal(n as nat),
    decreases n,
{
    if n >= 10 {
        push_decimal(out, n / 10);
    }
    out.append(digit_text(n % 10));
    assert(decimal(n as nat) =~= if n < 10 {
        seq![digit_char(n as nat)]
    } else {
        decimal((n / 10) as nat).push(digit_char((n % 10) as nat))
    });
}

} // verus!
