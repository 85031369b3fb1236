//! Conservative, read-only recognition of a Codex terminal quota interruption.
//!
//! This is display evidence, never authorization to send input. In particular,
//! an empty-looking composer cannot prove that the user wants a turn resumed.

use vstd::prelude::*;

use crate::text::{
    chars_contain, chars_eq, chars_of, chars_start_with, contains, join, join_range,
    lemma_line_split_single, lemma_lines_after_newline, lemma_trimmed_lines_newline_ended,
    lemma_trim_start_indent, lemma_trim_unchanged, lemma_trimmed_lines_cons,
    lemma_trimmed_lines_single, line_split, lines, starts_with, trim, trim_end, trim_start,
    trimmed_lines, trimmed_lines_of, views, is_whitespace,
};

verus! {

/// What `console::strip_ansi_codes` leaves of a string.
pub uninterp spec fn ansi_stripped(s: Seq<char>) -> Seq<char>;

/// Calls `console::strip_ansi_codes`.
///
/// Claimed of it: the result is `ansi_stripped` of the input; and an input
/// holding neither ESC (U+1B) nor CSI (U+9B), the only characters at which the
/// crate starts an escape sequence, comes back as it was.
#[verifier::external_body]
fn strip_ansi(s: &str) -> (r: String)
    ensures
        r@ == ansi_stripped(s@),
        (forall|i: int| 0 <= i < s@.len() ==> s@[i] != '\u{1b}' && s@[i] != '\u{9b}') ==> r@
            == s@,
{
    console::strip_ansi_codes(s).into_owned()
}

/// The empty composer with its placeholder.
pub open spec fn composer_placeholder() -> Seq<char> {
    "› Ask Codex to do anything"@
}

/// How the quota error begins.
pub open spec fn usage_limit_heading() -> Seq<char> {
    "■ You've hit your usage limit."@
}

pub open spec fn usage_url() -> Seq<char> {
    "https://chatgpt.com/codex/settings/usage"@
}

pub open spec fn retry_phrase() -> Seq<char> {
    "try again at "@
}

pub open spec fn model_prefix() -> Seq<char> {
    "gpt-"@
}

pub open spec fn footer_separator() -> Seq<char> {
    " · "@
}

/// Whether a line begins with the character `c`.
pub open spec fn begins_with_char(line: Seq<char>, c: char) -> bool {
    line.len() > 0 && line[0] == c
}

/// The last index below `hi` of a line that begins with `c`.
pub open spec fn last_beginning_with(lines: Seq<Seq<char>>, hi: int, c: char) -> Option<int>
    decreases hi,
{
    if hi <= 0 {
        None
    } else if begins_with_char(lines[hi - 1], c) {
        Some(hi - 1)
    } else {
        last_beginning_with(lines, hi - 1, c)
    }
}

/// The last index below `hi` of a line that is not empty.
pub open spec fn last_nonempty(lines: Seq<Seq<char>>, hi: int) -> Option<int>
    decreases hi,
{
    if hi <= 0 {
        None
    } else if lines[hi - 1].len() > 0 {
        Some(hi - 1)
    } else {
        last_nonempty(lines, hi - 1)
    }
}

/// The composer forms that are understood: empty, or showing its placeholder.
pub open spec fn is_empty_composer(line: Seq<char>) -> bool {
    line == seq!['›'] || line == composer_placeholder()
}

/// The status footer: the model's name and the separator after it.
pub open spec fn is_model_footer(line: Seq<char>) -> bool {
    starts_with(line, model_prefix()) && contains(line, footer_separator())
}

/// Below the composer there is exactly one non-empty line, and it is the
/// model footer.
pub open spec fn footer_follows(lines: Seq<Seq<char>>, prompt: int) -> bool {
    exists|i: int|
        prompt < i < lines.len() && #[trigger] is_model_footer(lines[i]) && forall|j: int|
            prompt < j < lines.len() && j != i ==> (#[trigger] lines[j]).len() == 0
}

/// A line that starts another block, or separates blocks.
pub open spec fn ends_a_block(line: Seq<char>) -> bool {
    line.len() == 0 || begins_with_char(line, '■') || begins_with_char(line, '•')
        || begins_with_char(line, '›')
}

/// The error block, its wrapped lines joined, is the quota error.
pub open spec fn is_quota_error(error: Seq<char>) -> bool {
    starts_with(error, usage_limit_heading()) && contains(error, usage_url()) && contains(
        error,
        retry_phrase(),
    )
}

/// The screen's last block before an empty composer and the model footer is
/// the quota error, with nothing after it.
///
/// The composer is the last line that begins with `›`; the error block runs
/// from the last line beginning with `■` up to the last non-empty line above
/// the composer, and no line after its first may be empty or begin another
/// block.
pub open spec fn is_quota_screen(plain: Seq<char>) -> bool {
    quota_lines(trimmed_lines(plain))
}

/// `is_quota_screen` over the screen's trimmed lines.
pub open spec fn quota_lines(lines: Seq<Seq<char>>) -> bool {
    match last_beginning_with(lines, lines.len() as int, '›') {
        None => false,
        Some(prompt) => {
            &&& is_empty_composer(lines[prompt])
            &&& footer_follows(lines, prompt)
            &&& match last_nonempty(lines, prompt) {
                None => false,
                Some(end) => match last_beginning_with(lines, end + 1, '■') {
                    None => false,
                    Some(start) => {
                        &&& is_quota_error(join(lines.subrange(start, end + 1), seq![' ']))
                        &&& forall|k: int| start < k <= end ==> !ends_a_block(#[trigger] lines[k])
                    },
                },
            }
        },
    }
}

/// Whether a captured pane shows a Codex quota interruption as its current
/// state, rather than a quota message quoted in scrollback.
pub fn is_quota_interruption(capture: &str) -> (r: bool)
    ensures
        r == is_quota_screen(ansi_stripped(capture@)),
        (forall|i: int| 0 <= i < capture@.len() ==> capture@[i] != '\u{1b}' && capture@[i] != '\u{9b}')
            ==> r == is_quota_screen(capture@),
{
    let plain = strip_ansi(capture);
    is_quota_screen_text(plain.as_str())
}

fn last_beginning_with_exec(lines: &Vec<Vec<char>>, hi: usize, c: char) -> (r: Option<usize>)
    requires
        hi <= lines@.len(),
    ensures
        r matches Some(i) ==> i < hi,
        match r {
            None => last_beginning_with(views(lines@), hi as int, c) is None,
            Some(i) => last_beginning_with(views(lines@), hi as int, c) == Some(i as int),
        },
{
    let mut k: usize = hi;
    while k > 0
        invariant
            k <= hi <= lines@.len(),
            last_beginning_with(views(lines@), hi as int, c) == last_beginning_with(
                views(lines@),
                k as int,
                c,
            ),
        decreases k,
    {
        let line = &lines[k - 1];
        assert(views(lines@)[k - 1] == line@);
        if line.len() > 0 && line[0] == c {
            return Some(k - 1);
        }
        k = k - 1;
    }
    None
}

fn last_nonempty_exec(lines: &Vec<Vec<char>>, hi: usize) -> (r: Option<usize>)
    requires
        hi <= lines@.len(),
    ensures
        r matches Some(i) ==> i < hi,
        match r {
            None => last_nonempty(views(lines@), hi as int) is None,
            Some(i) => last_nonempty(views(lines@), hi as int) == Some(i as int),
        },
{
    let mut k: usize = hi;
    while k > 0
        invariant
            k <= hi <= lines@.len(),
            last_nonempty(views(lines@), hi as int) == last_nonempty(views(lines@), k as int),
        decreases k,
    {
        assert(views(lines@)[k - 1] == lines@[k - 1]@);
        if lines[k - 1].len() > 0 {
            return Some(k - 1);
        }
        k = k - 1;
    }
    None
}

/// `is_quota_screen` on text whose escape codes are already stripped.
pub fn is_quota_screen_text(plain: &str) -> (r: bool)
    ensures
        r == is_quota_screen(plain@),
{
    let chars = chars_of(plain);
    let lines = trimmed_lines_of(chars.as_slice());
    let ghost ls = trimmed_lines(plain@);
    assert(views(lines@) == ls);
    let prompt = match last_beginning_with_exec(&lines, lines.len(), '›') {
        None => return false,
        Some(p) => p,
    };
    assert(ls[prompt as int] == lines@[prompt as int]@);
    let bare = chars_of("›");
    let placeholder = chars_of("› Ask Codex to do anything");
    proof {
        reveal_strlit("›");
        reveal_strlit("gpt-");
        assert(bare@ =~= seq!['›']);
    }
    let prompt_line = lines[prompt].as_slice();
    if !(chars_eq(prompt_line, bare.as_slice()) || chars_eq(prompt_line, placeholder.as_slice())) {
        return false;
    }
    // The one non-empty line below the composer must be the model footer.
    let model = chars_of("gpt-");
    let separator = chars_of(" · ");
    let mut count: usize = 0;
    let mut footer_ok = false;
    let mut last_seen: usize = 0;
    let mut k: usize = prompt + 1;
    while k < lines.len()
        invariant
            prompt < lines@.len(),
            views(lines@) == ls,
            model@ == model_prefix(),
            separator@ == footer_separator(),
            prompt + 1 <= k <= lines@.len(),
            count <= k,
            count == 0 ==> forall|j: int| prompt < j < k ==> (#[trigger] ls[j]).len() == 0,
            count >= 1 ==> prompt < last_seen < k && ls[last_seen as int].len() > 0 && footer_ok
                == is_model_footer(ls[last_seen as int]),
            count == 1 ==> forall|j: int|
                prompt < j < k && j != last_seen ==> (#[trigger] ls[j]).len() == 0,
            count >= 2 ==> exists|a: int, b: int|
                prompt < a < b < k && (#[trigger] ls[a]).len() > 0 && (#[trigger] ls[b]).len()
                    > 0,
        decreases lines.len() - k,
    {
        assert(ls[k as int] == lines@[k as int]@);
        if lines[k].len() > 0 {
            if count >= 1 {
                assert(ls[last_seen as int].len() > 0 && ls[k as int].len() > 0);
            }
            count = if count < 2 { count + 1 } else { 2 };
            last_seen = k;
            footer_ok = chars_start_with(lines[k].as_slice(), model.as_slice()) && chars_contain(
                lines[k].as_slice(),
                separator.as_slice(),
            );
        }
        k = k + 1;
    }
    if count != 1 || !footer_ok {
        proof {
            if footer_follows(ls, prompt as int) {
                let i = choose|i: int|
                    prompt < i < ls.len() && #[trigger] is_model_footer(ls[i]) && forall|j: int|
                        prompt < j < ls.len() && j != i ==> (#[trigger] ls[j]).len() == 0;
                assert(ls[i].len() > 0);
                if count >= 2 {
                    let (a, b) = choose|a: int, b: int|
                        prompt < a < b < ls.len() && (#[trigger] ls[a]).len() > 0
                            && (#[trigger] ls[b]).len() > 0;
                    assert(a == i || ls[a].len() == 0);
                    assert(b == i || ls[b].len() == 0);
                }
            }
        }
        return false;
    }
    assert(footer_follows(ls, prompt as int)) by {
        assert(is_model_footer(ls[last_seen as int]));
    }
    let end = match last_nonempty_exec(&lines, prompt) {
        None => return false,
        Some(e) => e,
    };
    let start = match last_beginning_with_exec(&lines, end + 1, '■') {
        None => return false,
        Some(s) => s,
    };
    let space = chars_of(" ");
    proof {
        reveal_strlit(" ");
        assert(space@ =~= seq![' ']);
    }
    let error = join_range(&lines, start, end + 1, space.as_slice());
    assert(views(lines@).subrange(start as int, end + 1) == ls.subrange(start as int, end + 1));
    let heading = chars_of("■ You've hit your usage limit.");
    let url = chars_of("https://chatgpt.com/codex/settings/usage");
    let retry = chars_of("try again at ");
    let error_ok = chars_start_with(error.as_slice(), heading.as_slice()) && chars_contain(
        error.as_slice(),
        url.as_slice(),
    ) && chars_contain(error.as_slice(), retry.as_slice());
    assert(error@ == join(ls.subrange(start as int, end + 1), seq![' ']));
    assert(error_ok == is_quota_error(error@));
    if !error_ok {
        return false;
    }
    let mut k: usize = start + 1;
    while k <= end
        invariant
            start <= end < prompt < lines@.len(),
            views(lines@) == ls,
            start + 1 <= k <= end + 1,
            ls == trimmed_lines(plain@),
            forall|j: int| start < j < k ==> !ends_a_block(#[trigger] ls[j]),
            last_beginning_with(ls, ls.len() as int, '›') == Some(prompt as int),
            last_nonempty(ls, prompt as int) == Some(end as int),
            last_beginning_with(ls, end + 1, '■') == Some(start as int),
        decreases end + 1 - k,
    {
        assert(ls[k as int] == lines@[k as int]@);
        let line = &lines[k];
        if line.len() == 0 || line[0] == '■' || line[0] == '•' || line[0] == '›' {
            assert(ends_a_block(ls[k as int]));
            assert(last_beginning_with(ls, ls.len() as int, '›') == Some(prompt as int));
            assert(last_nonempty(ls, prompt as int) == Some(end as int));
            assert(last_beginning_with(ls, end + 1, '■') == Some(start as int));
            return false;
        }
        k = k + 1;
    }
    true
}

proof fn lemma_last_beginning_bound(l: Seq<Seq<char>>, hi: int, c: char)
    ensures
        last_beginning_with(l, hi, c) matches Some(i) ==> 0 <= i < hi && begins_with_char(l[i], c),
    decreases hi,
{
    if hi > 0 && !begins_with_char(l[hi - 1], c) {
        lemma_last_beginning_bound(l, hi - 1, c);
    }
}

proof fn lemma_last_nonempty_bound(l: Seq<Seq<char>>, hi: int)
    ensures
        last_nonempty(l, hi) matches Some(i) ==> 0 <= i < hi && l[i].len() > 0,
    decreases hi,
{
    if hi > 0 && l[hi - 1].len() == 0 {
        lemma_last_nonempty_bound(l, hi - 1);
    }
}

proof fn lemma_last_beginning_shift(t: Seq<Seq<char>>, l: Seq<Seq<char>>, hi: int, c: char)
    requires
        0 <= hi <= l.len(),
        last_beginning_with(l, hi, c) is Some,
    ensures
        last_beginning_with(t + l, hi + t.len(), c) == Some(
            last_beginning_with(l, hi, c)->0 + t.len(),
        ),
    decreases hi,
{
    assert((t + l)[hi - 1 + t.len()] == l[hi - 1]);
    if !begins_with_char(l[hi - 1], c) {
        lemma_last_beginning_shift(t, l, hi - 1, c);
    }
}

proof fn lemma_last_nonempty_shift(t: Seq<Seq<char>>, l: Seq<Seq<char>>, hi: int)
    requires
        0 <= hi <= l.len(),
        last_nonempty(l, hi) is Some,
    ensures
        last_nonempty(t + l, hi + t.len()) == Some(last_nonempty(l, hi)->0 + t.len()),
    decreases hi,
{
    assert((t + l)[hi - 1 + t.len()] == l[hi - 1]);
    if l[hi - 1].len() == 0 {
        lemma_last_nonempty_shift(t, l, hi - 1);
    }
}

proof fn lemma_last_beginning_prefix(a: Seq<Seq<char>>, b: Seq<Seq<char>>, hi: int, c: char)
    requires
        0 <= hi <= a.len(),
    ensures
        last_beginning_with(a + b, hi, c) == last_beginning_with(a, hi, c),
    decreases hi,
{
    if hi > 0 {
        assert((a + b)[hi - 1] == a[hi - 1]);
        lemma_last_beginning_prefix(a, b, hi - 1, c);
    }
}

proof fn lemma_last_beginning_skips(a: Seq<Seq<char>>, b: Seq<Seq<char>>, hi: int, c: char)
    requires
        a.len() <= hi <= a.len() + b.len(),
        forall|j: int| 0 <= j < b.len() ==> !begins_with_char(#[trigger] b[j], c),
    ensures
        last_beginning_with(a + b, hi, c) == last_beginning_with(a, a.len() as int, c),
    decreases hi,
{
    if hi > a.len() {
        assert((a + b)[hi - 1] == b[hi - 1 - a.len()]);
        lemma_last_beginning_skips(a, b, hi - 1, c);
    } else {
        lemma_last_beginning_prefix(a, b, hi, c);
    }
}

/// Lines above a screen that reads as a quota wait leave it one.
proof fn lemma_quota_lines_prefix(t: Seq<Seq<char>>, l: Seq<Seq<char>>)
    requires
        quota_lines(l),
    ensures
        quota_lines(t + l),
{
    let k = t.len() as int;
    let tl = t + l;
    let prompt = last_beginning_with(l, l.len() as int, '›')->0;
    lemma_last_beginning_shift(t, l, l.len() as int, '›');
    assert(tl.len() == l.len() + k);
    assert(tl[prompt + k] == l[prompt]);
    let i = choose|i: int|
        prompt < i < l.len() && #[trigger] is_model_footer(l[i]) && forall|j: int|
            prompt < j < l.len() && j != i ==> (#[trigger] l[j]).len() == 0;
    assert(tl[i + k] == l[i]);
    assert forall|j: int| prompt + k < j < tl.len() && j != i + k implies (#[trigger] tl[j]).len()
        == 0 by {
        assert(tl[j] == l[j - k]);
    }
    assert(footer_follows(tl, prompt + k));
    lemma_last_beginning_bound(l, l.len() as int, '›');
    let end = last_nonempty(l, prompt)->0;
    lemma_last_nonempty_bound(l, prompt);
    lemma_last_nonempty_shift(t, l, prompt);
    let start = last_beginning_with(l, end + 1, '■')->0;
    lemma_last_beginning_bound(l, end + 1, '■');
    lemma_last_beginning_shift(t, l, end + 1, '■');
    assert(tl.subrange(start + k, end + k + 1) =~= l.subrange(start, end + 1));
    assert forall|j: int| start + k < j <= end + k implies !ends_a_block(#[trigger] tl[j]) by {
        assert(tl[j] == l[j - k]);
        assert(!ends_a_block(l[j - k]));
    }
}

/// Scrollback cannot undo a recognized quota wait: whatever text stands above
/// the screen, on lines of its own, the screen still reads as one.
pub proof fn lemma_scrollback_cannot_undo(above: Seq<char>, screen: Seq<char>)
    requires
        is_quota_screen(screen),
    ensures
        is_quota_screen(above + seq!['\n'] + screen),
{
    lemma_lines_after_newline(above, screen);
    lemma_quota_lines_prefix(
        line_split(above.push('\n')).0.map_values(|l: Seq<char>| trim(l)),
        trimmed_lines(screen),
    );
}

/// Output below the footer means the screen has moved on: a non-empty line
/// after a screen that reads as a quota wait makes it read as none.
pub proof fn lemma_output_below_the_footer_defeats(screen: Seq<char>, line: Seq<char>)
    requires
        is_quota_screen(screen),
        forall|i: int| 0 <= i < line.len() ==> line[i] != '\n',
        trim(line).len() > 0,
    ensures
        !is_quota_screen(screen + seq!['\n'] + line),
{
    reveal_strlit("gpt-");
    lemma_lines_after_newline(screen, line);
    assert(line.len() > 0) by {
        if line.len() == 0 {
            assert(trim_start(line) == line);
        }
    }
    lemma_line_split_single(line);
    assert(lines(line) =~= seq![line]);
    assert(trimmed_lines(line) =~= seq![trim(line)]);
    lemma_trimmed_lines_newline_ended(screen);
    let ls = trimmed_lines(screen);
    let ended = line_split(screen.push('\n')).0.map_values(|l: Seq<char>| trim(l));
    let b = if line_split(screen).1.len() == 0 {
        seq![Seq::<char>::empty(), trim(line)]
    } else {
        seq![trim(line)]
    };
    let all = ls + b;
    assert(ended + trimmed_lines(line) =~= all);
    assert(trimmed_lines(screen + seq!['\n'] + line) == all);
    let last = all.len() - 1;
    assert(all[last] == trim(line));
    if begins_with_char(trim(line), '›') {
        assert(last_beginning_with(all, all.len() as int, '›') == Some(last));
        assert(!footer_follows(all, last));
    } else {
        assert forall|j: int| 0 <= j < b.len() implies !begins_with_char(#[trigger] b[j], '›') by {
        }
        lemma_last_beginning_skips(ls, b, all.len() as int, '›');
        let prompt = last_beginning_with(ls, ls.len() as int, '›')->0;
        let i = choose|i: int|
            prompt < i < ls.len() && #[trigger] is_model_footer(ls[i]) && forall|j: int|
                prompt < j < ls.len() && j != i ==> (#[trigger] ls[j]).len() == 0;
        assert(ls[i].len() > 0);
        assert(all[i] == ls[i]);
        if footer_follows(all, prompt) {
            let f = choose|f: int|
                prompt < f < all.len() && #[trigger] is_model_footer(all[f]) && forall|j: int|
                    prompt < j < all.len() && j != f ==> (#[trigger] all[j]).len() == 0;
            assert(all[i].len() > 0 && all[last].len() > 0);
        }
    }
}

/// A screen: its body, then a blank line, the empty composer, a blank line,
/// and the footer.
pub open spec fn screen_of(body: Seq<char>, footer: Seq<char>) -> Seq<char> {
    body + seq!['\n', '\n', '›', '\n', '\n'] + footer
}

proof fn lemma_footer_follows_suffix(l1: Seq<Seq<char>>, p1: int, l2: Seq<Seq<char>>, p2: int)
    requires
        0 <= p1 < l1.len(),
        0 <= p2 < l2.len(),
        l1.len() - p1 == l2.len() - p2,
        forall|j: int| p1 <= j < l1.len() ==> #[trigger] l1[j] == l2[j - p1 + p2],
    ensures
        footer_follows(l1, p1) == footer_follows(l2, p2),
{
    if footer_follows(l1, p1) {
        let i = choose|i: int|
            p1 < i < l1.len() && #[trigger] is_model_footer(l1[i]) && forall|j: int|
                p1 < j < l1.len() && j != i ==> (#[trigger] l1[j]).len() == 0;
        assert(l2[i - p1 + p2] == l1[i]);
        assert forall|j: int| p2 < j < l2.len() && j != i - p1 + p2 implies (#[trigger] l2[j]).len()
            == 0 by {
            assert(l1[j - p2 + p1] == l2[j]);
        }
        assert(footer_follows(l2, p2));
    }
    if footer_follows(l2, p2) {
        let i = choose|i: int|
            p2 < i < l2.len() && #[trigger] is_model_footer(l2[i]) && forall|j: int|
                p2 < j < l2.len() && j != i ==> (#[trigger] l2[j]).len() == 0;
        assert(l1[i - p2 + p1] == l2[i]);
        assert forall|j: int| p1 < j < l1.len() && j != i - p2 + p1 implies (#[trigger] l1[j]).len()
            == 0 by {
            assert(l2[j - p1 + p2] == l1[j]);
        }
        assert(footer_follows(l1, p1));
    }
}

proof fn lemma_join_rewrapped(pre: Seq<Seq<char>>, a: Seq<char>, b: Seq<char>)
    ensures
        join(pre.push(a + seq![' '] + b), seq![' ']) == join(pre.push(a).push(b), seq![' ']),
{
    let two = pre.push(a).push(b);
    assert(two.drop_last() =~= pre.push(a));
    assert(pre.push(a).drop_last() =~= pre);
    assert(pre.push(a + seq![' '] + b).drop_last() =~= pre);
    if pre.len() == 0 {
        assert(join(pre.push(a), seq![' ']) == a);
        assert(join(two, seq![' ']) =~= a + seq![' '] + b);
    } else {
        assert(join(pre.push(a), seq![' ']) == join(pre, seq![' ']) + seq![' '] + a);
        assert(join(two, seq![' ']) == join(pre.push(a), seq![' ']) + seq![' '] + b);
        assert(join(pre.push(a + seq![' '] + b), seq![' ']) == join(pre, seq![' ']) + seq![' ']
            + (a + seq![' '] + b));
        assert(join(two, seq![' ']) =~= join(pre, seq![' ']) + seq![' '] + (a + seq![' '] + b));
    }
}

/// The trimmed lines of a screen whose body ends in `line`.
proof fn lemma_screen_lines(above: Seq<char>, line: Seq<char>, footer: Seq<char>)
    requires
        forall|i: int| 0 <= i < line.len() ==> line[i] != '\n',
        forall|i: int| 0 <= i < footer.len() ==> footer[i] != '\n',
        footer.len() > 0,
    ensures
        trimmed_lines(screen_of(above + seq!['\n'] + line, footer)) == line_split(
            above.push('\n'),
        ).0.map_values(|l: Seq<char>| trim(l)) + seq![
            trim(line),
            Seq::<char>::empty(),
            seq!['›'],
            Seq::<char>::empty(),
            trim(footer),
        ],
{
    let e = Seq::<char>::empty();
    let r0 = footer;
    let r1 = e + seq!['\n'] + r0;
    let r2 = seq!['›'] + seq!['\n'] + r1;
    let r3 = e + seq!['\n'] + r2;
    let r4 = line + seq!['\n'] + r3;
    lemma_trimmed_lines_single(footer);
    lemma_trimmed_lines_cons(e, r0);
    lemma_trimmed_lines_cons(seq!['›'], r1);
    lemma_trimmed_lines_cons(e, r2);
    lemma_trimmed_lines_cons(line, r3);
    lemma_lines_after_newline(above, r4);
    assert(screen_of(above + seq!['\n'] + line, footer) =~= above + seq!['\n'] + r4);
    assert(trim_start(e) == e);
    assert(trim(e) =~= e);
    assert(!is_whitespace('›'));
    assert(trim(seq!['›']) =~= seq!['›']);
    assert(trimmed_lines(r4) =~= seq![trim(line), e, seq!['›'], e, trim(footer)]);
}

/// Wrapping is invisible: an error line that the terminal wraps at a space,
/// the rest of it indented on the next line, reads as the same screen.
/// Here `a` and `b` are the two halves (each without a newline, neither
/// beginning nor ending with whitespace, `b` not beginning a block), `indent`
/// the whitespace the terminal puts before `b`, and `above` all earlier lines.
pub proof fn lemma_wrapping_is_invisible(
    above: Seq<char>,
    a: Seq<char>,
    b: Seq<char>,
    indent: Seq<char>,
    footer: Seq<char>,
)
    requires
        a.len() > 0 && !is_whitespace(a[0]) && !is_whitespace(a.last()),
        b.len() > 0 && !is_whitespace(b[0]) && !is_whitespace(b.last()),
        !ends_a_block(b),
        forall|i: int| 0 <= i < a.len() ==> a[i] != '\n',
        forall|i: int| 0 <= i < b.len() ==> b[i] != '\n',
        forall|i: int| 0 <= i < indent.len() ==> indent[i] != '\n' && is_whitespace(indent[i]),
        footer.len() > 0,
        forall|i: int| 0 <= i < footer.len() ==> footer[i] != '\n',
    ensures
        is_quota_screen(screen_of(above + seq!['\n'] + (a + seq![' '] + b), footer))
            == is_quota_screen(screen_of(above + seq!['\n'] + a + seq!['\n'] + (indent + b), footer)),
{
    let ab = a + seq![' '] + b;
    let e = Seq::<char>::empty();
    let t = line_split(above.push('\n')).0.map_values(|l: Seq<char>| trim(l));
    let f = trim(footer);
    let k = t.len() as int;
    // The one-line screen.
    assert forall|i: int| 0 <= i < ab.len() implies ab[i] != '\n' by {
        if i < a.len() {
            assert(ab[i] == a[i]);
        } else if i > a.len() {
            assert(ab[i] == b[i - a.len() - 1]);
        }
    }
    lemma_screen_lines(above, ab, footer);
    assert(ab[0] == a[0] && ab.last() == b.last());
    lemma_trim_unchanged(ab);
    let l1 = t + seq![ab, e, seq!['›'], e, f];
    assert(trimmed_lines(screen_of(above + seq!['\n'] + ab, footer)) == l1);
    // The wrapped screen.
    let ib = indent + b;
    assert forall|i: int| 0 <= i < ib.len() implies ib[i] != '\n' by {
        if i >= indent.len() {
            assert(ib[i] == b[i - indent.len()]);
        }
    }
    let above2 = above + seq!['\n'] + a;
    lemma_screen_lines(above2, ib, footer);
    assert(screen_of(above + seq!['\n'] + a + seq!['\n'] + ib, footer) == screen_of(
        above2 + seq!['\n'] + ib,
        footer,
    ));
    lemma_trim_start_indent(indent, b);
    lemma_trim_unchanged(b);
    assert(trim(ib) == b);
    lemma_trim_unchanged(a);
    lemma_ended_line(above, a);
    assert(above2.push('\n') =~= (above.push('\n') + a).push('\n'));
    let l2 = t + seq![a, b, e, seq!['›'], e, f];
    assert(t.push(a) + seq![b, e, seq!['›'], e, f] =~= l2);
    assert(trimmed_lines(screen_of(above + seq!['\n'] + a + seq!['\n'] + ib, footer)) == l2);
    lemma_rewrapped_lines(t, a, b, f);
}

/// Ending the line `x` that follows a finished text adds that line, trimmed.
proof fn lemma_ended_line(p: Seq<char>, x: Seq<char>)
    requires
        forall|i: int| 0 <= i < x.len() ==> x[i] != '\n',
        x.len() == 0 || x.last() != '\r',
    ensures
        line_split((p.push('\n') + x).push('\n')).0.map_values(|l: Seq<char>| trim(l))
            == line_split(p.push('\n')).0.map_values(|l: Seq<char>| trim(l)).push(trim(x)),
{
    assert(p.push('\n').drop_last() =~= p);
    crate::text::lemma_line_split_append(p.push('\n'), x.push('\n'));
    assert((p.push('\n') + x).push('\n') =~= p.push('\n') + x.push('\n'));
    lemma_line_split_single(x);
    assert(x.push('\n').drop_last() =~= x);
    assert(line_split(x.push('\n')).0 =~= seq![x]);
    let d = line_split(p.push('\n')).0;
    assert((d + seq![x]).map_values(|l: Seq<char>| trim(l)) =~= d.map_values(
        |l: Seq<char>| trim(l),
    ).push(trim(x)));
}

/// The screen with the error on one line, and with it wrapped, read the same.
proof fn lemma_rewrapped_lines(t: Seq<Seq<char>>, a: Seq<char>, b: Seq<char>, f: Seq<char>)
    requires
        a.len() > 0,
        !ends_a_block(b),
    ensures
        quota_lines(t + seq![a + seq![' '] + b, Seq::<char>::empty(), seq!['›'], Seq::<char>::empty(), f])
            == quota_lines(t + seq![a, b, Seq::<char>::empty(), seq!['›'], Seq::<char>::empty(), f]),
{
    let e = Seq::<char>::empty();
    let ab = a + seq![' '] + b;
    let l1 = t + seq![ab, e, seq!['›'], e, f];
    let l2 = t + seq![a, b, e, seq!['›'], e, f];
    let k = t.len() as int;
    assert(l1.len() == k + 5 && l2.len() == k + 6);
    assert(l1[k] == ab && l1[k + 1] == e && l1[k + 2] == seq!['›'] && l1[k + 3] == e && l1[k + 4] == f);
    assert(l2[k] == a && l2[k + 1] == b && l2[k + 2] == e && l2[k + 3] == seq!['›'] && l2[k + 4] == e
        && l2[k + 5] == f);
    if begins_with_char(f, '›') {
        assert(last_beginning_with(l1, k + 5, '›') == Some(k + 4));
        assert(last_beginning_with(l2, k + 6, '›') == Some(k + 5));
        assert(!footer_follows(l1, k + 4));
        assert(!footer_follows(l2, k + 5));
    } else {
        assert(seq!['›'][0] == '›');
        assert(begins_with_char(l1[k + 2], '›') && begins_with_char(l2[k + 3], '›'));
        assert(!begins_with_char(l1[k + 3], '›') && !begins_with_char(l2[k + 4], '›'));
        assert(last_beginning_with(l1, k + 3, '›') == Some(k + 2));
        assert(last_beginning_with(l1, k + 4, '›') == Some(k + 2));
        assert(last_beginning_with(l1, k + 5, '›') == Some(k + 2));
        assert(last_beginning_with(l2, k + 4, '›') == Some(k + 3));
        assert(last_beginning_with(l2, k + 5, '›') == Some(k + 3));
        assert(last_beginning_with(l2, k + 6, '›') == Some(k + 3));
        assert(is_empty_composer(l1[k + 2]) && is_empty_composer(l2[k + 3]));
        lemma_footer_follows_suffix(l1, k + 2, l2, k + 3);
        assert(last_nonempty(l1, k + 1) == Some(k));
        assert(last_nonempty(l1, k + 2) == Some(k));
        assert(last_nonempty(l2, k + 2) == Some(k + 1));
        assert(last_nonempty(l2, k + 3) == Some(k + 1));
        lemma_last_beginning_prefix(t, seq![ab, e, seq!['›'], e, f], k, '■');
        lemma_last_beginning_prefix(t, seq![a, b, e, seq!['›'], e, f], k, '■');
        assert(ab[0] == a[0]);
        assert(!begins_with_char(b, '■'));
        assert(last_beginning_with(l2, k + 2, '■') == last_beginning_with(l2, k + 1, '■'));
        assert(last_beginning_with(l1, k + 1, '■') == last_beginning_with(l2, k + 1, '■'));
        match last_beginning_with(l1, k + 1, '■') {
            None => {},
            Some(start) => {
                lemma_last_beginning_bound(l1, k + 1, '■');
                let pre = t.subrange(start, k);
                assert(l1.subrange(start, k + 1) =~= pre.push(ab));
                assert(l2.subrange(start, k + 2) =~= pre.push(a).push(b));
                lemma_join_rewrapped(pre, a, b);
                assert(ends_a_block(ab) == ends_a_block(a));
                assert((forall|j: int| start < j <= k ==> !ends_a_block(#[trigger] l1[j])) == (
                forall|j: int| start < j <= k + 1 ==> !ends_a_block(#[trigger] l2[j]))) by {
                    if forall|j: int| start < j <= k ==> !ends_a_block(#[trigger] l1[j]) {
                        assert forall|j: int| start < j <= k + 1 implies !ends_a_block(
                            #[trigger] l2[j],
                        ) by {
                            if j < k {
                                assert(l1[j] == l2[j]);
                            } else if j == k {
                                assert(!ends_a_block(l1[k]));
                            }
                        }
                    }
                    if forall|j: int| start < j <= k + 1 ==> !ends_a_block(#[trigger] l2[j]) {
                        assert forall|j: int| start < j <= k implies !ends_a_block(
                            #[trigger] l1[j],
                        ) by {
                            if j < k {
                                assert(l1[j] == l2[j]);
                            } else {
                                assert(!ends_a_block(l2[k]));
                            }
                        }
                    }
                }
            },
        }
    }
}

} // verus!
