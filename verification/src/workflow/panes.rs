//! The live panes of a multiplexer server, and the pane ids of one window or
//! one session in the order the multiplexer issued them.

use vstd::prelude::*;
use vstd::string::StringExecFns;
use vstd::relations::{sorted_by, total_ordering};

use crate::text::{
    chars_eq, chars_lex_le, chars_of, lemma_lex_le_antisymmetric, lemma_lex_le_reflexive,
    join, lemma_lex_le_total, lemma_lex_le_transitive, lex_le,
};

verus! {

/// The views of a sequence of strings.
pub open spec fn str_views(v: Seq<String>) -> Seq<Seq<char>> {
    v.map_values(|s: String| s@)
}

pub open spec fn is_digit(c: char) -> bool {
    '0' <= c <= '9'
}

/// The number that a string of decimal digits spells.
pub open spec fn decimal_value(digits: Seq<char>) -> nat
    decreases digits.len(),
{
    if digits.len() == 0 {
        0
    } else {
        decimal_value(digits.drop_last()) * 10 + (digits.last() as nat - '0' as nat) as nat
    }
}

/// A number's text without its optional leading `+`.
pub open spec fn unsigned_part(s: Seq<char>) -> Seq<char> {
    if s.len() > 0 && s[0] == '+' {
        s.drop_first()
    } else {
        s
    }
}

pub open spec fn all_digits(s: Seq<char>) -> bool {
    forall|i: int| 0 <= i < s.len() ==> is_digit(#[trigger] s[i])
}

/// A `u64` as `str::parse::<u64>` reads it: an optional `+`, then one or more
/// decimal digits and nothing else, spelling a number that fits.
pub open spec fn parsed_u64(s: Seq<char>) -> Option<u64> {
    let digits = unsigned_part(s);
    if digits.len() > 0 && all_digits(digits) && decimal_value(digits) <= u64::MAX {
        Some(decimal_value(digits) as u64)
    } else {
        None
    }
}

/// The number a multiplexer issued a pane id with: `%` and the number.
pub open spec fn ordinal_of(pane_id: Seq<char>) -> Option<u64> {
    if pane_id.len() > 0 && pane_id[0] == '%' {
        parsed_u64(pane_id.drop_first())
    } else {
        None
    }
}

/// Where a pane id sorts: by its ordinal, and an id without one after every
/// id that has one.
pub open spec fn pane_rank(pane_id: Seq<char>) -> int {
    match ordinal_of(pane_id) {
        Some(n) => n as int,
        None => u64::MAX as int + 1,
    }
}

/// The order of pane ids: by rank, and ids of one rank lexicographically.
pub open spec fn pane_le(a: Seq<char>, b: Seq<char>) -> bool {
    pane_rank(a) < pane_rank(b) || (pane_rank(a) == pane_rank(b) && lex_le(a, b))
}

pub open spec fn pane_order() -> spec_fn(Seq<char>, Seq<char>) -> bool {
    |a: Seq<char>, b: Seq<char>| pane_le(a, b)
}

/// The pane order is a total order.
pub proof fn lemma_pane_order_total()
    ensures
        total_ordering(pane_order()),
{
    assert forall|a: Seq<char>| #[trigger] pane_order()(a, a) by {
        lemma_lex_le_reflexive(a);
    }
    assert forall|a: Seq<char>, b: Seq<char>|
        #[trigger] pane_order()(a, b) && #[trigger] pane_order()(b, a) implies a == b by {
        lemma_lex_le_antisymmetric(a, b);
    }
    assert forall|a: Seq<char>, b: Seq<char>, c: Seq<char>|
        #[trigger] pane_order()(a, b) && #[trigger] pane_order()(b, c) implies pane_order()(a, c) by {
        if pane_rank(a) == pane_rank(b) && pane_rank(b) == pane_rank(c) {
            lemma_lex_le_transitive(a, b, c);
        }
    }
    assert forall|a: Seq<char>, b: Seq<char>|
        #[trigger] pane_order()(a, b) || #[trigger] pane_order()(b, a) by {
        lemma_lex_le_total(a, b);
    }
}

proof fn lemma_decimal_prefix(digits: Seq<char>, k: int)
    requires
        0 <= k <= digits.len(),
        forall|i: int| 0 <= i < digits.len() ==> is_digit(#[trigger] digits[i]),
    ensures
        decimal_value(digits.take(k)) <= decimal_value(digits),
    decreases digits.len(),
{
    if k < digits.len() {
        let shorter = digits.drop_last();
        assert(shorter.take(k) =~= digits.take(k));
        assert forall|i: int| 0 <= i < shorter.len() implies is_digit(#[trigger] shorter[i]) by {
            assert(shorter[i] == digits[i]);
        }
        lemma_decimal_prefix(shorter, k);
    } else {
        assert(digits.take(k) =~= digits);
    }
}

/// The number a multiplexer issued a pane with, read from its id.
pub fn pane_ordinal(pane_id: &str) -> (r: Option<u64>)
    ensures
        r == ordinal_of(pane_id@),
{
    let chars = chars_of(pane_id);
    if chars.len() == 0 || chars[0] != '%' {
        return None;
    }
    let ghost rest = pane_id@.drop_first();
    let mut start: usize = 1;
    if chars.len() > 1 && chars[1] == '+' {
        start = 2;
    }
    let ghost digits = pane_id@.skip(start as int);
    assert(digits =~= unsigned_part(rest));
    if start == chars.len() {
        return None;
    }
    let mut value: u64 = 0;
    let mut overflowed = false;
    let ghost mut witness: int = 0;
    let mut i: usize = start;
    while i < chars.len()
        invariant
            start <= i <= chars@.len(),
            chars@ == pane_id@,
            digits == chars@.skip(start as int),
            pane_id@.len() > 0 && pane_id@[0] == '%',
            rest == pane_id@.drop_first(),
            digits == unsigned_part(rest),
            forall|j: int| 0 <= j < i - start ==> is_digit(#[trigger] digits[j]),
            !overflowed ==> value == decimal_value(digits.take(i - start)),
            overflowed ==> 0 <= witness <= i - start && decimal_value(digits.take(witness))
                > u64::MAX,
        decreases chars.len() - i,
    {
        let c = chars[i];
        if !('0' <= c && c <= '9') {
            assert(!is_digit(digits[i - start]));
            return None;
        }
        if !overflowed {
            let d = (c as u32 - '0' as u32) as u64;
            assert(digits.take(i + 1 - start).drop_last() =~= digits.take(i - start));
            match value.checked_mul(10) {
                None => {
                    overflowed = true;
                    proof {
                        witness = i + 1 - start;
                    }
                },
                Some(v) => match v.checked_add(d) {
                    None => {
                        overflowed = true;
                        proof {
                            witness = i + 1 - start;
                        }
                    },
                    Some(w) => {
                        value = w;
                    },
                },
            }
        }
        i = i + 1;
    }
    if overflowed {
        proof {
            lemma_decimal_prefix(digits, witness);
        }
        return None;
    }
    assert(digits.take(digits.len() as int) =~= digits);
    Some(value)
}

/// Whether pane id `a` sorts before `b`, or is `b`.
fn pane_precedes(a: &str, b: &str) -> (r: bool)
    ensures
        r == pane_le(a@, b@),
{
    let ordered = match (pane_ordinal(a), pane_ordinal(b)) {
        (Some(m), Some(n)) => if m != n {
            Some(m < n)
        } else {
            None
        },
        (Some(_), None) => Some(true),
        (None, Some(_)) => Some(false),
        (None, None) => None,
    };
    match ordered {
        Some(before) => before,
        None => {
            let chars_a = chars_of(a);
            let chars_b = chars_of(b);
            chars_lex_le(chars_a.as_slice(), chars_b.as_slice())
        },
    }
}

/// Pane ids in the order the multiplexer issued them.
///
/// `%9` before `%10`: a caller that records the first pane as the one it
/// started something in must get the same answer on every call, and a
/// lexicographic sort silently reorders itself as a server passes ten panes.
/// A backend that spells pane ids some other way sorts after the numeric ones
/// rather than ahead of them, and lexicographically among themselves: the
/// order still has to be total and stable.
pub fn sorted_pane_ids(pane_ids: Vec<String>) -> (r: Vec<String>)
    ensures
        str_views(r@) == str_views(pane_ids@).sort_by(pane_order()),
{
    broadcast use vstd::seq_lib::group_to_multiset_ensures;

    proof {
        lemma_pane_order_total();
    }
    let mut sorted: Vec<String> = Vec::new();
    let mut i: usize = 0;
    while i < pane_ids.len()
        invariant
            i <= pane_ids@.len(),
            total_ordering(pane_order()),
            sorted_by(str_views(sorted@), pane_order()),
            str_views(sorted@).to_multiset() == str_views(pane_ids@.take(i as int)).to_multiset(),
        decreases pane_ids.len() - i,
    {
        let id = pane_ids[i].clone();
        let mut j: usize = 0;
        while j < sorted.len() && pane_precedes(sorted[j].as_str(), id.as_str())
            invariant
                j <= sorted@.len(),
                forall|k: int| 0 <= k < j ==> pane_le(#[trigger] sorted@[k]@, id@),
            decreases sorted.len() - j,
        {
            j = j + 1;
        }
        let ghost before = str_views(sorted@);
        proof {
            if j < sorted@.len() {
                assert(!pane_order()(before[j as int], id@));
                assert(pane_order()(id@, before[j as int]));
            }
        }
        sorted.insert(j, id);
        assert(str_views(sorted@) =~= before.insert(j as int, id@));
        assert(str_views(pane_ids@.take(i + 1)) =~= str_views(pane_ids@.take(i as int)).push(id@));
        proof {
            vstd::seq_lib::to_multiset_insert(before, j as int, id@);
            vstd::seq_lib::to_multiset_build(str_views(pane_ids@.take(i as int)), id@);
        }
        assert forall|a: int, b: int|
            0 <= a < b < str_views(sorted@).len() implies #[trigger] pane_order()(
            str_views(sorted@)[a],
            str_views(sorted@)[b],
        ) by {
            let t = str_views(sorted@);
            if b < j {
                assert(pane_order()(before[a], before[b]));
            } else if b == j {
                assert(pane_le(sorted@[a]@, id@));
            } else if a == j {
                assert(pane_order()(before[j as int], before[b - 1]) || j == b - 1);
                if j < b - 1 {
                    assert(pane_order()(id@, before[j as int]));
                }
            } else if a < j {
                assert(pane_le(before[a], id@));
                assert(pane_order()(id@, before[j as int]));
                if j < b - 1 {
                    assert(pane_order()(before[j as int], before[b - 1]));
                }
            } else {
                assert(pane_order()(before[a - 1], before[b - 1]));
            }
        }
        i = i + 1;
    }
    proof {
        assert(pane_ids@.take(pane_ids@.len() as int) =~= pane_ids@);
        str_views(pane_ids@).lemma_sort_by_ensures(pane_order());
        vstd::seq_lib::lemma_sorted_unique(
            str_views(sorted@),
            str_views(pane_ids@).sort_by(pane_order()),
            pane_order(),
        );
    }
    sorted
}

pub fn str_eq(a: &str, b: &str) -> (r: bool)
    ensures
        r == (a@ == b@),
{
    let chars_a = chars_of(a);
    let chars_b = chars_of(b);
    chars_eq(chars_a.as_slice(), chars_b.as_slice())
}

/// A string option by its view.
pub open spec fn opt_view(o: Option<String>) -> Option<Seq<char>> {
    match o {
        Some(s) => Some(s@),
        None => None,
    }
}

pub fn clone_opt(o: &Option<String>) -> (r: Option<String>)
    ensures
        opt_view(r) == opt_view(*o),
{
    match o {
        Some(s) => Some(s.clone()),
        None => None,
    }
}

pub fn clone_strings(v: &Vec<String>) -> (r: Vec<String>)
    ensures
        str_views(r@) == str_views(v@),
{
    let mut r: Vec<String> = Vec::new();
    let mut i: usize = 0;
    while i < v.len()
        invariant
            i <= v@.len(),
            str_views(r@) == str_views(v@.take(i as int)),
        decreases v.len() - i,
    {
        r.push(v[i].clone());
        assert(str_views(v@.take(i + 1)) =~= str_views(v@.take(i as int)).push(v@[i as int]@));
        i = i + 1;
    }
    assert(v@.take(v@.len() as int) =~= v@);
    r
}

/// Appends the strings, with `sep` between each two of them.
pub fn push_joined(out: &mut String, items: &Vec<String>, sep: &str)
    ensures
        final(out)@ == old(out)@ + join(str_views(items@), sep@),
{
    let ghost start = out@;
    let mut i: usize = 0;
    assert(join(str_views(items@).take(0), sep@) =~= Seq::<char>::empty());
    while i < items.len()
        invariant
            i <= items@.len(),
            out@ == start + join(str_views(items@).take(i as int), sep@),
        decreases items.len() - i,
    {
        if i > 0 {
            out.append(sep);
        }
        out.append(items[i].as_str());
        let ghost pieces = str_views(items@).take(i + 1);
        assert(pieces.drop_last() =~= str_views(items@).take(i as int));
        assert(pieces.last() == items@[i as int]@);
        assert(out@ =~= start + join(pieces, sep@));
        i = i + 1;
    }
    assert(str_views(items@).take(items@.len() as int) =~= str_views(items@));
}

/// What the identity lookup reads of one live pane: the session, the window
/// name and the stable window id it belongs to, as far as the backend reports
/// them.
#[derive(Debug)]
pub struct LivePaneInfo {
    pub session: Option<String>,
    pub window: Option<String>,
    pub window_id: Option<String>,
}

pub struct LivePaneView {
    pub session: Option<Seq<char>>,
    pub window: Option<Seq<char>>,
    pub window_id: Option<Seq<char>>,
}

impl View for LivePaneInfo {
    type V = LivePaneView;

    open spec fn view(&self) -> LivePaneView {
        LivePaneView {
            session: opt_view(self.session),
            window: opt_view(self.window),
            window_id: opt_view(self.window_id),
        }
    }
}

impl LivePaneInfo {
    pub fn duplicate(&self) -> (r: LivePaneInfo)
        ensures
            r@ == self@,
    {
        LivePaneInfo {
            session: clone_opt(&self.session),
            window: clone_opt(&self.window),
            window_id: clone_opt(&self.window_id),
        }
    }
}

/// The map that a list of entries with distinct keys stands for.
pub open spec fn entries_map<K, V>(entries: Seq<(K, V)>) -> Map<K, V>
    decreases entries.len(),
{
    if entries.len() == 0 {
        Map::empty()
    } else {
        entries_map(entries.drop_last()).insert(entries.last().0, entries.last().1)
    }
}

pub open spec fn keys_distinct<K, V>(entries: Seq<(K, V)>) -> bool {
    forall|i: int, j: int|
        0 <= i < entries.len() && 0 <= j < entries.len() && i != j ==> entries[i].0
            != entries[j].0
}

proof fn lemma_entries_map_at<K, V>(entries: Seq<(K, V)>, i: int)
    requires
        keys_distinct(entries),
        0 <= i < entries.len(),
    ensures
        entries_map(entries).contains_key(entries[i].0),
        entries_map(entries)[entries[i].0] == entries[i].1,
    decreases entries.len(),
{
    if i < entries.len() - 1 {
        let shorter = entries.drop_last();
        assert(shorter[i] == entries[i]);
        lemma_entries_map_at(shorter, i);
        assert(entries.last().0 != entries[i].0);
    }
}

proof fn lemma_entries_map_dom<K, V>(entries: Seq<(K, V)>, k: K)
    requires
        entries_map(entries).contains_key(k),
    ensures
        exists|i: int| 0 <= i < entries.len() && (#[trigger] entries[i]).0 == k,
    decreases entries.len(),
{
    if entries.last().0 != k {
        let shorter = entries.drop_last();
        lemma_entries_map_dom(shorter, k);
        let i = choose|i: int| 0 <= i < shorter.len() && (#[trigger] shorter[i]).0 == k;
        assert(entries[i] == shorter[i]);
    } else {
        assert(entries[entries.len() - 1].0 == k);
    }
}

proof fn lemma_entries_map_update<K, V>(entries: Seq<(K, V)>, p: int, v: V)
    requires
        keys_distinct(entries),
        0 <= p < entries.len(),
    ensures
        entries_map(entries.update(p, (entries[p].0, v))) =~= entries_map(entries).insert(
            entries[p].0,
            v,
        ),
    decreases entries.len(),
{
    let k = entries[p].0;
    let updated = entries.update(p, (k, v));
    if p == entries.len() - 1 {
        assert(updated.drop_last() =~= entries.drop_last());
    } else {
        let shorter = entries.drop_last();
        assert(updated.drop_last() =~= shorter.update(p, (k, v)));
        assert(shorter[p] == entries[p]);
        lemma_entries_map_update(shorter, p, v);
        assert(entries.last().0 != k);
    }
}

/// The live panes of a multiplexer server, keyed by pane id.
#[derive(Debug)]
pub struct PaneSnapshot {
    entries: Vec<(String, LivePaneInfo)>,
}

impl PaneSnapshot {
    pub closed spec fn entry_views(&self) -> Seq<(Seq<char>, LivePaneView)> {
        self.entries@.map_values(|e: (String, LivePaneInfo)| (e.0@, e.1@))
    }

    #[verifier::type_invariant]
    closed spec fn ids_distinct(&self) -> bool {
        keys_distinct(self.entry_views())
    }
}

impl View for PaneSnapshot {
    type V = Map<Seq<char>, LivePaneView>;

    closed spec fn view(&self) -> Map<Seq<char>, LivePaneView> {
        entries_map(self.entry_views())
    }
}

impl PaneSnapshot {
    /// A snapshot with no panes.
    pub fn new() -> (r: PaneSnapshot)
        ensures
            r@ == Map::<Seq<char>, LivePaneView>::empty(),
    {
        let r = PaneSnapshot { entries: Vec::new() };
        assert(r.entry_views() =~= Seq::<(Seq<char>, LivePaneView)>::empty());
        r
    }

    /// Records a pane under its id, replacing what was recorded under that id.
    pub fn insert(&mut self, pane_id: String, info: LivePaneInfo)
        ensures
            final(self)@ == old(self)@.insert(pane_id@, info@),
    {
        proof {
            use_type_invariant(&*self);
        }
        let ghost before = self.entry_views();
        let mut entries: Vec<(String, LivePaneInfo)> = Vec::new();
        std::mem::swap(&mut entries, &mut self.entries);
        assert(entries@.map_values(|e: (String, LivePaneInfo)| (e.0@, e.1@)) == before);
        let mut p: usize = 0;
        while p < entries.len() && !(entries[p].0 == pane_id)
            invariant
                p <= entries@.len(),
                entries@.map_values(|e: (String, LivePaneInfo)| (e.0@, e.1@)) == before,
                forall|k: int| 0 <= k < p ==> (#[trigger] before[k]).0 != pane_id@,
            decreases entries.len() - p,
        {
            assert(before[p as int].0 == entries@[p as int].0@);
            p = p + 1;
        }
        if p < entries.len() {
            assert(before[p as int].0 == pane_id@) by {
                assert(before[p as int].0 == entries@[p as int].0@);
            }
            entries.set(p, (pane_id, info));
            proof {
                lemma_entries_map_update(before, p as int, info@);
            }
            let ghost after = entries@.map_values(|e: (String, LivePaneInfo)| (e.0@, e.1@));
            assert(after =~= before.update(p as int, (pane_id@, info@)));
            assert(keys_distinct(after)) by {
                assert forall|i: int, j: int|
                    0 <= i < after.len() && 0 <= j < after.len() && i != j implies after[i].0
                    != after[j].0 by {
                    assert(after[i].0 == before[i].0);
                    assert(after[j].0 == before[j].0);
                }
            }
        } else {
            let ghost key = pane_id@;
            let ghost value = info@;
            entries.push((pane_id, info));
            let ghost after = entries@.map_values(|e: (String, LivePaneInfo)| (e.0@, e.1@));
            assert(after =~= before.push((key, value)));
            assert(after.drop_last() =~= before);
        }
        self.entries = entries;
    }

    /// The pane recorded under an id.
    pub fn get(&self, pane_id: &str) -> (r: Option<&LivePaneInfo>)
        ensures
            match r {
                Some(info) => self@.contains_key(pane_id@) && info@ == self@[pane_id@],
                None => !self@.contains_key(pane_id@),
            },
    {
        proof {
            use_type_invariant(self);
        }
        let ghost views = self.entry_views();
        let mut p: usize = 0;
        while p < self.entries.len()
            invariant
                p <= self.entries@.len(),
                views == self.entry_views(),
                keys_distinct(views),
                forall|k: int| 0 <= k < p ==> (#[trigger] views[k]).0 != pane_id@,
            decreases self.entries.len() - p,
        {
            let entry = &self.entries[p];
            assert(views[p as int] == (entry.0@, entry.1@));
            if str_eq(entry.0.as_str(), pane_id) {
                proof {
                    lemma_entries_map_at(views, p as int);
                }
                return Some(&entry.1);
            }
            p = p + 1;
        }
        proof {
            if entries_map(views).contains_key(pane_id@) {
                lemma_entries_map_dom(views, pane_id@);
            }
        }
        None
    }
}

/// An optional string slice by its view.
pub open spec fn opt_str_view(o: Option<&str>) -> Option<Seq<char>> {
    match o {
        Some(s) => Some(s@),
        None => None,
    }
}

fn opt_str_eq(a: &Option<String>, b: &str) -> (r: bool)
    ensures
        r == (opt_view(*a) == Some(b@)),
{
    match a {
        Some(s) => str_eq(s.as_str(), b),
        None => false,
    }
}

/// Whether a pane belongs to a window: by the window's stable id when there
/// is one; else by its name, narrowed to the parent session when one is known.
pub open spec fn in_window(
    pane: LivePaneView,
    window_id: Option<Seq<char>>,
    window_name: Seq<char>,
    parent_session: Option<Seq<char>>,
) -> bool {
    match window_id {
        Some(id) => pane.window_id == Some(id),
        None => pane.window == Some(window_name) && match parent_session {
            Some(session) => pane.session == Some(session),
            None => true,
        },
    }
}

/// Whether a pane belongs to a session.
pub open spec fn in_session(pane: LivePaneView, session: Seq<char>) -> bool {
    pane.session == Some(session)
}

/// The ids of the panes of a window.
pub open spec fn window_pane_set(
    panes: Map<Seq<char>, LivePaneView>,
    window_id: Option<Seq<char>>,
    window_name: Seq<char>,
    parent_session: Option<Seq<char>>,
) -> Set<Seq<char>> {
    panes.dom().filter(|id: Seq<char>| in_window(panes[id], window_id, window_name, parent_session))
}

/// The ids of the panes of a session.
pub open spec fn session_pane_set(panes: Map<Seq<char>, LivePaneView>, session: Seq<char>) -> Set<
    Seq<char>,
> {
    panes.dom().filter(|id: Seq<char>| in_session(panes[id], session))
}

/// `ids` lists the set `ids_wanted`, each id once, in pane order.
pub open spec fn lists_in_pane_order(ids: Seq<Seq<char>>, ids_wanted: Set<Seq<char>>) -> bool {
    &&& sorted_by(ids, pane_order())
    &&& ids.no_duplicates()
    &&& ids.to_set() == ids_wanted
}

enum PaneSelector<'a> {
    Window { window_id: Option<&'a str>, window_name: &'a str, parent_session: Option<&'a str> },
    Session(&'a str),
}

spec fn selects(selector: PaneSelector, pane: LivePaneView) -> bool {
    match selector {
        PaneSelector::Window { window_id, window_name, parent_session } => in_window(
            pane,
            opt_str_view(window_id),
            window_name@,
            opt_str_view(parent_session),
        ),
        PaneSelector::Session(session) => in_session(pane, session@),
    }
}

fn selects_pane(selector: &PaneSelector, pane: &LivePaneInfo) -> (r: bool)
    ensures
        r == selects(*selector, pane@),
{
    match selector {
        PaneSelector::Window { window_id, window_name, parent_session } => match window_id {
            Some(id) => opt_str_eq(&pane.window_id, id),
            None => {
                opt_str_eq(&pane.window, window_name) && match parent_session {
                    Some(session) => opt_str_eq(&pane.session, session),
                    None => true,
                }
            },
        },
        PaneSelector::Session(session) => opt_str_eq(&pane.session, session),
    }
}

/// Sorting keeps the ids and their being distinct.
proof fn lemma_sort_keeps_ids(ids: Seq<Seq<char>>)
    requires
        ids.no_duplicates(),
    ensures
        ids.sort_by(pane_order()).no_duplicates(),
        ids.sort_by(pane_order()).to_set() == ids.to_set(),
        sorted_by(ids.sort_by(pane_order()), pane_order()),
{
    broadcast use vstd::seq_lib::group_to_multiset_ensures;

    lemma_pane_order_total();
    ids.lemma_sort_by_ensures(pane_order());
    let sorted = ids.sort_by(pane_order());
    ids.lemma_multiset_has_no_duplicates();
    sorted.lemma_multiset_has_no_duplicates_conv();
    assert(sorted.to_set() =~= ids.to_set()) by {
        assert forall|x: Seq<char>| sorted.to_set().contains(x) <==> ids.to_set().contains(x) by {
            assert(sorted.contains(x) <==> sorted.to_multiset().count(x) > 0);
            assert(ids.contains(x) <==> ids.to_multiset().count(x) > 0);
        }
    }
}

impl PaneSnapshot {
    /// The ids of the panes a selector selects, each once, in no set order.
    fn selected_ids(&self, selector: &PaneSelector) -> (r: Vec<String>)
        ensures
            str_views(r@).no_duplicates(),
            str_views(r@).to_set() == self@.dom().filter(
                |id: Seq<char>| selects(*selector, self@[id]),
            ),
    {
        proof {
            use_type_invariant(self);
        }
        let ghost views = self.entry_views();
        let mut r: Vec<String> = Vec::new();
        let mut p: usize = 0;
        while p < self.entries.len()
            invariant
                p <= self.entries@.len(),
                views == self.entry_views(),
                keys_distinct(views),
                str_views(r@).no_duplicates(),
                forall|x: Seq<char>|
                    str_views(r@).contains(x) <==> exists|i: int|
                        0 <= i < p && (#[trigger] views[i]).0 == x && selects(
                            *selector,
                            views[i].1,
                        ),
            decreases self.entries.len() - p,
        {
            let entry = &self.entries[p];
            assert(views[p as int] == (entry.0@, entry.1@));
            if selects_pane(selector, &entry.1) {
                let ghost before = str_views(r@);
                r.push(entry.0.clone());
                assert(str_views(r@) =~= before.push(entry.0@));
                assert(!before.contains(entry.0@)) by {
                    if before.contains(entry.0@) {
                        let i = choose|i: int|
                            0 <= i < p && (#[trigger] views[i]).0 == entry.0@ && selects(
                                *selector,
                                views[i].1,
                            );
                        assert(views[i].0 != views[p as int].0);
                    }
                }
                assert forall|x: Seq<char>|
                    str_views(r@).contains(x) <==> exists|i: int|
                        0 <= i < p + 1 && (#[trigger] views[i]).0 == x && selects(
                            *selector,
                            views[i].1,
                        ) by {
                    if str_views(r@).contains(x) {
                        if x == entry.0@ {
                            assert(views[p as int].0 == x);
                        } else {
                            assert(before.contains(x)) by {
                                let k = choose|k: int|
                                    0 <= k < str_views(r@).len() && str_views(r@)[k] == x;
                                assert(k < before.len());
                                assert(before[k] == x);
                            }
                        }
                    }
                    if exists|i: int|
                        0 <= i < p + 1 && (#[trigger] views[i]).0 == x && selects(
                            *selector,
                            views[i].1,
                        ) {
                        let i = choose|i: int|
                            0 <= i < p + 1 && (#[trigger] views[i]).0 == x && selects(
                                *selector,
                                views[i].1,
                            );
                        if i == p {
                            assert(str_views(r@)[before.len() as int] == x);
                        } else {
                            assert(before.contains(x));
                            let k = choose|k: int| 0 <= k < before.len() && before[k] == x;
                            assert(str_views(r@)[k] == x);
                        }
                    }
                }
            }
            p = p + 1;
        }
        assert(str_views(r@).to_set() =~= self@.dom().filter(
            |id: Seq<char>| selects(*selector, self@[id]),
        )) by {
            assert forall|x: Seq<char>|
                str_views(r@).to_set().contains(x) implies self@.dom().filter(
                |id: Seq<char>| selects(*selector, self@[id]),
            ).contains(x) by {
                let i = choose|i: int|
                    0 <= i < p && (#[trigger] views[i]).0 == x && selects(*selector, views[i].1);
                lemma_entries_map_at(views, i);
            }
            assert forall|x: Seq<char>|
                self@.dom().filter(|id: Seq<char>| selects(*selector, self@[id])).contains(
                    x,
                ) implies str_views(r@).to_set().contains(x) by {
                lemma_entries_map_dom(views, x);
                let i = choose|i: int| 0 <= i < views.len() && (#[trigger] views[i]).0 == x;
                lemma_entries_map_at(views, i);
            }
        }
        r
    }
}

/// Every pane of one window, in a stable order.
///
/// Matched by stable window id when there is one. The name is the fallback,
/// and it is a weaker one: names are not unique across sessions, so a parent
/// session narrows it when the caller knows one.
pub fn panes_in_window(
    panes: &PaneSnapshot,
    window_id: Option<&str>,
    window_name: &str,
    parent_session: Option<&str>,
) -> (r: Vec<String>)
    ensures
        lists_in_pane_order(
            str_views(r@),
            window_pane_set(
                panes@,
                opt_str_view(window_id),
                window_name@,
                opt_str_view(parent_session),
            ),
        ),
{
    let selector = PaneSelector::Window { window_id, window_name, parent_session };
    let matched = panes.selected_ids(&selector);
    let r = sorted_pane_ids(matched);
    proof {
        lemma_sort_keeps_ids(str_views(matched@));
        assert(panes@.dom().filter(|id: Seq<char>| selects(selector, panes@[id])) =~= window_pane_set(
            panes@,
            opt_str_view(window_id),
            window_name@,
            opt_str_view(parent_session),
        ));
    }
    r
}

/// Every pane of one session, in a stable order.
pub fn panes_in_session(panes: &PaneSnapshot, session: &str) -> (r: Vec<String>)
    ensures
        lists_in_pane_order(str_views(r@), session_pane_set(panes@, session@)),
{
    let selector = PaneSelector::Session(session);
    let matched = panes.selected_ids(&selector);
    let r = sorted_pane_ids(matched);
    proof {
        lemma_sort_keeps_ids(str_views(matched@));
        assert(panes@.dom().filter(|id: Seq<char>| selects(selector, panes@[id]))
            =~= session_pane_set(panes@, session@));
    }
    r
}

/// Pane ids sort the same whatever order they arrive in: the order never
/// depends on how a hash map happened to hand them over.
pub proof fn lemma_pane_order_ignores_arrival(a: Seq<Seq<char>>, b: Seq<Seq<char>>)
    requires
        a.to_multiset() == b.to_multiset(),
    ensures
        a.sort_by(pane_order()) == b.sort_by(pane_order()),
{
    lemma_pane_order_total();
    a.lemma_sort_by_ensures(pane_order());
    b.lemma_sort_by_ensures(pane_order());
    vstd::seq_lib::lemma_sorted_unique(a.sort_by(pane_order()), b.sort_by(pane_order()), pane_order());
}

/// Ids the multiplexer issued sort by the number it issued them with: `%9`
/// before `%10`.
pub proof fn lemma_issue_order(a: Seq<char>, b: Seq<char>, m: u64, n: u64)
    requires
        ordinal_of(a) == Some(m),
        ordinal_of(b) == Some(n),
        m < n,
    ensures
        pane_le(a, b),
        !pane_le(b, a),
{
}

/// An id spelled some other way sorts after every numbered id.
pub proof fn lemma_numbered_before_unnumbered(a: Seq<char>, b: Seq<char>, m: u64)
    requires
        ordinal_of(a) == Some(m),
        ordinal_of(b) is None,
    ensures
        pane_le(a, b),
        !pane_le(b, a),
{
}

/// A set of pane ids has exactly one listing in pane order: the pane list of
/// a window or a session is the same on every call over the same panes.
pub proof fn lemma_pane_listing_unique(x: Seq<Seq<char>>, y: Seq<Seq<char>>, ids: Set<Seq<char>>)
    requires
        lists_in_pane_order(x, ids),
        lists_in_pane_order(y, ids),
    ensures
        x == y,
{
    broadcast use vstd::seq_lib::group_to_multiset_ensures;
    broadcast use vstd::multiset::group_multiset_axioms;

    lemma_pane_order_total();
    x.lemma_multiset_has_no_duplicates();
    y.lemma_multiset_has_no_duplicates();
    assert(x.to_multiset() =~= y.to_multiset()) by {
        assert forall|v: Seq<char>| x.to_multiset().count(v) == y.to_multiset().count(v) by {
            assert(x.contains(v) == x.to_set().contains(v));
            assert(y.contains(v) == y.to_set().contains(v));
            if x.contains(v) {
                assert(x.to_multiset().contains(v));
                assert(y.to_multiset().contains(v));
            }
        }
    }
    vstd::seq_lib::lemma_sorted_unique(x, y, pane_order());
}

/// Without a window id, a parent session only narrows a window's panes: every
/// pane it keeps is one the name alone selects, and both lists keep pane
/// order, so the narrowed list is a subsequence of the other.
pub proof fn lemma_parent_session_only_narrows(
    panes: Map<Seq<char>, LivePaneView>,
    window_name: Seq<char>,
    session: Seq<char>,
    narrowed: Seq<Seq<char>>,
    by_name: Seq<Seq<char>>,
)
    requires
        lists_in_pane_order(narrowed, window_pane_set(panes, None, window_name, Some(session))),
        lists_in_pane_order(by_name, window_pane_set(panes, None, window_name, None)),
    ensures
        window_pane_set(panes, None, window_name, Some(session)).subset_of(
            window_pane_set(panes, None, window_name, None),
        ),
        forall|id: Seq<char>| narrowed.contains(id) ==> by_name.contains(id),
{
    assert forall|id: Seq<char>| narrowed.contains(id) implies by_name.contains(id) by {
        assert(narrowed.to_set().contains(id));
        assert(by_name.to_set().contains(id));
    }
}

/// A window id alone decides a window's panes: its name and parent session
/// change nothing.
pub proof fn lemma_window_id_alone_decides(
    panes: Map<Seq<char>, LivePaneView>,
    window_id: Seq<char>,
    name1: Seq<char>,
    session1: Option<Seq<char>>,
    name2: Seq<char>,
    session2: Option<Seq<char>>,
    list1: Seq<Seq<char>>,
    list2: Seq<Seq<char>>,
)
    requires
        lists_in_pane_order(list1, window_pane_set(panes, Some(window_id), name1, session1)),
        lists_in_pane_order(list2, window_pane_set(panes, Some(window_id), name2, session2)),
    ensures
        window_pane_set(panes, Some(window_id), name1, session1) == window_pane_set(
            panes,
            Some(window_id),
            name2,
            session2,
        ),
        list1 == list2,
{
    assert(window_pane_set(panes, Some(window_id), name1, session1) =~= window_pane_set(
        panes,
        Some(window_id),
        name2,
        session2,
    ));
    lemma_pane_listing_unique(
        list1,
        list2,
        window_pane_set(panes, Some(window_id), name1, session1),
    );
}

} // verus!
