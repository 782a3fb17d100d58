//! The launcher menu of nog: a filter line over a list of programs that are
//! ranked by a fuzzy matcher, or, when the filter starts with `$`, Lua code
//! that runs on the nog server. The menu reacts to messages and answers each
//! with a command that the program around it carries out.
use vstd::prelude::*;
use crate::client::{outcome_of, ClientError, LuaOutcome};
use crate::text::{chars_of, ends_with, join, spec_ends_with, push_str, spec_join, spec_split, split_chars, string_from_chars, views, lemma_split_len};

verus! {

broadcast use vstd::seq_lib::group_to_multiset_ensures;

#[derive(Debug, Clone, Copy, PartialEq, Eq, Structural)]
pub enum MenuMode {
    Files,
    ExecuteLua,
}

/// A program that the menu offers: the file `name` in the directory `path`.
#[derive(Debug, Clone)]
pub struct ResultItem {
    pub path: String,
    pub name: String,
}

impl ResultItem {
    /// The text that the menu shows and matches against: the file name.
    pub fn get_text(&self) -> (r: &str)
        ensures
            r@ == self.name@,
    {
        self.name.as_str()
    }

    /// The path that submitting the item starts: the directory, a backslash and
    /// the file name.
    pub fn submit_path(&self) -> (r: String)
        ensures
            r@ == self.path@ + seq!['\\'] + self.name@,
    {
        let mut r = string_from_chars(&[]);
        push_str(&mut r, self.path.as_str());
        let sep = string_from_chars(&['\\']);
        push_str(&mut r, sep.as_str());
        push_str(&mut r, self.name.as_str());
        assert(r@ =~= self.path@ + seq!['\\'] + self.name@);
        r
    }
}

/// A start menu entry that the menu offers: a shortcut.
pub open spec fn is_program_link(name: Seq<char>) -> bool {
    spec_ends_with(name, seq!['.', 'l', 'n', 'k'])
}

/// A desktop entry that the menu offers: a shortcut or a program.
pub open spec fn is_desktop_program_name(name: Seq<char>) -> bool {
    is_program_link(name) || spec_ends_with(name, seq!['.', 'e', 'x', 'e'])
}

/// Whether a file of the start menu with the name `name` is offered.
pub fn is_start_menu_program(name: &str) -> (r: bool)
    ensures
        r == is_program_link(name@),
{
    let lnk = string_from_chars(&['.', 'l', 'n', 'k']);
    ends_with(name, lnk.as_str())
}

/// Whether a file of the desktop with the name `name` is offered.
pub fn is_desktop_program(name: &str) -> (r: bool)
    ensures
        r == is_desktop_program_name(name@),
{
    let exe = string_from_chars(&['.', 'e', 'x', 'e']);
    is_start_menu_program(name) || ends_with(name, exe.as_str())
}

/// The programs that a number of searches, running side by side, send; each
/// search sends `None` when it is done.
#[derive(Debug)]
pub struct ProgramSearch {
    pub searches: usize,
    pub done: usize,
    pub items: Vec<ResultItem>,
}

impl ProgramSearch {
    /// Some search is still running.
    pub open spec fn wf(&self) -> bool {
        self.done < self.searches
    }

    /// Waits for `searches` searches, none of which has sent anything yet.
    pub fn new(searches: usize) -> (r: Self)
        requires
            searches > 0,
        ensures
            r.wf(),
            r.searches == searches,
            r.done == 0,
            r.items@.len() == 0,
    {
        ProgramSearch { searches, done: 0, items: Vec::new() }
    }

    /// Takes what a search sent: a program is kept; `None` counts a search as
    /// done. The answer is whether all searches are done.
    pub fn receive(&mut self, item: Option<ResultItem>) -> (finished: bool)
        requires
            old(self).wf(),
        ensures
            final(self).searches == old(self).searches,
            finished == (final(self).done == final(self).searches),
            !finished ==> final(self).wf(),
            match item {
                Some(it) => final(self).items@ == old(self).items@.push(it) && final(self).done == old(self).done,
                None => final(self).items@ == old(self).items@ && final(self).done == old(self).done + 1,
            },
    {
        match item {
            Some(it) => {
                self.items.push(it);
                false
            },
            None => {
                self.done = self.done + 1;
                self.done == self.searches
            },
        }
    }
}

/// The score that skim's fuzzy matcher, in its default configuration (smart
/// case), gives the text `choice` for the pattern `pattern`; `None` where the
/// pattern does not match.
pub uninterp spec fn skim_score(choice: Seq<char>, pattern: Seq<char>) -> Option<i64>;

/// Calls `FuzzyMatcher::fuzzy_match` of a `SkimMatcherV2` in its default
/// configuration. Its result is named, not stated; its source returns `Some(0)`
/// for an empty pattern before it compares anything.
#[verifier::external_body]
fn fuzzy_score(choice: &str, pattern: &str) -> (r: Option<i64>)
    ensures
        r == skim_score(choice@, pattern@),
        pattern@.len() == 0 ==> r == Some(0i64),
{
    fuzzy_matcher::FuzzyMatcher::fuzzy_match(&fuzzy_matcher::skim::SkimMatcherV2::default(), choice, pattern)
}

/// The entries of `scores` that hold a score, each as its index and its score,
/// in the order of the indices.
pub open spec fn scored(scores: Seq<Option<i64>>) -> Seq<(usize, i64)>
    decreases scores.len(),
{
    if scores.len() == 0 {
        Seq::empty()
    } else {
        let rest = scored(scores.drop_last());
        match scores.last() {
            Some(s) => rest.push(((scores.len() - 1) as usize, s)),
            None => rest,
        }
    }
}

/// `x` put into `sorted` after every entry whose score is not above its own.
pub open spec fn insert_by_score(sorted: Seq<(usize, i64)>, x: (usize, i64)) -> Seq<(usize, i64)>
    decreases sorted.len(),
{
    if sorted.len() == 0 {
        seq![x]
    } else if sorted.last().1 <= x.1 {
        sorted.push(x)
    } else {
        insert_by_score(sorted.drop_last(), x).push(sorted.last())
    }
}

/// `s` ordered by ascending score, entries with equal scores in the order they
/// had (a stable sort by score).
pub open spec fn sort_by_score(s: Seq<(usize, i64)>) -> Seq<(usize, i64)>
    decreases s.len(),
{
    if s.len() == 0 {
        Seq::empty()
    } else {
        insert_by_score(sort_by_score(s.drop_last()), s.last())
    }
}

pub open spec fn indices_of(s: Seq<(usize, i64)>) -> Seq<usize> {
    s.map_values(|p: (usize, i64)| p.0)
}

/// The indices of the matching entries of `scores`, lowest score first, equal
/// scores in the order of the indices.
pub open spec fn ranked(scores: Seq<Option<i64>>) -> Seq<usize> {
    indices_of(sort_by_score(scored(scores)))
}

pub open spec fn sorted_by_score(s: Seq<(usize, i64)>) -> bool {
    forall|i: int, j: int| 0 <= i < j < s.len() ==> s[i].1 <= s[j].1
}

proof fn lemma_insert_at(s: Seq<(usize, i64)>, x: (usize, i64), j: int)
    requires
        0 <= j <= s.len(),
        forall|k: int| j <= k < s.len() ==> s[k].1 > x.1,
        j == 0 || s[j - 1].1 <= x.1,
    ensures
        insert_by_score(s, x) == s.take(j).push(x) + s.skip(j),
    decreases s.len(),
{
    if s.len() == 0 {
        assert(s.take(j).push(x) + s.skip(j) =~= seq![x]);
    } else if j == s.len() {
        assert(s.take(j) =~= s);
        assert(s.skip(j) =~= Seq::<(usize, i64)>::empty());
        assert(s.take(j).push(x) + s.skip(j) =~= s.push(x));
    } else {
        let d = s.drop_last();
        lemma_insert_at(d, x, j);
        assert((d.take(j).push(x) + d.skip(j)).push(s.last()) =~= s.take(j).push(x) + s.skip(j));
    }
}

pub proof fn lemma_insert_sorted(s: Seq<(usize, i64)>, x: (usize, i64))
    requires
        sorted_by_score(s),
    ensures
        sorted_by_score(insert_by_score(s, x)),
        insert_by_score(s, x).to_multiset() == s.to_multiset().insert(x),
        insert_by_score(s, x).len() == s.len() + 1,
    decreases s.len(),
{
    if s.len() == 0 {
        assert(seq![x] =~= Seq::<(usize, i64)>::empty().push(x));
    } else if s.last().1 <= x.1 {
    } else {
        let d = s.drop_last();
        lemma_insert_sorted(d, x);
        let r = insert_by_score(d, x);
        assert(s =~= d.push(s.last()));
        assert forall|i: int, j: int| 0 <= i < j < r.len() + 1 implies r.push(s.last())[i].1 <= r.push(s.last())[j].1 by {
            if j == r.len() {
                assert(r.to_multiset().count(r[i]) > 0);
                assert(d.to_multiset().insert(x).count(r[i]) > 0);
                if r[i] != x {
                    assert(d.to_multiset().count(r[i]) > 0);
                    assert(d.contains(r[i]));
                    let k = choose|k: int| 0 <= k < d.len() && d[k] == r[i];
                    assert(s[k] == d[k]);
                }
            }
        }
    }
}

/// The stable sort by score is ordered by ascending score and holds the same
/// entries, as many times each.
pub proof fn lemma_sort_by_score(s: Seq<(usize, i64)>)
    ensures
        sorted_by_score(sort_by_score(s)),
        sort_by_score(s).to_multiset() == s.to_multiset(),
        sort_by_score(s).len() == s.len(),
    decreases s.len(),
{
    if s.len() > 0 {
        lemma_sort_by_score(s.drop_last());
        lemma_insert_sorted(sort_by_score(s.drop_last()), s.last());
        assert(s =~= s.drop_last().push(s.last()));
    }
}

/// Where every entry has the same score the stable sort keeps the order.
pub proof fn lemma_sort_equal_scores(s: Seq<(usize, i64)>, c: i64)
    requires
        forall|i: int| 0 <= i < s.len() ==> (#[trigger] s[i]).1 == c,
    ensures
        sort_by_score(s) == s,
    decreases s.len(),
{
    if s.len() > 0 {
        lemma_sort_equal_scores(s.drop_last(), c);
        assert(s =~= s.drop_last().push(s.last()));
    }
}

/// Where every entry holds the same score, the ranking lists all indices in
/// order.
pub proof fn lemma_ranked_equal_scores(scores: Seq<Option<i64>>, c: i64)
    requires
        forall|i: int| 0 <= i < scores.len() ==> scores[i] == Some(c),
    ensures
        ranked(scores) == Seq::new(scores.len(), |i: int| i as usize),
    decreases scores.len(),
{
    lemma_scored_all(scores, c);
    lemma_sort_equal_scores(scored(scores), c);
    assert(ranked(scores) =~= Seq::new(scores.len(), |i: int| i as usize));
}

proof fn lemma_scored_all(scores: Seq<Option<i64>>, c: i64)
    requires
        forall|i: int| 0 <= i < scores.len() ==> scores[i] == Some(c),
    ensures
        scored(scores).len() == scores.len(),
        forall|i: int| 0 <= i < scores.len() ==> #[trigger] scored(scores)[i] == (i as usize, c),
    decreases scores.len(),
{
    if scores.len() > 0 {
        let d = scores.drop_last();
        assert forall|i: int| 0 <= i < d.len() implies d[i] == Some(c) by {
            assert(d[i] == scores[i]);
        }
        lemma_scored_all(d, c);
        assert(scores.last() == scores[scores.len() - 1]);
    }
}

proof fn lemma_scored_bound(scores: Seq<Option<i64>>)
    ensures
        scored(scores).len() <= scores.len(),
        forall|i: int| 0 <= i < scored(scores).len() ==> (#[trigger] scored(scores)[i]).0 < scores.len(),
    decreases scores.len(),
{
    if scores.len() > 0 {
        lemma_scored_bound(scores.drop_last());
    }
}

pub open spec fn distinct_indices(s: Seq<(usize, i64)>) -> bool {
    forall|i: int, j: int| 0 <= i < j < s.len() ==> s[i].0 != s[j].0
}

/// Every entry of `s` is an index of `scores` with the score that it holds.
pub open spec fn entries_of(s: Seq<(usize, i64)>, scores: Seq<Option<i64>>) -> bool {
    forall|i: int| 0 <= i < s.len() ==> (#[trigger] s[i]).0 < scores.len() && scores[s[i].0 as int] == Some(s[i].1)
}

proof fn lemma_push_contains(s: Seq<(usize, i64)>, x: (usize, i64))
    ensures
        forall|e: (usize, i64)| #[trigger] s.push(x).contains(e) <==> (s.contains(e) || e == x),
{
    assert forall|e: (usize, i64)| #[trigger] s.push(x).contains(e) <==> (s.contains(e) || e == x) by {
        if s.push(x).contains(e) {
            let k = choose|k: int| 0 <= k < s.push(x).len() && s.push(x)[k] == e;
            if k < s.len() {
                assert(s[k] == e);
            }
        }
        if s.contains(e) {
            let k = choose|k: int| 0 <= k < s.len() && s[k] == e;
            assert(s.push(x)[k] == e);
        }
        if e == x {
            assert(s.push(x)[s.len() as int] == e);
        }
    }
}

proof fn lemma_insert_entries(s: Seq<(usize, i64)>, x: (usize, i64), scores: Seq<Option<i64>>)
    requires
        distinct_indices(s),
        entries_of(s, scores),
        x.0 < scores.len(),
        scores[x.0 as int] == Some(x.1),
        forall|i: int| 0 <= i < s.len() ==> (#[trigger] s[i]).0 != x.0,
    ensures
        distinct_indices(insert_by_score(s, x)),
        entries_of(insert_by_score(s, x), scores),
        forall|e: (usize, i64)| #[trigger] insert_by_score(s, x).contains(e) <==> (s.contains(e) || e == x),
    decreases s.len(),
{
    if s.len() == 0 {
        assert(seq![x] =~= Seq::<(usize, i64)>::empty().push(x));
        lemma_push_contains(Seq::<(usize, i64)>::empty(), x);
    } else if s.last().1 <= x.1 {
        lemma_push_contains(s, x);
    } else {
        let d = s.drop_last();
        lemma_insert_entries(d, x, scores);
        let r = insert_by_score(d, x);
        lemma_push_contains(r, s.last());
        lemma_push_contains(d, s.last());
        assert(s =~= d.push(s.last()));
        assert forall|i: int, j: int| 0 <= i < j < r.len() + 1 implies r.push(s.last())[i].0 != r.push(s.last())[j].0 by {
            if j == r.len() {
                assert(r.contains(r[i]));
                if r[i] != x {
                    assert(d.contains(r[i]));
                    let k = choose|k: int| 0 <= k < d.len() && d[k] == r[i];
                    assert(s[k] == d[k]);
                }
            }
        }
    }
}

proof fn lemma_sort_entries(s: Seq<(usize, i64)>, scores: Seq<Option<i64>>)
    requires
        distinct_indices(s),
        entries_of(s, scores),
    ensures
        distinct_indices(sort_by_score(s)),
        entries_of(sort_by_score(s), scores),
        forall|e: (usize, i64)| #[trigger] sort_by_score(s).contains(e) <==> s.contains(e),
    decreases s.len(),
{
    if s.len() > 0 {
        let d = s.drop_last();
        lemma_sort_entries(d, scores);
        let sd = sort_by_score(d);
        assert forall|i: int| 0 <= i < sd.len() implies (#[trigger] sd[i]).0 != s.last().0 by {
            assert(sd.contains(sd[i]));
            let k = choose|k: int| 0 <= k < d.len() && d[k] == sd[i];
            assert(s[k] == d[k]);
        }
        lemma_insert_entries(sd, s.last(), scores);
        assert(s =~= d.push(s.last()));
        lemma_push_contains(d, s.last());
    }
}

proof fn lemma_scored_entries(scores: Seq<Option<i64>>)
    requires
        scores.len() <= usize::MAX,
    ensures
        distinct_indices(scored(scores)),
        entries_of(scored(scores), scores),
        forall|i: int| 0 <= i < scored(scores).len() ==> (#[trigger] scored(scores)[i]).0 < scores.len(),
        forall|k: int| 0 <= k < scores.len() && (#[trigger] scores[k]) is Some ==>
            scored(scores).contains((k as usize, scores[k]->0)),
    decreases scores.len(),
{
    if scores.len() > 0 {
        let d = scores.drop_last();
        lemma_scored_entries(d);
        let sd = scored(d);
        assert forall|i: int| 0 <= i < sd.len() implies (#[trigger] sd[i]).0 < scores.len() && scores[sd[i].0 as int] == Some(sd[i].1) by {
            assert(d[sd[i].0 as int] == scores[sd[i].0 as int]);
        }
        match scores.last() {
            Some(v) => {
                let x = ((scores.len() - 1) as usize, v);
                lemma_push_contains(sd, x);
                let r = sd.push(x);
                assert(r == scored(scores));
                assert forall|i: int, j: int| 0 <= i < j < r.len() implies r[i].0 != r[j].0 by {
                    if j == sd.len() {
                        assert(sd[i].0 < d.len());
                    } else {
                        assert(r[i] == sd[i] && r[j] == sd[j]);
                    }
                }
                assert forall|i: int| 0 <= i < r.len() implies (#[trigger] r[i]).0 < scores.len() && scores[r[i].0 as int] == Some(r[i].1) by {
                    if i < sd.len() {
                        assert(r[i] == sd[i]);
                    }
                }
                assert forall|k: int| 0 <= k < scores.len() && (#[trigger] scores[k]) is Some implies
                    scored(scores).contains((k as usize, scores[k]->0)) by {
                    if k < d.len() {
                        assert(d[k] == scores[k]);
                        assert(sd.contains((k as usize, d[k]->0)));
                    }
                }
            },
            None => {
                assert(sd == scored(scores));
                assert forall|k: int| 0 <= k < scores.len() && (#[trigger] scores[k]) is Some implies
                    scored(scores).contains((k as usize, scores[k]->0)) by {
                    assert(k < d.len());
                    assert(d[k] == scores[k]);
                }
            },
        }
    }
}

/// The ranking holds each matching index once and no other, lowest score first.
pub proof fn lemma_ranked(scores: Seq<Option<i64>>)
    requires
        scores.len() <= usize::MAX,
    ensures
        forall|i: int, j: int| 0 <= i < j < ranked(scores).len() ==>
            scores[ranked(scores)[i] as int]->0 <= scores[ranked(scores)[j] as int]->0,
        forall|i: int| 0 <= i < ranked(scores).len() ==>
            (#[trigger] ranked(scores)[i]) < scores.len() && scores[ranked(scores)[i] as int] is Some,
        forall|k: int| 0 <= k < scores.len() && (#[trigger] scores[k]) is Some ==> ranked(scores).contains(k as usize),
        ranked(scores).no_duplicates(),
{
    let sc = scored(scores);
    lemma_scored_entries(scores);
    lemma_sort_entries(sc, scores);
    lemma_sort_by_score(sc);
    let st = sort_by_score(sc);
    let r = ranked(scores);
    assert forall|i: int| 0 <= i < r.len() implies #[trigger] r[i] == st[i].0 by {}
    assert forall|k: int| 0 <= k < scores.len() && (#[trigger] scores[k]) is Some implies r.contains(k as usize) by {
        assert(sc.contains((k as usize, scores[k]->0)));
        assert(st.contains((k as usize, scores[k]->0)));
        let m = choose|m: int| 0 <= m < st.len() && st[m] == (k as usize, scores[k]->0);
        assert(r[m] == k as usize);
    }
}

/// Ranks the indices of `scores` that hold a score: lowest score first, equal
/// scores in the order of the indices.
pub fn rank_matches(scores: &Vec<Option<i64>>) -> (r: Vec<usize>)
    ensures
        r@ == ranked(scores@),
{
    let mut entries: Vec<(usize, i64)> = Vec::new();
    let mut i: usize = 0;
    while i < scores.len()
        invariant
            i <= scores@.len(),
            entries@ == scored(scores@.take(i as int)),
        decreases scores@.len() - i,
    {
        assert(scores@.take(i as int + 1).drop_last() == scores@.take(i as int));
        match scores[i] {
            Some(s) => {
                entries.push((i, s));
            },
            None => {},
        }
        i += 1;
    }
    assert(scores@.take(scores@.len() as int) == scores@);
    let mut sorted: Vec<(usize, i64)> = Vec::new();
    let mut k: usize = 0;
    while k < entries.len()
        invariant
            k <= entries@.len(),
            sorted@ == sort_by_score(entries@.take(k as int)),
            sorted_by_score(sorted@),
        decreases entries@.len() - k,
    {
        let x = entries[k];
        let ghost before = sorted@;
        assert(entries@.take(k as int + 1).drop_last() == entries@.take(k as int));
        let mut j: usize = sorted.len();
        while j > 0 && sorted[j - 1].1 > x.1
            invariant
                j <= sorted@.len(),
                sorted@ == before,
                forall|m: int| j <= m < before.len() ==> before[m].1 > x.1,
            decreases j,
        {
            j -= 1;
        }
        proof {
            lemma_insert_at(before, x, j as int);
            lemma_insert_sorted(before, x);
        }
        sorted.insert(j, x);
        assert(sorted@ =~= before.take(j as int).push(x) + before.skip(j as int));
        k += 1;
    }
    assert(entries@.take(entries@.len() as int) == entries@);
    let mut r: Vec<usize> = Vec::new();
    let mut m: usize = 0;
    while m < sorted.len()
        invariant
            m <= sorted@.len(),
            r@ == indices_of(sorted@.take(m as int)),
        decreases sorted@.len() - m,
    {
        r.push(sorted[m].0);
        assert(indices_of(sorted@.take(m as int + 1)) =~= indices_of(sorted@.take(m as int)).push(sorted@[m as int].0));
        m += 1;
    }
    assert(sorted@.take(sorted@.len() as int) == sorted@);
    r
}

/// The keys that the menu reacts to.
#[derive(Debug, Clone, Copy, PartialEq, Eq, Structural)]
pub enum MenuKey {
    Escape,
    Enter,
    K,
    P,
    J,
    N,
    W,
    Other,
}

/// The modifier keys held while a key was pressed.
#[derive(Debug, Clone, Copy, PartialEq, Eq, Structural)]
pub struct KeyModifiers {
    pub shift: bool,
    pub control: bool,
    pub alt: bool,
    pub logo: bool,
}

pub open spec fn no_modifiers(m: KeyModifiers) -> bool {
    !m.shift && !m.control && !m.alt && !m.logo
}

pub open spec fn only_control(m: KeyModifiers) -> bool {
    !m.shift && m.control && !m.alt && !m.logo
}

#[derive(Debug)]
pub enum Message {
    FilterChanged(String),
    KeyPressed(MenuKey, KeyModifiers),
    Exit,
}

/// What the program around the menu is to do after a message.
#[derive(Debug)]
pub enum Command {
    /// Nothing to do.
    NoOp,
    /// Resize the menu window.
    Resize { width: u32, height: u32 },
    /// Run the code on the nog server and hand what came back to
    /// `App::show_lua_output`.
    ExecuteLua(String),
    /// Start the program of the item with this index.
    StartProgram(usize),
    /// Set the filter to this text, as if it had been typed.
    ChangeFilter(String),
}

/// The width of the menu window.
pub const MENU_WIDTH: u32 = 700;

/// The state of the menu.
pub struct App {
    pub items: Vec<ResultItem>,
    pub item_height: usize,
    pub max_visible_items: usize,
    /// The indices of the items that match the filter, lowest score first.
    pub filtered_items: Vec<usize>,
    pub filter: String,
    pub selected_idx: usize,
    pub execute_output: String,
    pub mode: MenuMode,
    pub exit: bool,
}

/// The score of each item's text for the pattern.
pub open spec fn item_scores(items: Seq<ResultItem>, pattern: Seq<char>) -> Seq<Option<i64>> {
    Seq::new(items.len(), |i: int| skim_score(items[i].name@, pattern))
}

/// The text that the menu shows for what came back from running Lua code;
/// `None` where no answer came (no connection, or an I/O error).
pub open spec fn spec_lua_output(o: Option<LuaOutcome>) -> Seq<char> {
    match o {
        Some(LuaOutcome::Output(s)) => s,
        Some(LuaOutcome::Failed(m)) => m,
        Some(LuaOutcome::Invalid(r)) => invalid_response_prefix() + r,
        None => network_error_text(),
    }
}

pub open spec fn invalid_response_prefix() -> Seq<char> {
    seq!['I', 'n', 'v', 'a', 'l', 'i', 'd', ' ', 'R', 'e', 's', 'p', 'o', 'n', 's', 'e', ':', ' ']
}

pub open spec fn network_error_text() -> Seq<char> {
    seq!['n', 'e', 't', 'w', 'o', 'r', 'k', ' ', 'e', 'r', 'r', 'o', 'r', ':', ' ', 'F', 'a', 'i', 'l', 'e', 'd', ' ', 't', 'o', ' ', 'c', 'o', 'n', 'n', 'e', 'c', 't', ' ', 't', 'o', ' ', 't', 'h', 'e', ' ', 'n', 'o', 'g', ' ', 's', 'e', 'r', 'v', 'e', 'r']
}

/// The plain value of what came back from the nog server, if anything did.
pub open spec fn answer_of(a: Option<Result<String, ClientError>>) -> Option<LuaOutcome> {
    match a {
        Some(r) => outcome_of(r),
        None => None,
    }
}

/// The filter without its last word: the words between spaces, all but the
/// last joined with a space.
pub open spec fn without_last_word(filter: Seq<char>) -> Seq<char> {
    spec_join(spec_split(filter, ' ').drop_last(), seq![' '])
}

/// The selection after moving it by `by`: not below the first item and not
/// past the last one.
pub open spec fn moved_selection(selected: int, by: int, len: int) -> int {
    let t = if selected + by < 0 { 0 } else { selected + by };
    if t >= len { len - 1 } else { t }
}

/// The selection stays on an item of a non-empty list, wherever it is moved.
pub proof fn lemma_moved_selection_in_list(selected: int, by: int, len: int)
    requires
        len > 0,
    ensures
        0 <= moved_selection(selected, by, len) < len,
{
}

impl App {
    /// The height of the input line, the gap under it and `n` rows of the list,
    /// no more of them than are shown at once.
    pub open spec fn list_height(&self, n: int) -> int {
        55 + self.item_height * (if n < self.max_visible_items { n } else { self.max_visible_items as int })
    }

    /// The heights that the menu window can take fit in a `u32`.
    pub open spec fn wf(&self) -> bool {
        55 + self.item_height * self.max_visible_items <= u32::MAX
    }

    /// The menu over `items`, with an empty filter and nothing ranked yet.
    pub fn new(items: Vec<ResultItem>, item_height: usize, max_visible_items: usize) -> (app: Self)
        requires
            55 + item_height * max_visible_items <= u32::MAX,
        ensures
            app.wf(),
            app.items@ == items@,
            app.item_height == item_height,
            app.max_visible_items == max_visible_items,
            app.filtered_items@.len() == 0,
            app.filter@.len() == 0,
            app.selected_idx == 0,
            app.execute_output@.len() == 0,
            app.mode == MenuMode::Files,
            !app.exit,
    {
        App {
            items,
            item_height,
            max_visible_items,
            filtered_items: Vec::new(),
            filter: string_from_chars(&[]),
            selected_idx: 0,
            execute_output: string_from_chars(&[]),
            mode: MenuMode::Files,
            exit: false,
        }
    }

    fn list_height_of(&self, n: usize) -> (h: u32)
        requires
            self.wf(),
        ensures
            h == self.list_height(n as int),
    {
        let shown = if n < self.max_visible_items { n } else { self.max_visible_items };
        assert(self.item_height * shown <= self.item_height * self.max_visible_items) by (nonlinear_arith)
            requires
                shown <= self.max_visible_items,
        ;
        let rows = self.item_height * shown;
        (55 + rows) as u32
    }

    /// Moves the selection by `by` items: not below the first item and not past
    /// the last one.
    pub fn move_selection(&mut self, by: isize)
        requires
            old(self).items@.len() > 0,
            old(self).selected_idx <= isize::MAX,
            isize::MIN <= old(self).selected_idx + by <= isize::MAX,
        ensures
            final(self).selected_idx == moved_selection(old(self).selected_idx as int, by as int, old(self).items@.len() as int),
            final(self).items@ == old(self).items@,
            final(self).filtered_items@ == old(self).filtered_items@,
            final(self).filter@ == old(self).filter@,
            final(self).execute_output@ == old(self).execute_output@,
            final(self).mode == old(self).mode,
            final(self).exit == old(self).exit,
            final(self).item_height == old(self).item_height,
            final(self).max_visible_items == old(self).max_visible_items,
    {
        let t: isize = self.selected_idx as isize + by;
        let t: usize = if t < 0 { 0 } else { t as usize };
        self.selected_idx = if t >= self.items.len() { self.items.len() - 1 } else { t };
    }

    /// Ranks the items by how well their text matches `filter`.
    fn rank_items(&self, filter: &str) -> (r: Vec<usize>)
        ensures
            r@ == ranked(item_scores(self.items@, filter@)),
            filter@.len() == 0 ==> r@ == Seq::new(self.items@.len(), |i: int| i as usize),
    {
        let mut scores: Vec<Option<i64>> = Vec::new();
        let mut i: usize = 0;
        while i < self.items.len()
            invariant
                i <= self.items@.len(),
                scores@ == item_scores(self.items@, filter@).take(i as int),
                filter@.len() == 0 ==> forall|j: int| 0 <= j < i ==> scores@[j] == Some(0i64),
            decreases self.items@.len() - i,
        {
            let s = fuzzy_score(self.items[i].get_text(), filter);
            scores.push(s);
            assert(scores@ =~= item_scores(self.items@, filter@).take(i as int + 1));
            i += 1;
        }
        assert(scores@ =~= item_scores(self.items@, filter@));
        proof {
            if filter@.len() == 0 {
                lemma_ranked_equal_scores(scores@, 0);
            }
        }
        rank_matches(&scores)
    }

    /// The filter line changed: a filter that starts with `$` is Lua code to
    /// run, any other one ranks the items anew.
    fn filter_changed(&mut self, new_value: String) -> (r: Command)
        requires
            old(self).wf(),
        ensures
            final(self).wf(),
            final(self).filter@ == new_value@,
            final(self).selected_idx == 0,
            final(self).items@ == old(self).items@,
            final(self).execute_output@ == old(self).execute_output@,
            final(self).exit == old(self).exit,
            final(self).item_height == old(self).item_height,
            final(self).max_visible_items == old(self).max_visible_items,
            if new_value@.len() > 0 && new_value@[0] == '$' {
                &&& final(self).mode == MenuMode::ExecuteLua
                &&& final(self).filtered_items@ == old(self).filtered_items@
                &&& r matches Command::ExecuteLua(code) && code@ == new_value@.drop_first()
            } else {
                &&& final(self).mode == MenuMode::Files
                &&& final(self).filtered_items@ == ranked(item_scores(old(self).items@, new_value@))
                &&& new_value@.len() == 0 ==> final(self).filtered_items@ == Seq::new(old(self).items@.len(), |i: int| i as usize)
                &&& r matches Command::Resize { width, height } && width == MENU_WIDTH
                    && height == final(self).list_height(final(self).filtered_items@.len() as int)
            },
    {
        let cs = chars_of(new_value.as_str());
        self.selected_idx = 0;
        if cs.len() > 0 && cs[0] == '$' {
            self.mode = MenuMode::ExecuteLua;
            let n = cs.len();
            let mut code_chars: Vec<char> = Vec::new();
            let mut i: usize = 1;
            while i < n
                invariant
                    1 <= i <= n,
                    n == cs@.len(),
                    code_chars@ == cs@.subrange(1, i as int),
                decreases n - i,
            {
                code_chars.push(cs[i]);
                assert(cs@.subrange(1, i as int + 1) == cs@.subrange(1, i as int).push(cs@[i as int]));
                i += 1;
            }
            assert(code_chars@ =~= new_value@.drop_first());
            let code = string_from_chars(code_chars.as_slice());
            self.filter = new_value;
            Command::ExecuteLua(code)
        } else {
            self.mode = MenuMode::Files;
            let ranked_items = self.rank_items(new_value.as_str());
            self.filtered_items = ranked_items;
            self.filter = new_value;
            let height = self.list_height_of(self.filtered_items.len());
            Command::Resize { width: MENU_WIDTH, height }
        }
    }

    /// The filter without its last word.
    fn filter_without_last_word(&self) -> (r: String)
        ensures
            r@ == without_last_word(self.filter@),
    {
        let cs = chars_of(self.filter.as_str());
        let mut words = split_chars(cs.as_slice(), ' ');
        proof { lemma_split_len(self.filter@, ' '); }
        let ghost all = views(words@);
        words.pop();
        assert(views(words@) =~= all.drop_last());
        let sep: &[char] = &[' '];
        assert(sep@ =~= seq![' ']);
        join(&words, sep)
    }

    /// Reacts to a message and says what the program around the menu is to do.
    pub fn update(&mut self, message: Message) -> (r: Command)
        requires
            old(self).wf(),
            message matches Message::KeyPressed(k, m) ==> {
                &&& (k == MenuKey::Enter && no_modifiers(m) && old(self).mode == MenuMode::Files)
                    ==> old(self).selected_idx < old(self).filtered_items@.len()
                &&& ((k == MenuKey::K || k == MenuKey::P || k == MenuKey::J || k == MenuKey::N) && only_control(m))
                    ==> old(self).items@.len() > 0 && old(self).selected_idx < isize::MAX
            },
        ensures
            final(self).wf(),
            final(self).items@ == old(self).items@,
            final(self).item_height == old(self).item_height,
            final(self).max_visible_items == old(self).max_visible_items,
            match message {
                Message::FilterChanged(v) => {
                    &&& final(self).filter@ == v@
                    &&& final(self).selected_idx == 0
                    &&& final(self).execute_output@ == old(self).execute_output@
                    &&& final(self).exit == old(self).exit
                    &&& if v@.len() > 0 && v@[0] == '$' {
                        &&& final(self).mode == MenuMode::ExecuteLua
                        &&& final(self).filtered_items@ == old(self).filtered_items@
                        &&& r matches Command::ExecuteLua(code) && code@ == v@.drop_first()
                    } else {
                        &&& final(self).mode == MenuMode::Files
                        &&& final(self).filtered_items@ == ranked(item_scores(old(self).items@, v@))
                        &&& v@.len() == 0 ==> final(self).filtered_items@ == Seq::new(old(self).items@.len(), |i: int| i as usize)
                        &&& r matches Command::Resize { width, height } && width == MENU_WIDTH
                            && height == final(self).list_height(final(self).filtered_items@.len() as int)
                    }
                },
                Message::Exit => {
                    &&& final(self).exit
                    &&& r is NoOp
                    &&& final(self).filter@ == old(self).filter@
                    &&& final(self).selected_idx == old(self).selected_idx
                    &&& final(self).filtered_items@ == old(self).filtered_items@
                    &&& final(self).mode == old(self).mode
                    &&& final(self).execute_output@ == old(self).execute_output@
                },
                Message::KeyPressed(k, m) => {
                    &&& final(self).filter@ == old(self).filter@
                    &&& final(self).filtered_items@ == old(self).filtered_items@
                    &&& final(self).mode == old(self).mode
                    &&& final(self).execute_output@ == old(self).execute_output@
                    &&& if k == MenuKey::Escape && no_modifiers(m) {
                        final(self).exit && r is NoOp && final(self).selected_idx == old(self).selected_idx
                    } else if k == MenuKey::Enter && no_modifiers(m) {
                        &&& final(self).exit
                        &&& final(self).selected_idx == old(self).selected_idx
                        &&& if old(self).mode == MenuMode::Files {
                            r == Command::StartProgram(old(self).filtered_items@[old(self).selected_idx as int])
                        } else {
                            r is NoOp
                        }
                    } else if (k == MenuKey::K || k == MenuKey::P) && only_control(m) {
                        &&& r is NoOp
                        &&& final(self).exit == old(self).exit
                        &&& final(self).selected_idx == moved_selection(old(self).selected_idx as int, -1, old(self).items@.len() as int)
                    } else if (k == MenuKey::J || k == MenuKey::N) && only_control(m) {
                        &&& r is NoOp
                        &&& final(self).exit == old(self).exit
                        &&& final(self).selected_idx == moved_selection(old(self).selected_idx as int, 1, old(self).items@.len() as int)
                    } else if k == MenuKey::W && only_control(m) {
                        &&& final(self).exit == old(self).exit
                        &&& final(self).selected_idx == old(self).selected_idx
                        &&& r matches Command::ChangeFilter(f) && f@ == without_last_word(old(self).filter@)
                    } else {
                        &&& r is NoOp
                        &&& final(self).exit == old(self).exit
                        &&& final(self).selected_idx == old(self).selected_idx
                    }
                },
            },
    {
        match message {
            Message::FilterChanged(new_value) => self.filter_changed(new_value),
            Message::Exit => {
                self.exit = true;
                Command::NoOp
            },
            Message::KeyPressed(key, mods) => {
                let none = !mods.shift && !mods.control && !mods.alt && !mods.logo;
                let ctrl = !mods.shift && mods.control && !mods.alt && !mods.logo;
                if key == MenuKey::Escape && none {
                    self.exit = true;
                    Command::NoOp
                } else if key == MenuKey::Enter && none {
                    self.exit = true;
                    match self.mode {
                        MenuMode::Files => Command::StartProgram(self.filtered_items[self.selected_idx]),
                        MenuMode::ExecuteLua => Command::NoOp,
                    }
                } else if (key == MenuKey::K || key == MenuKey::P) && ctrl {
                    self.move_selection(-1);
                    Command::NoOp
                } else if (key == MenuKey::J || key == MenuKey::N) && ctrl {
                    self.move_selection(1);
                    Command::NoOp
                } else if key == MenuKey::W && ctrl {
                    Command::ChangeFilter(self.filter_without_last_word())
                } else {
                    Command::NoOp
                }
            },
        }
    }

    /// Shows what came back from running the Lua code of the filter (`None`
    /// where no answer came) and sizes the window to fit it.
    pub fn show_lua_output(&mut self, answer: Option<Result<String, ClientError>>) -> (r: Command)
        requires
            old(self).wf(),
        ensures
            final(self).wf(),
            final(self).execute_output@ == spec_lua_output(answer_of(answer)),
            final(self).items@ == old(self).items@,
            final(self).filtered_items@ == old(self).filtered_items@,
            final(self).filter@ == old(self).filter@,
            final(self).selected_idx == old(self).selected_idx,
            final(self).mode == old(self).mode,
            final(self).exit == old(self).exit,
            final(self).item_height == old(self).item_height,
            final(self).max_visible_items == old(self).max_visible_items,
            r matches Command::Resize { width, height } && width == MENU_WIDTH && height == if final(self).execute_output@.len() == 0 {
                50
            } else {
                final(self).list_height(spec_split(final(self).execute_output@, '\n').len() as int)
            },
    {
        let ghost a = answer_of(answer);
        let output = match answer {
            Some(Ok(res)) => res,
            Some(Err(ClientError::LuaExecutionFailed(msg))) => msg,
            Some(Err(ClientError::InvalidResponse(res))) => {
                let mut s = string_from_chars(&['I', 'n', 'v', 'a', 'l', 'i', 'd', ' ', 'R', 'e', 's', 'p', 'o', 'n', 's', 'e', ':', ' ']);
                push_str(&mut s, res.as_str());
                s
            },
            Some(Err(ClientError::IoError(_))) => string_from_chars(&['n', 'e', 't', 'w', 'o', 'r', 'k', ' ', 'e', 'r', 'r', 'o', 'r', ':', ' ', 'F', 'a', 'i', 'l', 'e', 'd', ' ', 't', 'o', ' ', 'c', 'o', 'n', 'n', 'e', 'c', 't', ' ', 't', 'o', ' ', 't', 'h', 'e', ' ', 'n', 'o', 'g', ' ', 's', 'e', 'r', 'v', 'e', 'r']),
            None => string_from_chars(&['n', 'e', 't', 'w', 'o', 'r', 'k', ' ', 'e', 'r', 'r', 'o', 'r', ':', ' ', 'F', 'a', 'i', 'l', 'e', 'd', ' ', 't', 'o', ' ', 'c', 'o', 'n', 'n', 'e', 'c', 't', ' ', 't', 'o', ' ', 't', 'h', 'e', ' ', 'n', 'o', 'g', ' ', 's', 'e', 'r', 'v', 'e', 'r']),
        };
        assert(output@ =~= spec_lua_output(a));
        self.execute_output = output;
        let cs = chars_of(self.execute_output.as_str());
        let height = if cs.len() == 0 {
            50
        } else {
            let lines = split_chars(cs.as_slice(), '\n');
            self.list_height_of(lines.len())
        };
        Command::Resize { width: MENU_WIDTH, height }
    }
}

} // verus!
