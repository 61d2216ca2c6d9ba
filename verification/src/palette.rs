use vstd::prelude::*;

use crate::object::ObjectKind;
use crate::text::{
    all_white_space, ascii_lower, ascii_lowercase, chars_of, drop_white_space, is_ascii_text,
    is_blank, is_white_space, lowercase, to_lowercase,
    without_white_space,
};

verus! {

/// Progress of the greedy left-to-right match of a query against a text.
pub struct MatchProgress {
    /// How many query characters have been matched.
    pub matched: nat,
    /// Score accumulated so far.
    pub score: int,
    /// Text position of the latest matched character.
    pub last: Option<int>,
}

/// Characters after which a match counts as the start of a word.
pub open spec fn is_word_separator(c: char) -> bool {
    c == ' ' || c == '-' || c == '/' || c == '_'
}

/// Score earned by matching text position `ti`, given the previous matched position.
pub open spec fn match_bonus(t: Seq<char>, ti: int, last: Option<int>) -> int {
    let start_bonus: int = if ti == 0 {
        15
    } else if is_word_separator(t[ti - 1]) {
        10
    } else {
        0
    };
    let run_bonus: int = if last == Some(ti - 1) {
        5
    } else {
        0
    };
    1 + start_bonus + run_bonus
}

/// The greedy match after reading the first `n` characters of `t`: each text character
/// that equals the next unmatched query character is matched.
pub open spec fn match_progress(q: Seq<char>, t: Seq<char>, n: nat) -> MatchProgress
    decreases n,
{
    if n == 0 {
        MatchProgress { matched: 0, score: 0, last: None }
    } else {
        let p = match_progress(q, t, (n - 1) as nat);
        let ti = n - 1;
        if p.matched < q.len() && t[ti] == q[p.matched as int] {
            MatchProgress {
                matched: p.matched + 1,
                score: p.score + match_bonus(t, ti, p.last),
                last: Some(ti),
            }
        } else {
            p
        }
    }
}

/// Score of the prepared query characters `q` against the prepared text `t`:
/// `None` when the greedy match does not use up `q`, otherwise the accumulated score
/// minus one point per twelve text characters.
pub open spec fn chars_score(q: Seq<char>, t: Seq<char>) -> Option<int> {
    let p = match_progress(q, t, t.len());
    if p.matched == q.len() {
        Some(p.score - t.len() / 12)
    } else {
        None
    }
}

/// `v` can be held by an `i32`.
pub open spec fn fits_i32(v: int) -> bool {
    i32::MIN <= v <= i32::MAX
}

/// A score as an `i32` returns it: kept when it fits, `None` otherwise.
pub open spec fn as_i32_score(score: Option<int>) -> Option<int> {
    match score {
        Some(v) => if fits_i32(v) {
            Some(v)
        } else {
            None
        },
        None => None,
    }
}

/// The palette's fuzzy score of `query` against `text`: `Some(0)` for a blank query;
/// otherwise the query is lower-cased and stripped of white space, the text is
/// lower-cased, and the two are scored by `chars_score` (a score that an `i32` cannot
/// hold is not returned).
pub open spec fn fuzzy_score_spec(query: Seq<char>, text: Seq<char>) -> Option<int> {
    if all_white_space(query) {
        Some(0)
    } else {
        as_i32_score(chars_score(without_white_space(lowercase(query)), lowercase(text)))
    }
}

/// The value of an optional `i32` as an optional integer.
pub open spec fn opt_int(r: Option<i32>) -> Option<int> {
    match r {
        Some(v) => Some(v as int),
        None => None,
    }
}

proof fn lemma_progress_bounds(q: Seq<char>, t: Seq<char>, n: nat)
    requires
        n <= t.len(),
    ensures
        match_progress(q, t, n).matched <= q.len(),
        match_progress(q, t, n).matched <= n,
        0 <= match_progress(q, t, n).score <= 16 * match_progress(q, t, n).matched,
        match match_progress(q, t, n).last {
            Some(l) => 0 <= l < n,
            None => match_progress(q, t, n).matched == 0,
        },
    decreases n,
{
    if n > 0 {
        lemma_progress_bounds(q, t, (n - 1) as nat);
    }
}


/// `idx` places each character of `q` at a position of `t` holding that character,
/// at strictly increasing positions.
pub open spec fn is_embedding(q: Seq<char>, t: Seq<char>, idx: Seq<int>) -> bool {
    &&& idx.len() == q.len()
    &&& forall|k: int| 0 <= k < idx.len() ==> 0 <= #[trigger] idx[k] < t.len() && t[idx[k]] == q[k]
    &&& forall|k: int, l: int| 0 <= k < l < idx.len() ==> #[trigger] idx[k] < #[trigger] idx[l]
}

/// `q` occurs in `t` as a (not necessarily contiguous) subsequence.
pub open spec fn is_subsequence(q: Seq<char>, t: Seq<char>) -> bool {
    exists|idx: Seq<int>| is_embedding(q, t, idx)
}

proof fn lemma_progress_monotone(q: Seq<char>, t: Seq<char>, n: nat)
    requires
        0 < n <= t.len(),
    ensures
        match_progress(q, t, (n - 1) as nat).matched <= match_progress(q, t, n).matched,
{
}

/// The greedy match of the first `n` text characters yields an embedding of the matched
/// prefix of `q` at positions below `n`.
proof fn greedy_embedding(q: Seq<char>, t: Seq<char>, n: nat) -> (idx: Seq<int>)
    requires
        n <= t.len(),
    ensures
        is_embedding(q.take(match_progress(q, t, n).matched as int), t, idx),
        forall|k: int| 0 <= k < idx.len() ==> #[trigger] idx[k] < n,
    decreases n,
{
    lemma_progress_bounds(q, t, n);
    if n == 0 {
        Seq::empty()
    } else {
        let prev = greedy_embedding(q, t, (n - 1) as nat);
        let p = match_progress(q, t, (n - 1) as nat);
        lemma_progress_bounds(q, t, (n - 1) as nat);
        if p.matched < q.len() && t[n - 1] == q[p.matched as int] {
            let idx = prev.push(n - 1);
            assert(q.take(p.matched as int + 1) =~= q.take(p.matched as int).push(q[p.matched as int]));
            assert forall|k: int| 0 <= k < idx.len() implies 0 <= #[trigger] idx[k] < t.len()
                && t[idx[k]] == q.take(p.matched as int + 1)[k] by {
                if k < prev.len() {
                    assert(idx[k] == prev[k]);
                }
            }
            assert forall|k: int, l: int| 0 <= k < l < idx.len() implies #[trigger] idx[k]
                < #[trigger] idx[l] by {
                if l < prev.len() {
                    assert(idx[k] == prev[k] && idx[l] == prev[l]);
                } else {
                    assert(idx[k] == prev[k]);
                }
            }
            idx
        } else {
            prev
        }
    }
}

/// Any embedding of a prefix of `q` into the first `n` text characters is no longer than
/// what the greedy match finds there.
proof fn lemma_greedy_maximal(q: Seq<char>, t: Seq<char>, n: nat, k: int, idx: Seq<int>)
    requires
        n <= t.len(),
        0 <= k <= q.len(),
        is_embedding(q.take(k), t, idx),
        forall|j: int| 0 <= j < idx.len() ==> #[trigger] idx[j] < n,
    ensures
        k <= match_progress(q, t, n).matched,
    decreases n,
{
    lemma_progress_bounds(q, t, n);
    if k == 0 {
    } else if n == 0 {
        assert(idx[0] < 0);
    } else {
        lemma_progress_monotone(q, t, n);
        if idx[k - 1] < n - 1 {
            assert forall|j: int| 0 <= j < idx.len() implies #[trigger] idx[j] < n - 1 by {
                if j < k - 1 {
                    assert(idx[j] < idx[k - 1]);
                }
            }
            lemma_greedy_maximal(q, t, (n - 1) as nat, k, idx);
        } else {
            let shorter = idx.take(k - 1);
            assert forall|j: int| 0 <= j < shorter.len() implies #[trigger] shorter[j] < n - 1 by {
                assert(shorter[j] == idx[j]);
                assert(idx[j] < idx[k - 1]);
            }
            assert forall|j: int| 0 <= j < shorter.len() implies 0 <= #[trigger] shorter[j] < t.len()
                && t[shorter[j]] == q.take(k - 1)[j] by {
                assert(shorter[j] == idx[j]);
                assert(q.take(k)[j] == q[j]);
            }
            assert forall|a: int, b: int| 0 <= a < b < shorter.len() implies #[trigger] shorter[a]
                < #[trigger] shorter[b] by {
                assert(shorter[a] == idx[a] && shorter[b] == idx[b]);
            }
            lemma_greedy_maximal(q, t, (n - 1) as nat, k - 1, shorter);
            assert(t[idx[k - 1]] == q.take(k)[k - 1]);
        }
    }
}

/// A prepared query scores against a prepared text exactly when its characters occur in
/// the text in order.
pub proof fn lemma_score_iff_subsequence(q: Seq<char>, t: Seq<char>)
    ensures
        chars_score(q, t) is Some <==> is_subsequence(q, t),
{
    lemma_progress_bounds(q, t, t.len());
    let m = match_progress(q, t, t.len()).matched;
    if m == q.len() {
        let idx = greedy_embedding(q, t, t.len());
        assert(q.take(m as int) =~= q);
    }
    if is_subsequence(q, t) {
        let idx = choose|idx: Seq<int>| is_embedding(q, t, idx);
        assert(q.take(q.len() as int) =~= q);
        lemma_greedy_maximal(q, t, t.len(), q.len() as int, idx);
    }
}

proof fn lemma_single_char_progress(c: char, t: Seq<char>, i: int, n: nat)
    requires
        0 <= i < t.len(),
        n <= t.len(),
        t[i] == c,
        forall|j: int| 0 <= j < i ==> t[j] != c,
    ensures
        n <= i ==> match_progress(seq![c], t, n) == (MatchProgress { matched: 0, score: 0, last: None }),
        n > i ==> match_progress(seq![c], t, n) == (MatchProgress {
            matched: 1,
            score: match_bonus(t, i, None),
            last: Some(i),
        }),
    decreases n,
{
    if n > 0 {
        lemma_single_char_progress(c, t, i, (n - 1) as nat);
        if n - 1 < i {
            assert(t[n - 1] != c);
        }
    }
}

/// A one-character query scores by where its first occurrence in the text stands: 16
/// points at the very start, 11 right after a space, '-', '/' or '_' (a word start),
/// 1 anywhere else; less one point per twelve text characters.
pub proof fn lemma_single_char_score(c: char, t: Seq<char>, i: int)
    requires
        0 <= i < t.len(),
        t[i] == c,
        forall|j: int| 0 <= j < i ==> t[j] != c,
    ensures
        chars_score(seq![c], t) == Some(
            (if i == 0 {
                16int
            } else if t[i - 1] == ' ' || t[i - 1] == '-' || t[i - 1] == '/' || t[i - 1] == '_' {
                11int
            } else {
                1int
            }) - t.len() as int / 12,
        ),
{
    lemma_single_char_progress(c, t, i, t.len());
}

proof fn lemma_progress_after_full_match(q: Seq<char>, t: Seq<char>, m: nat, n: nat)
    requires
        m <= n <= t.len(),
        match_progress(q, t, m).matched == q.len(),
    ensures
        match_progress(q, t, n) == match_progress(q, t, m),
    decreases n,
{
    if n > m {
        lemma_progress_after_full_match(q, t, m, (n - 1) as nat);
    }
}

/// A two-character query found at the very start of the text scores 16 for the first
/// character and 6 for the second (one point plus the run bonus), 10 more when the first
/// character is a space, '-', '/' or '_' (so the second starts a word); less one point per
/// twelve text characters.
pub proof fn lemma_leading_pair_score(a: char, b: char, t: Seq<char>)
    requires
        t.len() >= 2,
        t[0] == a,
        t[1] == b,
    ensures
        chars_score(seq![a, b], t) == Some(
            22 + (if a == ' ' || a == '-' || a == '/' || a == '_' {
                10int
            } else {
                0int
            }) - t.len() as int / 12,
        ),
{
    let q = seq![a, b];
    assert(q.len() == 2 && q[0] == a && q[1] == b);
    assert(match_progress(q, t, 0) == (MatchProgress { matched: 0, score: 0, last: None }));
    assert(match_progress(q, t, 1) == (MatchProgress { matched: 1, score: 16, last: Some(0) }));
    assert(match_progress(q, t, 2) == (MatchProgress {
        matched: 2,
        score: 16 + match_bonus(t, 1, Some(0)),
        last: Some(1),
    }));
    lemma_progress_after_full_match(q, t, 2, t.len());
}

/// A prepared score lies between minus one twelfth of the text length and sixteen points
/// per query character; so it fits an `i32` for queries of up to 134,217,727 characters
/// against texts of up to 25,769,803,776 characters.
pub proof fn lemma_score_range(q: Seq<char>, t: Seq<char>)
    ensures
        chars_score(q, t) matches Some(v) ==> -(t.len() as int / 12) <= v <= 16 * q.len(),
        q.len() <= 134_217_727 && t.len() <= 25_769_803_776 ==> (chars_score(q, t) matches Some(
            v,
        ) ==> fits_i32(v)),
{
    lemma_progress_bounds(q, t, t.len());
}

/// The palette matches a command title exactly when the query is blank, or when the
/// query's non-white-space characters, lower-cased, occur in order in the lower-cased title
/// and the score fits an `i32` (which it always does for a query of up to 134,217,727
/// characters against a title of up to 25,769,803,776).
pub proof fn lemma_fuzzy_match_iff_subsequence(query: Seq<char>, text: Seq<char>)
    ensures
        fuzzy_score_spec(query, text) is Some <==> (all_white_space(query) || (is_subsequence(
            without_white_space(lowercase(query)),
            lowercase(text),
        ) && fits_i32(chars_score(without_white_space(lowercase(query)), lowercase(text))->0))),
        without_white_space(lowercase(query)).len() <= 134_217_727 && lowercase(text).len()
            <= 25_769_803_776 ==> (fuzzy_score_spec(query, text) is Some <==> (all_white_space(
            query,
        ) || is_subsequence(without_white_space(lowercase(query)), lowercase(text)))),
{
    lemma_score_iff_subsequence(without_white_space(lowercase(query)), lowercase(text));
    lemma_score_range(without_white_space(lowercase(query)), lowercase(text));
}

/// Scores prepared characters: `q` are the query characters to find in order, `t` the text.
/// A score that an `i32` cannot hold gives `None`.
pub fn score_chars(q: &Vec<char>, t: &Vec<char>) -> (r: Option<i32>)
    ensures
        opt_int(r) == as_i32_score(chars_score(q@, t@)),
{
    let mut qi: usize = 0;
    let mut score: u128 = 0;
    let mut last_match: Option<usize> = None;
    let mut ti: usize = 0;
    while ti < t.len()
        invariant
            ti <= t@.len(),
            match_progress(q@, t@, ti as nat) == (MatchProgress {
                matched: qi as nat,
                score: score as int,
                last: match last_match {
                    Some(l) => Some(l as int),
                    None => None,
                },
            }),
        decreases t@.len() - ti,
    {
        proof {
            lemma_progress_bounds(q@, t@, ti as nat);
        }
        let tc = t[ti];
        if qi < q.len() && tc == q[qi] {
            let mut bonus: u128 = 1;
            if ti == 0 {
                bonus = bonus + 15;
            } else {
                let prev = t[ti - 1];
                if prev == ' ' || prev == '-' || prev == '/' || prev == '_' {
                    bonus = bonus + 10;
                }
            }
            match last_match {
                Some(lm) => {
                    if lm + 1 == ti {
                        bonus = bonus + 5;
                    }
                },
                None => {},
            }
            score = score + bonus;
            last_match = Some(ti);
            qi = qi + 1;
        }
        ti = ti + 1;
    }
    proof {
        lemma_progress_bounds(q@, t@, t@.len());
    }
    if qi == q.len() {
        let penalty: u128 = (t.len() as u128) / 12;
        if score >= penalty {
            let v: u128 = score - penalty;
            if v <= 2147483647 {
                Some(v as i32)
            } else {
                None
            }
        } else {
            let d: u128 = penalty - score;
            if d <= 2147483648 {
                Some((0 - (d as i64)) as i32)
            } else {
                None
            }
        }
    } else {
        None
    }
}

/// Lightweight fuzzy subsequence matcher. Returns `None` if `query` is not a subsequence
/// of `text` (case-insensitive, white space in the query ignored), otherwise a score where
/// higher is better. A blank query matches everything with the neutral score 0. A score
/// that an `i32` cannot hold (only for queries or titles of over a hundred million
/// characters) is not returned.
pub fn fuzzy_score(query: &str, text: &str) -> (r: Option<i32>)
    ensures
        opt_int(r) == fuzzy_score_spec(query@, text@),
        is_ascii_text(query@) && is_ascii_text(text@) ==> opt_int(r) == ascii_fuzzy_score(
            query@,
            text@,
        ),
{
    if is_blank(query) {
        return Some(0);
    }
    let lq = to_lowercase(query);
    let q = drop_white_space(&chars_of(lq.as_str()));
    let lt = to_lowercase(text);
    let t = chars_of(lt.as_str());
    score_chars(&q, &t)
}

/// The fuzzy score of ASCII text: `fuzzy_score_spec` with ASCII lower-casing.
pub open spec fn ascii_fuzzy_score(query: Seq<char>, text: Seq<char>) -> Option<int> {
    if all_white_space(query) {
        Some(0)
    } else {
        as_i32_score(chars_score(without_white_space(ascii_lowercase(query)), ascii_lowercase(text)))
    }
}

/// An ASCII query is blank exactly when nothing is left of it, lower-cased, without its
/// white space.
proof fn lemma_ascii_blank(s: Seq<char>)
    requires
        is_ascii_text(s),
    ensures
        all_white_space(s) <==> without_white_space(ascii_lowercase(s)).len() == 0,
{
    let low = ascii_lowercase(s);
    let pred = |c: char| !is_white_space(c);
    assert(without_white_space(low) == low.filter(pred));
    assert forall|i: int| 0 <= i < s.len() implies is_white_space(#[trigger] low[i]) == is_white_space(
        s[i],
    ) by {
        assert((s[i] as int) < 128);
        assert(low[i] == ascii_lower(s[i]));
    }
    if all_white_space(s) {
        if low.filter(pred).len() > 0 {
            low.lemma_filter_pred(pred, 0);
            let f0 = low.filter(pred)[0];
            assert(low.filter(pred).contains(f0));
            low.lemma_filter_contains_rev(pred, f0);
            let i = choose|i: int| 0 <= i < low.len() && low[i] == f0;
            assert(is_white_space(s[i]));
        }
    } else {
        let i = choose|i: int| 0 <= i < s.len() && !is_white_space(#[trigger] s[i]);
        assert(!is_white_space(low[i]));
        low.lemma_filter_contains(pred, i);
    }
}

/// Letter case, in query and title alike, and white space inside the query never change
/// the score of ASCII text: two ASCII queries that agree once lower-cased and stripped of
/// white space score the same against two ASCII titles that agree once lower-cased.
pub proof fn lemma_ascii_case_and_query_space_do_not_matter(
    query: Seq<char>,
    text: Seq<char>,
    query2: Seq<char>,
    text2: Seq<char>,
)
    requires
        is_ascii_text(query),
        is_ascii_text(text),
        is_ascii_text(query2),
        is_ascii_text(text2),
        without_white_space(ascii_lowercase(query2)) == without_white_space(ascii_lowercase(query)),
        ascii_lowercase(text2) == ascii_lowercase(text),
    ensures
        ascii_fuzzy_score(query2, text2) == ascii_fuzzy_score(query, text),
{
    lemma_ascii_blank(query);
    lemma_ascii_blank(query2);
}

} // verus!

verus! {

/// A plain-data description of "what to do"; the shell interprets it.
#[derive(Debug, Clone, Copy, PartialEq, Eq, Structural)]
pub enum CommandAction {
    Spawn(ObjectKind),
    CreateDimension,
    SwitchDimension(u128),
    FitToContent,
    Save,
    ToggleHud,
    AskAiDimension,
    PingAgent,
    DeleteSelected,
    About,
}

/// One searchable, executable entry in the palette.
#[derive(Debug, Clone)]
pub struct Command {
    pub title: String,
    /// Short right-aligned category badge (e.g. "Object", "Workspace", "View").
    pub badge: String,
    /// Leading glyph for quick visual scanning.
    pub icon: String,
    pub action: CommandAction,
}

impl Command {
    pub fn new(icon: String, title: String, badge: String, action: CommandAction) -> (c: Self)
        ensures
            c.icon == icon,
            c.title == title,
            c.badge == badge,
            c.action == action,
    {
        Command { icon, title, badge, action }
    }
}

/// Ranking order of the palette: a higher score first; among equal scores, the command
/// that comes first in the registry first.
pub open spec fn ranks_before(score_a: int, index_a: int, score_b: int, index_b: int) -> bool {
    score_a > score_b || (score_a == score_b && index_a < index_b)
}

/// The palette's score of `query` against the title of `command`.
pub open spec fn command_score(query: Seq<char>, command: Command) -> Option<int> {
    fuzzy_score_spec(query, command.title@)
}

/// `ranked` lists, in ranking order and once each, the positions of exactly those
/// commands whose title matches `query`.
pub open spec fn is_ranking(query: Seq<char>, commands: Seq<Command>, ranked: Seq<usize>) -> bool {
    &&& forall|i: int|
        0 <= i < ranked.len() ==> #[trigger] ranked[i] < commands.len() && command_score(
            query,
            commands[ranked[i] as int],
        ) is Some
    &&& forall|k: int|
        0 <= k < commands.len() && (#[trigger] command_score(query, commands[k])) is Some
            ==> ranked.contains(k as usize)
    &&& forall|i: int, j: int|
        0 <= i < j < ranked.len() ==> ranks_before(
            command_score(query, commands[#[trigger] ranked[i] as int])->0,
            ranked[i] as int,
            command_score(query, commands[#[trigger] ranked[j] as int])->0,
            ranked[j] as int,
        )
}

/// Filters the commands to those matching `query` and ranks them: best score first,
/// registry order among equal scores.
pub fn rank_commands(query: &str, commands: &[Command]) -> (ranked: Vec<usize>)
    ensures
        is_ranking(query@, commands@, ranked@),
{
    let ghost qv = query@;
    let ghost cs = commands@;
    let mut pairs: Vec<(i32, usize)> = Vec::new();
    let mut idx: usize = 0;
    while idx < commands.len()
        invariant
            idx <= cs.len(),
            qv == query@,
            cs == commands@,
            forall|i: int|
                0 <= i < pairs@.len() ==> #[trigger] pairs@[i].1 < idx && command_score(
                    qv,
                    cs[pairs@[i].1 as int],
                ) == Some(pairs@[i].0 as int),
            forall|k: int|
                0 <= k < idx && (#[trigger] command_score(qv, cs[k])) is Some ==> exists|i: int|
                    0 <= i < pairs@.len() && #[trigger] pairs@[i].1 == k,
            forall|i: int, j: int|
                0 <= i < j < pairs@.len() ==> ranks_before(
                    #[trigger] pairs@[i].0 as int,
                    pairs@[i].1 as int,
                    #[trigger] pairs@[j].0 as int,
                    pairs@[j].1 as int,
                ),
        decreases cs.len() - idx,
    {
        let scored = fuzzy_score(query, commands[idx].title.as_str());
        match scored {
            Some(s) => {
                let mut p: usize = 0;
                while p < pairs.len() && pairs[p].0 >= s
                    invariant
                        p <= pairs@.len(),
                        forall|i: int| 0 <= i < p ==> #[trigger] pairs@[i].0 >= s,
                    decreases pairs@.len() - p,
                {
                    p = p + 1;
                }
                let ghost old_pairs = pairs@;
                assert forall|j: int| p <= j < old_pairs.len() implies #[trigger] old_pairs[j].0 < s by {
                    if j > p {
                        assert(ranks_before(
                            old_pairs[p as int].0 as int,
                            old_pairs[p as int].1 as int,
                            old_pairs[j].0 as int,
                            old_pairs[j].1 as int,
                        ));
                    }
                }
                pairs.insert(p, (s, idx));
                assert forall|i: int, j: int| 0 <= i < j < pairs@.len() implies ranks_before(
                    #[trigger] pairs@[i].0 as int,
                    pairs@[i].1 as int,
                    #[trigger] pairs@[j].0 as int,
                    pairs@[j].1 as int,
                ) by {
                    if j < p {
                        assert(pairs@[i] == old_pairs[i] && pairs@[j] == old_pairs[j]);
                    } else if j == p {
                        assert(pairs@[i] == old_pairs[i]);
                    } else if i < p {
                        assert(pairs@[i] == old_pairs[i] && pairs@[j] == old_pairs[j - 1]);
                    } else if i == p {
                        assert(pairs@[j] == old_pairs[j - 1]);
                    } else {
                        assert(pairs@[i] == old_pairs[i - 1] && pairs@[j] == old_pairs[j - 1]);
                    }
                }
                assert forall|i: int| 0 <= i < pairs@.len() implies #[trigger] pairs@[i].1 < idx
                    + 1 && command_score(qv, cs[pairs@[i].1 as int]) == Some(pairs@[i].0 as int) by {
                    if i < p {
                        assert(pairs@[i] == old_pairs[i]);
                    } else if i > p {
                        assert(pairs@[i] == old_pairs[i - 1]);
                    }
                }
                assert forall|k: int|
                    0 <= k < idx + 1 && (#[trigger] command_score(qv, cs[k])) is Some implies exists|i: int|
                    0 <= i < pairs@.len() && #[trigger] pairs@[i].1 == k by {
                    if k == idx {
                        assert(pairs@[p as int].1 == k);
                    } else {
                        let i0 = choose|i: int| 0 <= i < old_pairs.len() && #[trigger] old_pairs[i].1 == k;
                        if i0 < p {
                            assert(pairs@[i0] == old_pairs[i0]);
                        } else {
                            assert(pairs@[i0 + 1] == old_pairs[i0]);
                        }
                    }
                }
            },
            None => {},
        }
        idx = idx + 1;
    }
    let mut ranked: Vec<usize> = Vec::new();
    let mut i: usize = 0;
    while i < pairs.len()
        invariant
            i <= pairs@.len(),
            ranked@.len() == i,
            forall|j: int| 0 <= j < i ==> #[trigger] ranked@[j] == pairs@[j].1,
        decreases pairs@.len() - i,
    {
        ranked.push(pairs[i].1);
        i = i + 1;
    }
    assert forall|k: int|
        0 <= k < cs.len() && (#[trigger] command_score(qv, cs[k])) is Some implies ranked@.contains(
        k as usize,
    ) by {
        let i0 = choose|i: int| 0 <= i < pairs@.len() && #[trigger] pairs@[i].1 == k;
        assert(ranked@[i0] == k as usize);
    }
    assert forall|i: int, j: int| 0 <= i < j < ranked@.len() implies ranks_before(
        command_score(qv, cs[#[trigger] ranked@[i] as int])->0,
        ranked@[i] as int,
        command_score(qv, cs[#[trigger] ranked@[j] as int])->0,
        ranked@[j] as int,
    ) by {
        assert(ranked@[i] == pairs@[i].1 && ranked@[j] == pairs@[j].1);
        assert(ranks_before(pairs@[i].0 as int, pairs@[i].1 as int, pairs@[j].0 as int, pairs@[j].1 as int));
    }
    ranked
}

} // verus!

verus! {

/// State of the command palette overlay: whether it is open, the search text, the
/// highlighted row and whether the search field still has to take focus.
pub struct CommandPalette {
    pub open: bool,
    query: String,
    selected: usize,
    just_opened: bool,
}

impl CommandPalette {
    /// The palette is shown.
    pub closed spec fn is_open(&self) -> bool {
        self.open
    }

    /// The current search text.
    pub closed spec fn query_text(&self) -> Seq<char> {
        self.query@
    }

    /// The highlighted row among the current results.
    pub closed spec fn selection(&self) -> nat {
        self.selected as nat
    }

    /// The search field has yet to take keyboard focus after opening.
    pub closed spec fn focus_pending(&self) -> bool {
        self.just_opened
    }

    /// A closed palette with an empty search.
    pub fn new() -> (p: Self)
        ensures
            !p.is_open(),
            p.query_text() == Seq::<char>::empty(),
            p.selection() == 0,
            !p.focus_pending(),
    {
        CommandPalette { open: false, query: String::new(), selected: 0, just_opened: false }
    }

    /// The current search text.
    pub fn query(&self) -> (q: &str)
        ensures
            q@ == self.query_text(),
    {
        self.query.as_str()
    }

    /// Replaces the search text (the shell's text field edits a copy of it).
    pub fn set_query(&mut self, query: String)
        ensures
            final(self).query_text() == query@,
            final(self).is_open() == old(self).is_open(),
            final(self).selection() == old(self).selection(),
            final(self).focus_pending() == old(self).focus_pending(),
    {
        self.query = query;
    }

    /// The highlighted row.
    pub fn selected(&self) -> (s: usize)
        ensures
            s == self.selection(),
    {
        self.selected
    }

    /// Opens the palette with an empty search and the first row highlighted, or closes it
    /// when it is open.
    pub fn toggle(&mut self)
        ensures
            old(self).is_open() ==> {
                &&& !final(self).is_open()
                &&& !final(self).focus_pending()
                &&& final(self).query_text() == old(self).query_text()
                &&& final(self).selection() == old(self).selection()
            },
            !old(self).is_open() ==> {
                &&& final(self).is_open()
                &&& final(self).focus_pending()
                &&& final(self).query_text() == Seq::<char>::empty()
                &&& final(self).selection() == 0
            },
    {
        if self.open {
            self.close();
        } else {
            self.open = true;
            self.query = String::new();
            self.selected = 0;
            self.just_opened = true;
        }
    }

    /// Closes the palette; the search text and highlighted row are kept.
    pub fn close(&mut self)
        ensures
            !final(self).is_open(),
            !final(self).focus_pending(),
            final(self).query_text() == old(self).query_text(),
            final(self).selection() == old(self).selection(),
    {
        self.open = false;
        self.just_opened = false;
    }

    /// Reports whether the search field still has to take focus, and clears that request.
    pub fn take_focus_request(&mut self) -> (pending: bool)
        ensures
            pending == old(self).focus_pending(),
            !final(self).focus_pending(),
            final(self).is_open() == old(self).is_open(),
            final(self).query_text() == old(self).query_text(),
            final(self).selection() == old(self).selection(),
    {
        let pending = self.just_opened;
        self.just_opened = false;
        pending
    }

    /// Keeps the highlighted row within `n_results` rows: the first row when there are
    /// none, the last row when it was past the end.
    pub fn keep_selection_in_range(&mut self, n_results: usize)
        ensures
            final(self).selection() == (if n_results == 0 {
                0
            } else if old(self).selection() >= n_results {
                (n_results - 1) as nat
            } else {
                old(self).selection()
            }),
            final(self).is_open() == old(self).is_open(),
            final(self).query_text() == old(self).query_text(),
            final(self).focus_pending() == old(self).focus_pending(),
    {
        if n_results == 0 {
            self.selected = 0;
        } else if self.selected >= n_results {
            self.selected = n_results - 1;
        }
    }

    /// Moves the highlight one row down, wrapping from the last row to the first.
    pub fn select_next(&mut self, n_results: usize)
        requires
            old(self).selection() < n_results,
        ensures
            final(self).selection() == (old(self).selection() + 1) % (n_results as nat),
            final(self).is_open() == old(self).is_open(),
            final(self).query_text() == old(self).query_text(),
            final(self).focus_pending() == old(self).focus_pending(),
    {
        self.selected = (self.selected + 1) % n_results;
    }

    /// Moves the highlight one row up, wrapping from the first row to the last.
    pub fn select_previous(&mut self, n_results: usize)
        requires
            old(self).selection() < n_results,
        ensures
            final(self).selection() == (old(self).selection() + n_results - 1) % (
            n_results as int),
            final(self).is_open() == old(self).is_open(),
            final(self).query_text() == old(self).query_text(),
            final(self).focus_pending() == old(self).focus_pending(),
    {
        let ghost s = self.selected as int;
        let ghost n = n_results as int;
        if self.selected == 0 {
            assert((s + n - 1) % n == n - 1) by (nonlinear_arith)
                requires s == 0, n >= 1;
            self.selected = n_results - 1;
        } else {
            assert((s + n - 1) % n == s - 1) by (nonlinear_arith)
                requires 1 <= s < n;
            self.selected = self.selected - 1;
        }
    }

    /// The command at the highlighted row of `ranked`, if there is such a row.
    pub fn highlighted(&self, ranked: &Vec<usize>) -> (r: Option<usize>)
        ensures
            r == (if self.selection() < ranked@.len() {
                Some(ranked@[self.selection() as int])
            } else {
                None
            }),
    {
        if self.selected < ranked.len() {
            Some(ranked[self.selected])
        } else {
            None
        }
    }
}

/// Moving the highlight down and then up returns it to the row it started on.
pub proof fn lemma_next_then_previous(selected: nat, n_results: nat)
    requires
        selected < n_results,
    ensures
        ((((selected + 1) % n_results) + n_results - 1) % (n_results as int)) == selected,
{
    if selected + 1 == n_results {
        assert((selected + 1) % n_results == 0) by (nonlinear_arith)
            requires selected + 1 == n_results;
        assert(((n_results - 1) as int) % (n_results as int) == n_results - 1) by (nonlinear_arith)
            requires n_results >= 1;
    } else {
        assert((selected + 1) % n_results == selected + 1) by (nonlinear_arith)
            requires selected + 1 < n_results;
        assert(((selected + n_results) as int) % (n_results as int) == selected) by (nonlinear_arith)
            requires selected < n_results;
    }
}

} // verus!
