//! Ranking by a fuzzy match.
use vstd::prelude::*;
use vstd::string::*;

use crate::commands::tui::points::{is_scorable, scorable};
use crate::seqs::{first_index, lemma_first_index, lemma_is_first_index};
use crate::text::texts;

verus! {

/// The score that nucleo gives a text for a query, where the query matches it.
pub uninterp spec fn fuzzy_score(query: Seq<char>, key: Seq<char>) -> Option<u32>;

/// The reusable memory of the `nucleo` matcher.
#[verifier::external_type_specification]
#[verifier::external_body]
pub struct ExMatcher(nucleo::Matcher);

/// `nucleo::Matcher::default`: a matcher. Nothing is claimed of it.
#[verifier::external_body]
pub(crate) fn new_matcher() -> (r: nucleo::Matcher) {
    nucleo::Matcher::default()
}

/// `nucleo::pattern::Pattern::parse` and `score`, with smart case and smart
/// normalization, under the default configuration: the score of the text, where
/// the query matches it. It is a function of the query and the text alone; the
/// matcher only lends its memory. The matcher panics on texts of 2^32 bytes and
/// more, and where the points of a word do not fit in 16 bits or those of the
/// query in 32.
#[verifier::external_body]
fn nucleo_score(query: &str, key: &str, matcher: &mut nucleo::Matcher) -> (r: Option<u32>)
    requires
        scorable(query@, key@),
    ensures
        r == fuzzy_score(query@, key@),
{
    let case = nucleo::pattern::CaseMatching::Smart;
    let normal = nucleo::pattern::Normalization::Smart;
    let pattern = nucleo::pattern::Pattern::parse(query, case, normal);
    let mut buf: Vec<char> = Vec::new();
    matcher.config = nucleo::Config::DEFAULT;
    pattern.score(nucleo::Utf32Str::new(key, &mut buf), matcher)
}

/// The score of a text for a query: the same for every text without a query;
/// none where the matcher might count more points than it has room for.
pub open spec fn score_of(query: Seq<char>, key: Seq<char>) -> Option<u32> {
    if query.len() == 0 {
        Some(0)
    } else if !scorable(query, key) {
        None
    } else {
        fuzzy_score(query, key)
    }
}

/// The score of a text for a query.
pub fn score(query: &str, key: &str, matcher: &mut nucleo::Matcher) -> (r: Option<u32>)
    ensures
        r == score_of(query@, key@),
{
    if query.is_empty() {
        Some(0)
    } else if !is_scorable(query, key) {
        None
    } else {
        nucleo_score(query, key, matcher)
    }
}

/// Where a score goes in an order: behind every score that is not lower.
pub open spec fn place(order: Seq<usize>, scores: Seq<Option<u32>>, s: u32) -> int {
    first_index(order, |i: usize| scores[i as int] is Some && scores[i as int]->0 < s)
}

/// The positions that have a score, the highest first, and equal ones in the
/// order of their positions.
pub open spec fn ranking(scores: Seq<Option<u32>>) -> Seq<usize>
    decreases scores.len(),
{
    if scores.len() == 0 {
        Seq::empty()
    } else {
        let front = ranking(scores.drop_last());
        match scores.last() {
            Some(s) => front.insert(place(front, scores, s), (scores.len() - 1) as usize),
            None => front,
        }
    }
}

/// What makes an order the ranking: it holds the positions that have a score
/// and no others, with higher scores in front of lower ones, and of equal ones
/// the earlier position in front.
pub open spec fn ranks(order: Seq<usize>, scores: Seq<Option<u32>>) -> bool {
    &&& forall|k: int|
        0 <= k < order.len() ==> #[trigger] order[k] < scores.len() && scores[order[k] as int]
            is Some
    &&& forall|i: int|
        0 <= i < scores.len() && (#[trigger] scores[i]) is Some ==> order.contains(i as usize)
    &&& forall|a: int, b: int|
        #![trigger order[a], order[b]]
        0 <= a < b < order.len() ==> {
            let x = scores[order[a] as int]->0;
            let y = scores[order[b] as int]->0;
            x > y || (x == y && order[a] < order[b])
        }
}

/// The ranking holds the positions that have a score and no others, the highest
/// score first and equal ones in the order of their positions.
pub proof fn law_ranking(scores: Seq<Option<u32>>)
    requires
        scores.len() <= usize::MAX,
    ensures
        ranks(ranking(scores), scores),
        ranking(scores).len() <= scores.len(),
    decreases scores.len(),
{
    if scores.len() > 0 {
        let shorter = scores.drop_last();
        let front = ranking(shorter);
        law_ranking(shorter);
        let last = scores.len() - 1;
        assert forall|k: int| 0 <= k < front.len() implies scores[(#[trigger] front[k]) as int]
            == shorter[front[k] as int] by {}
        match scores.last() {
            None => {
                let order = front;
                assert forall|i: int|
                    0 <= i < scores.len() && (#[trigger] scores[i]) is Some implies order.contains(
                    i as usize,
                ) by {
                    assert(i < last);
                    assert(shorter[i] == scores[i]);
                }
            },
            Some(s) => {
                let p = |i: usize| scores[i as int] is Some && scores[i as int]->0 < s;
                let at = place(front, scores, s);
                lemma_first_index(front, p);
                let order = front.insert(at, last as usize);
                assert forall|k: int| 0 <= k < order.len() implies #[trigger] order[k]
                    < scores.len() && scores[order[k] as int] is Some by {
                    if k < at {
                        assert(order[k] == front[k]);
                    } else if k > at {
                        assert(order[k] == front[k - 1]);
                    }
                }
                assert forall|i: int|
                    0 <= i < scores.len() && (#[trigger] scores[i]) is Some implies order.contains(
                    i as usize,
                ) by {
                    if i == last {
                        assert(order[at] == i as usize);
                    } else {
                        assert(shorter[i] == scores[i]);
                        assert(front.contains(i as usize));
                        let k = choose|k: int| 0 <= k < front.len() && front[k] == i as usize;
                        if k < at {
                            assert(order[k] == front[k]);
                        } else {
                            assert(order[k + 1] == front[k]);
                        }
                    }
                }
                assert forall|a: int, b: int|
                    #![trigger order[a], order[b]]
                    0 <= a < b < order.len() implies {
                    let x = scores[order[a] as int]->0;
                    let y = scores[order[b] as int]->0;
                    x > y || (x == y && order[a] < order[b])
                } by {
                    let a2 = if a < at {
                        a
                    } else {
                        a - 1
                    };
                    let b2 = if b < at {
                        b
                    } else {
                        b - 1
                    };
                    if a != at {
                        assert(order[a] == front[a2]);
                    }
                    if b != at {
                        assert(order[b] == front[b2]);
                    }
                    if a != at && b != at {
                        assert(0 <= a2 < b2 < front.len());
                    } else if b == at {
                        assert(!p(front[a2]));
                        assert(shorter[front[a2] as int] is Some);
                    } else {
                        assert(at <= b2);
                        assert(p(front[at]));
                        if b2 > at {
                            assert(scores[front[at] as int]->0 >= scores[front[b2] as int]->0);
                        }
                    }
                }
            },
        }
    }
}

/// There is only one ranking of some scores.
pub proof fn law_ranking_is_unique(a: Seq<usize>, b: Seq<usize>, scores: Seq<Option<u32>>)
    requires
        scores.len() <= usize::MAX,
        ranks(a, scores),
        ranks(b, scores),
    ensures
        a == b,
    decreases a.len() + b.len(),
{
    if a.len() == 0 {
        if b.len() > 0 {
            assert(scores[b[0] as int] is Some);
            assert(a.contains(b[0]));
        }
        assert(a =~= b);
    } else if b.len() == 0 {
        assert(scores[a[0] as int] is Some);
        assert(b.contains(a[0]));
    } else {
        lemma_same_prefix(a, b, scores, a.len() as int);
        lemma_same_prefix(b, a, scores, b.len() as int);
        assert(a =~= b);
    }
}

proof fn lemma_same_prefix(a: Seq<usize>, b: Seq<usize>, scores: Seq<Option<u32>>, n: int)
    requires
        scores.len() <= usize::MAX,
        ranks(a, scores),
        ranks(b, scores),
        0 <= n <= a.len(),
    ensures
        n <= b.len(),
        forall|k: int| 0 <= k < n ==> a[k] == #[trigger] b[k],
    decreases n,
{
    if n > 0 {
        lemma_same_prefix(a, b, scores, n - 1);
        let k = n - 1;
        let x = a[k];
        assert(scores[x as int] is Some);
        assert(b.contains(x));
        let j = choose|j: int| 0 <= j < b.len() && b[j] == x;
        if j < k {
            assert(a[j] == b[j]);
            assert(a[j] != a[k]);
        }
        assert(k < b.len());
        if j > k {
            let y = b[k];
            assert(scores[y as int] is Some);
            assert(a.contains(y));
            let m = choose|m: int| 0 <= m < a.len() && a[m] == y;
            if m < k {
                assert(a[m] == b[m]);
                assert(b[m] != b[k]);
            } else if m == k {
                assert(b[k] != b[j]);
            } else {
                let sx = scores[x as int]->0;
                let sy = scores[y as int]->0;
                assert(a[k] == x && a[m] == y);
                assert(b[k] == y && b[j] == x);
            }
        }
    }
}

/// An order of positions and their scores, being filled.
pub(crate) struct Ranked {
    pub(crate) order: Vec<usize>,
    pub(crate) values: Vec<u32>,
}

impl Ranked {
    /// The ranking of these scores.
    pub(crate) open spec fn ranks_all(self, scores: Seq<Option<u32>>) -> bool {
        &&& self.order@ == ranking(scores)
        &&& self.values@.len() == self.order@.len()
        &&& forall|k: int|
            0 <= k < self.order@.len() ==> (#[trigger] self.order@[k]) < scores.len()
                && scores[self.order@[k] as int] == Some(self.values@[k])
    }

    /// The ranking of no scores.
    pub(crate) fn new() -> (r: Self)
        ensures
            r.ranks_all(Seq::empty()),
    {
        Ranked { order: Vec::new(), values: Vec::new() }
    }

    /// Adds the score of the next position.
    pub(crate) fn add(&mut self, Ghost(scores): Ghost<Seq<Option<u32>>>, position: usize, s: Option<u32>)
        requires
            old(self).ranks_all(scores),
            position == scores.len(),
        ensures
            final(self).ranks_all(scores.push(s)),
    {
        let ghost next = scores.push(s);
        assert(next.drop_last() =~= scores);
        match s {
            None => {},
            Some(v) => {
                let ghost front = self.order@;
                let ghost p = |i: usize| next[i as int] is Some && next[i as int]->0 < v;
                let mut at: usize = 0;
                while at < self.order.len() && self.values[at] >= v
                    invariant
                        self.order@ == front,
                        next == scores.push(s),
                        s == Some(v),
                        self.values@.len() == front.len(),
                        p == (|i: usize| next[i as int] is Some && next[i as int]->0 < v),
                        forall|k: int|
                            0 <= k < front.len() ==> (#[trigger] front[k]) < scores.len()
                                && scores[front[k] as int] == Some(self.values@[k]),
                        at <= front.len(),
                        forall|k: int| 0 <= k < at ==> !p(#[trigger] front[k]),
                    decreases front.len() - at,
                {
                    assert(next[front[at as int] as int] == scores[front[at as int] as int]);
                    at = at + 1;
                }
                proof {
                    if at < front.len() {
                        assert(next[front[at as int] as int] == scores[front[at as int] as int]);
                    }
                    lemma_is_first_index(front, p, at as int);
                }
                self.order.insert(at, position);
                self.values.insert(at, v);
                proof {
                    assert forall|k: int| 0 <= k < self.order@.len() implies (
                    #[trigger] self.order@[k]) < next.len() && next[self.order@[k] as int] == Some(
                        self.values@[k],
                    ) by {
                        if k < at {
                            assert(self.order@[k] == front[k]);
                        } else if k > at {
                            assert(self.order@[k] == front[k - 1]);
                        }
                    }
                }
            },
        }
    }
}

/// The scores of some texts for a query.
pub open spec fn key_scores(query: Seq<char>, keys: Seq<Seq<char>>) -> Seq<Option<u32>> {
    Seq::new(keys.len(), |i: int| score_of(query, keys[i]))
}

/// The positions of the texts that a query matches, the best match first.
pub fn rank(query: &str, keys: &Vec<String>, matcher: &mut nucleo::Matcher) -> (r: Vec<usize>)
    ensures
        r@ == ranking(key_scores(query@, texts(keys@))),
{
    let mut ranked = Ranked::new();
    let ghost scores: Seq<Option<u32>> = Seq::empty();
    let ghost all = key_scores(query@, texts(keys@));
    let mut i: usize = 0;
    while i < keys.len()
        invariant
            i <= keys@.len(),
            all == key_scores(query@, texts(keys@)),
            scores == all.take(i as int),
            ranked.ranks_all(scores),
        decreases keys@.len() - i,
    {
        let s = score(query, keys[i].as_str(), matcher);
        ranked.add(Ghost(scores), i, s);
        proof {
            assert(all[i as int] == s);
            scores = scores.push(s);
            assert(scores =~= all.take(i + 1));
        }
        i = i + 1;
    }
    assert(all.take(i as int) =~= all);
    ranked.order
}

/// Without a query every text has the same score, and with one a text that the
/// matcher can count has the matcher's. No other text has any.
pub proof fn law_scores(query: Seq<char>, key: Seq<char>, other: Seq<char>)
    ensures
        query.len() == 0 ==> score_of(query, key) is Some && score_of(query, key) == score_of(
            query,
            other,
        ),
        query.len() > 0 && scorable(query, key) ==> score_of(query, key) == fuzzy_score(query, key),
        query.len() > 0 && !scorable(query, key) ==> score_of(query, key) is None,
{
}

/// The positions below `n`, in order.
pub open spec fn in_order(n: nat) -> Seq<usize> {
    Seq::new(n, |i: int| i as usize)
}

/// Without a query everything is shown, in the order that it stands in.
pub proof fn law_everything_without_a_query(keys: Seq<Seq<char>>)
    requires
        keys.len() <= usize::MAX,
    ensures
        ranking(key_scores(Seq::empty(), keys)) == in_order(keys.len()),
{
    let scores = key_scores(Seq::empty(), keys);
    let all = in_order(keys.len());
    law_ranking(scores);
    assert forall|i: int| 0 <= i < scores.len() && (#[trigger] scores[i]) is Some implies all.contains(
        i as usize,
    ) by {
        assert(all[i] == i as usize);
    }
    assert(ranks(all, scores));
    law_ranking_is_unique(all, ranking(scores), scores);
}

} // verus!
