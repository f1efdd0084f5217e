//! What a query can earn against a text.
//!
//! The matcher counts the points of a word in 16 bits and those of a query in
//! 32. A word is matched character by character, along the text. A matched
//! character earns 16 points and the bonus of its place; the first one earns its
//! bonus twice. Where it follows right behind another matched one, it earns the
//! highest bonus since the matching was last interrupted, and 4 at least. An
//! interruption costs 3 points and more.
use vstd::prelude::*;
use vstd::string::*;
use vstd::utf8::encode_utf8;

use crate::text::{ascii_lower, ascii_lower_of, chars_of, split};

verus! {

/// Whether a character is ASCII.
pub open spec fn ascii(c: char) -> bool {
    c <= '\u{7f}'
}

/// Whether a text is ASCII throughout.
pub open spec fn all_ascii(s: Seq<char>) -> bool {
    forall|i: int| 0 <= i < s.len() ==> ascii(#[trigger] s[i])
}

fn is_all_ascii(v: &[char]) -> (r: bool)
    ensures
        r == all_ascii(v@),
{
    let mut i: usize = 0;
    while i < v.len()
        invariant
            i <= v@.len(),
            forall|k: int| 0 <= k < i ==> ascii(#[trigger] v@[k]),
        decreases v@.len() - i,
    {
        if v[i] > '\u{7f}' {
            assert(!ascii(v@[i as int]));
            return false;
        }
        i = i + 1;
    }
    true
}

/// Whether a word of the query ends at a position: at a space with no backslash
/// in front of it.
pub open spec fn word_ends(query: Seq<char>, i: int) -> bool {
    query[i] == ' ' && !(i > 0 && query[i - 1] == '\\')
}

/// The words of a query.
pub open spec fn words(query: Seq<char>) -> Seq<Seq<char>>
    decreases query.len(),
{
    if query.len() == 0 {
        seq![Seq::empty()]
    } else {
        let front = words(query.drop_last());
        if word_ends(query, query.len() - 1) {
            front.push(Seq::empty())
        } else {
            front.drop_last().push(front.last().push(query.last()))
        }
    }
}

/// The contents of some words.
pub open spec fn words_of(v: Seq<Vec<char>>) -> Seq<Seq<char>> {
    v.map_values(|w: Vec<char>| w@)
}

/// The words of a query.
fn split_words(query: &[char]) -> (r: Vec<Vec<char>>)
    ensures
        words_of(r@) == words(query@),
{
    let mut done: Vec<Vec<char>> = Vec::new();
    let mut word: Vec<char> = Vec::new();
    let mut i: usize = 0;
    assert(query@.take(0) =~= Seq::<char>::empty());
    assert(words_of(done@).push(word@) =~= words(query@.take(0)));
    while i < query.len()
        invariant
            i <= query@.len(),
            words_of(done@).push(word@) == words(query@.take(i as int)),
        decreases query@.len() - i,
    {
        let ghost was = words_of(done@);
        let ghost so_far = word@;
        assert(query@.take(i + 1).drop_last() =~= query@.take(i as int));
        assert(was.push(so_far).drop_last() =~= was);
        if query[i] == ' ' && !(i > 0 && query[i - 1] == '\\') {
            assert(word_ends(query@.take(i + 1), i as int));
            done.push(word);
            word = Vec::new();
            assert(words_of(done@) =~= was.push(so_far));
            assert(word@ =~= Seq::<char>::empty());
        } else {
            assert(!word_ends(query@.take(i + 1), i as int));
            word.push(query[i]);
        }
        i = i + 1;
    }
    assert(query@.take(i as int) =~= query@);
    let ghost was = words_of(done@);
    let ghost last = word@;
    done.push(word);
    assert(words_of(done@) =~= was.push(last));
    done
}

/// Whether a word is matched in whatever case: an ASCII one with a capital is
/// not.
pub open spec fn folds(word: Seq<char>) -> bool {
    !all_ascii(word) || forall|i: int|
        0 <= i < word.len() ==> !('A' <= #[trigger] word[i] <= 'Z')
}

fn is_folding(word: &[char]) -> (r: bool)
    ensures
        r == folds(word@),
{
    if !is_all_ascii(word) {
        return true;
    }
    let mut i: usize = 0;
    while i < word.len()
        invariant
            all_ascii(word@),
            i <= word@.len(),
            forall|k: int| 0 <= k < i ==> !('A' <= #[trigger] word@[k] <= 'Z'),
        decreases word@.len() - i,
    {
        if 'A' <= word[i] && word[i] <= 'Z' {
            return false;
        }
        i = i + 1;
    }
    true
}

/// Whether an ASCII character of a text can match one of a word.
pub open spec fn alike(fold: bool, c: char, d: char) -> bool {
    c == d || (fold && ascii_lower(c) == ascii_lower(d))
}

fn is_alike(fold: bool, c: char, d: char) -> (r: bool)
    ensures
        r == alike(fold, c, d),
{
    c == d || (fold && ascii_lower_of(c) == ascii_lower_of(d))
}

/// Whether a character of a text can match some character of a word. Of one that
/// is not ASCII it is taken that it can.
pub open spec fn usable(word: Seq<char>, key: Seq<char>, i: int) -> bool {
    !ascii(key[i]) || exists|j: int|
        0 <= j < word.len() && alike(folds(word), key[i], #[trigger] word[j])
}

fn is_usable(word: &[char], fold: bool, key: &[char], i: usize) -> (r: bool)
    requires
        fold == folds(word@),
        i < key@.len(),
    ensures
        r == usable(word@, key@, i as int),
{
    if key[i] > '\u{7f}' {
        return true;
    }
    let mut j: usize = 0;
    while j < word.len()
        invariant
            fold == folds(word@),
            i < key@.len(),
            ascii(key@[i as int]),
            j <= word@.len(),
            forall|k: int| 0 <= k < j ==> !alike(fold, key@[i as int], #[trigger] word@[k]),
        decreases word@.len() - j,
    {
        if is_alike(fold, key[i], word[j]) {
            return true;
        }
        j = j + 1;
    }
    false
}

/// A character that can make one with its neighbours.
pub open spec fn loose(c: char) -> bool {
    !ascii(c) || c == '\r' || c == '\n'
}

fn is_loose(c: char) -> (r: bool)
    ensures
        r == loose(c),
{
    c > '\u{7f}' || c == '\r' || c == '\n'
}

/// Whether what stands in front of a place is not told by the character there.
pub open spec fn unclear(key: Seq<char>, i: int) -> bool {
    ||| loose(key[i])
    ||| i >= 1 && loose(key[i - 1])
    ||| i >= 2 && loose(key[i - 2])
}

fn is_unclear(key: &[char], i: usize) -> (r: bool)
    requires
        i < key@.len(),
    ensures
        r == unclear(key@, i as int),
{
    is_loose(key[i]) || (i >= 1 && is_loose(key[i - 1])) || (i >= 2 && is_loose(key[i - 2]))
}

/// Whether two characters can match two neighbours in an ASCII word; a backslash
/// between those may be an escape.
pub open spec fn pair_at(word: Seq<char>, c: char, d: char, j: int) -> bool {
    &&& alike(folds(word), c, word[j])
    &&& {
        ||| j + 1 < word.len() && alike(folds(word), d, word[j + 1])
        ||| j + 2 < word.len() && word[j + 1] == '\\' && alike(folds(word), d, word[j + 2])
    }
}

/// Whether two characters can match two neighbours in an ASCII word.
pub open spec fn pairs(word: Seq<char>, c: char, d: char) -> bool {
    exists|j: int| 0 <= j < word.len() && #[trigger] pair_at(word, c, d, j)
}

fn has_pair(word: &[char], fold: bool, c: char, d: char) -> (r: bool)
    requires
        fold == folds(word@),
    ensures
        r == pairs(word@, c, d),
{
    let n: usize = word.len();
    let mut j: usize = 0;
    while j < n
        invariant
            fold == folds(word@),
            j <= n == word@.len(),
            forall|k: int| 0 <= k < j ==> !#[trigger] pair_at(word@, c, d, k),
        decreases n - j,
    {
        if is_alike(fold, c, word[j]) && ((n - j > 1 && is_alike(fold, d, word[j + 1])) || (n - j
            > 2 && word[j + 1] == '\\' && is_alike(fold, d, word[j + 2]))) {
            assert(pair_at(word@, c, d, j as int));
            return true;
        }
        assert(!pair_at(word@, c, d, j as int));
        j = j + 1;
    }
    false
}

/// Whether a character of a text and the one in front of it can match two
/// neighbours in the word.
pub open spec fn linked(word: Seq<char>, key: Seq<char>, i: int) -> bool {
    &&& i > 0
    &&& usable(word, key, i)
    &&& {
        ||| unclear(key, i)
        ||| usable(word, key, i - 1) && (!all_ascii(word) || pairs(word, key[i - 1], key[i]))
    }
}

/// What a place in a text is, as far as bonuses go.
#[derive(Debug, Clone, Copy, PartialEq, Eq, Structural)]
pub enum Place {
    Space,
    Mark,
    Delimiter,
    Lower,
    Upper,
    Digit,
}

/// What an ASCII character makes of its place.
pub open spec fn place(c: char) -> Place {
    if 'a' <= c <= 'z' {
        Place::Lower
    } else if 'A' <= c <= 'Z' {
        Place::Upper
    } else if '0' <= c <= '9' {
        Place::Digit
    } else if c == ' ' || c == '\t' || c == '\n' || c == '\u{c}' || c == '\r' {
        Place::Space
    } else if c == '/' || c == ',' || c == ':' || c == ';' || c == '|' {
        Place::Delimiter
    } else {
        Place::Mark
    }
}

fn place_of(c: char) -> (r: Place)
    ensures
        r == place(c),
{
    if 'a' <= c && c <= 'z' {
        Place::Lower
    } else if 'A' <= c && c <= 'Z' {
        Place::Upper
    } else if '0' <= c && c <= '9' {
        Place::Digit
    } else if c == ' ' || c == '\t' || c == '\n' || c == '\u{c}' || c == '\r' {
        Place::Space
    } else if c == '/' || c == ',' || c == ':' || c == ';' || c == '|' {
        Place::Delimiter
    } else {
        Place::Mark
    }
}

/// The bonus of a place behind another.
pub open spec fn step_bonus(before: Place, at: Place) -> nat {
    let letter = at == Place::Lower || at == Place::Upper || at == Place::Digit;
    if letter && before == Place::Space {
        10
    } else if letter && before == Place::Delimiter {
        9
    } else if letter && before == Place::Mark {
        8
    } else if (before == Place::Lower && at == Place::Upper) || (before != Place::Digit && at
        == Place::Digit) {
        5
    } else if at == Place::Space {
        10
    } else if at == Place::Mark {
        8
    } else {
        0
    }
}

fn step_bonus_of(before: Place, at: Place) -> (r: u128)
    ensures
        r == step_bonus(before, at),
{
    let letter = at == Place::Lower || at == Place::Upper || at == Place::Digit;
    if letter && before == Place::Space {
        10
    } else if letter && before == Place::Delimiter {
        9
    } else if letter && before == Place::Mark {
        8
    } else if (before == Place::Lower && at == Place::Upper) || (before != Place::Digit && at
        == Place::Digit) {
        5
    } else if at == Place::Space {
        10
    } else if at == Place::Mark {
        8
    } else {
        0
    }
}

/// The bonus of a place in a text, at most.
pub open spec fn bonus(key: Seq<char>, i: int) -> nat {
    if unclear(key, i) {
        10
    } else if i == 0 {
        step_bonus(Place::Space, place(key[0]))
    } else {
        step_bonus(place(key[i - 1]), place(key[i]))
    }
}

fn bonus_of(key: &[char], i: usize) -> (r: u128)
    requires
        i < key@.len(),
    ensures
        r == bonus(key@, i as int),
        r <= 10,
{
    if is_unclear(key, i) {
        10
    } else if i == 0 {
        step_bonus_of(Place::Space, place_of(key[0]))
    } else {
        step_bonus_of(place_of(key[i - 1]), place_of(key[i]))
    }
}

/// The highest bonus that an uninterrupted match can have met when it comes to a
/// place.
pub open spec fn carried(word: Seq<char>, key: Seq<char>, i: int) -> nat
    decreases i,
{
    if linked(word, key, i) && carried(word, key, i - 1) > bonus(key, i) {
        carried(word, key, i - 1)
    } else {
        bonus(key, i)
    }
}

/// What matching a character of a text earns, at most, less what it costs where
/// the matching must have been interrupted.
pub open spec fn worth(word: Seq<char>, key: Seq<char>, i: int) -> nat {
    if !usable(word, key, i) {
        0
    } else if linked(word, key, i) {
        if carried(word, key, i) > 4 {
            16 + carried(word, key, i)
        } else {
            20
        }
    } else {
        13 + bonus(key, i)
    }
}

/// What each character of a text is worth to a word.
pub open spec fn worths(word: Seq<char>, key: Seq<char>) -> Seq<nat> {
    Seq::new(key.len(), |i: int| worth(word, key, i))
}

/// What some numbers stand for.
pub open spec fn nats(v: Seq<u128>) -> Seq<nat> {
    v.map_values(|x: u128| x as nat)
}

fn worths_of(word: &[char], key: &[char]) -> (r: Vec<u128>)
    ensures
        nats(r@) == worths(word@, key@),
{
    let fold = is_folding(word);
    let plain = is_all_ascii(word);
    let ghost all = worths(word@, key@);
    let mut out: Vec<u128> = Vec::new();
    let mut before_usable = false;
    let mut before_carried: u128 = 0;
    let mut i: usize = 0;
    while i < key.len()
        invariant
            fold == folds(word@),
            plain == all_ascii(word@),
            all == worths(word@, key@),
            i <= key@.len(),
            nats(out@) == all.take(i as int),
            i > 0 ==> before_usable == usable(word@, key@, i - 1),
            i > 0 ==> before_carried == carried(word@, key@, i - 1),
            before_carried <= 10,
        decreases key@.len() - i,
    {
        let can = is_usable(word, fold, key, i);
        let link = i > 0 && can && (is_unclear(key, i) || (before_usable && (!plain || has_pair(
            word,
            fold,
            key[i - 1],
            key[i],
        ))));
        assert(link == linked(word@, key@, i as int));
        let own: u128 = bonus_of(key, i);
        let met: u128 = if link && before_carried > own {
            before_carried
        } else {
            own
        };
        assert(met == carried(word@, key@, i as int));
        let w: u128 = if !can {
            0
        } else if link {
            if met > 4 {
                16 + met
            } else {
                20
            }
        } else {
            13 + own
        };
        assert(w == worth(word@, key@, i as int));
        let ghost was = nats(out@);
        out.push(w);
        assert(nats(out@) =~= was.push(w as nat));
        assert(all.take(i + 1) =~= all.take(i as int).push(all[i as int]));
        before_usable = can;
        before_carried = met;
        i = i + 1;
    }
    assert(all.take(i as int) =~= all);
    out
}

/// How many of the values are `t` or more.
pub open spec fn at_least(values: Seq<nat>, t: nat) -> nat
    decreases values.len(),
{
    if values.len() == 0 {
        0
    } else if values.last() >= t {
        at_least(values.drop_last(), t) + 1
    } else {
        at_least(values.drop_last(), t)
    }
}

/// The sum of the `n` largest values, each of them counted up to `t`.
pub open spec fn largest(values: Seq<nat>, n: nat, t: nat) -> nat
    decreases t,
{
    if t == 0 {
        0
    } else {
        let reaching = at_least(values, t);
        largest(values, n, (t - 1) as nat) + (if reaching < n {
            reaching
        } else {
            n
        })
    }
}

fn count_at_least(values: &[u128], t: u128) -> (r: usize)
    ensures
        r == at_least(nats(values@), t as nat),
{
    let ghost all = nats(values@);
    let mut n: usize = 0;
    let mut i: usize = 0;
    assert(all.take(0) =~= Seq::<nat>::empty());
    while i < values.len()
        invariant
            all == nats(values@),
            n <= i <= values@.len(),
            n == at_least(all.take(i as int), t as nat),
        decreases values@.len() - i,
    {
        assert(all.take(i + 1).drop_last() =~= all.take(i as int));
        assert(all.take(i + 1).last() == values@[i as int]);
        if values[i] >= t {
            n = n + 1;
        }
        i = i + 1;
    }
    assert(all.take(i as int) =~= all);
    n
}

/// How many characters the matcher makes of a word, at most: in a word that is
/// not ASCII it can double each backslash.
pub open spec fn needle_len(word: Seq<char>) -> nat {
    if all_ascii(word) {
        word.len()
    } else {
        word.len() + backslashes(word)
    }
}

/// How many backslashes a text holds.
pub open spec fn backslashes(s: Seq<char>) -> nat
    decreases s.len(),
{
    if s.len() == 0 {
        0
    } else if s.last() == '\\' {
        backslashes(s.drop_last()) + 1
    } else {
        backslashes(s.drop_last())
    }
}

fn count_backslashes(word: &[char]) -> (r: usize)
    ensures
        r == backslashes(word@),
{
    let mut n: usize = 0;
    let mut i: usize = 0;
    assert(word@.take(0) =~= Seq::<char>::empty());
    while i < word.len()
        invariant
            n <= i <= word@.len(),
            n == backslashes(word@.take(i as int)),
        decreases word@.len() - i,
    {
        assert(word@.take(i + 1).drop_last() =~= word@.take(i as int));
        if word[i] == '\\' {
            n = n + 1;
        }
        i = i + 1;
    }
    assert(word@.take(i as int) =~= word@);
    n
}

fn needle_len_of(word: &[char]) -> (r: u128)
    ensures
        r == needle_len(word@),
        r <= 2 * usize::MAX,
{
    if is_all_ascii(word) {
        word.len() as u128
    } else {
        word.len() as u128 + count_backslashes(word) as u128
    }
}

/// What a word can earn against a text: the worth of the characters that are
/// worth most, as many as the word has, and for the first one the bonus once more
/// and no interruption.
pub open spec fn earned(word: Seq<char>, key: Seq<char>) -> nat {
    13 + largest(worths(word, key), needle_len(word), 26)
}

fn earned_of(word: &[char], key: &[char]) -> (r: u128)
    ensures
        r == earned(word@, key@),
{
    let values = worths_of(word, key);
    let n: u128 = needle_len_of(word);
    let mut sum: u128 = 0;
    let mut t: u128 = 0;
    while t < 26
        invariant
            t <= 26,
            n == needle_len(word@),
            nats(values@) == worths(word@, key@),
            sum == largest(nats(values@), n as nat, t as nat),
            sum <= t * usize::MAX,
        decreases 26 - t,
    {
        let reaching: u128 = count_at_least(&values, t + 1) as u128;
        sum = sum + if reaching < n {
            reaching
        } else {
            n
        };
        t = t + 1;
    }
    13 + sum
}

/// Whether a word asks that it does not stand in a text.
pub open spec fn negated(word: Seq<char>) -> bool {
    word.len() > 0 && word[0] == '!'
}

/// A negated word without the signs around it.
pub open spec fn bare_word(word: Seq<char>) -> Seq<char> {
    let rest = word.skip(1);
    let bare = if rest.len() > 0 && (rest[0] == '^' || rest[0] == '\'') {
        rest.skip(1)
    } else {
        rest
    };
    if bare.len() > 0 && bare.last() == '$' {
        bare.drop_last()
    } else {
        bare
    }
}

/// Whether a text stands in another from a position on, as far as the word that
/// it comes from tells cases apart.
pub open spec fn stands(fold: bool, text: Seq<char>, key: Seq<char>, i: int) -> bool {
    i + text.len() <= key.len() && forall|k: int|
        0 <= k < text.len() ==> alike(fold, key[i + k], #[trigger] text[k])
}

/// Whether a negated word is sure not to stand in a text.
pub open spec fn absent(word: Seq<char>, key: Seq<char>) -> bool {
    &&& negated(word)
    &&& all_ascii(word)
    &&& all_ascii(key)
    &&& backslashes(word) == 0
    &&& forall|i: int| 0 <= i <= key.len() ==> !#[trigger] stands(folds(word), bare_word(word), key, i)
}

fn is_absent(word: &[char], key: &[char]) -> (r: bool)
    ensures
        r == absent(word@, key@),
{
    if word.len() == 0 || word[0] != '!' || !is_all_ascii(word) || !is_all_ascii(key)
        || count_backslashes(word) > 0 {
        return false;
    }
    let fold = is_folding(word);
    let n: usize = word.len();
    let from: usize = if n > 1 && (word[1] == '^' || word[1] == '\'') {
        2
    } else {
        1
    };
    let to: usize = if n > from && word[n - 1] == '$' {
        n - 1
    } else {
        n
    };
    let ghost bare = bare_word(word@);
    assert(bare =~= word@.subrange(from as int, to as int));
    let len: usize = to - from;
    let mut i: usize = 0;
    while i <= key.len()
        invariant
            fold == folds(word@),
            from <= to <= n == word@.len(),
            len == to - from,
            bare == bare_word(word@),
            bare == word@.subrange(from as int, to as int),
            i <= key@.len() + 1,
            negated(word@),
            all_ascii(word@),
            all_ascii(key@),
            backslashes(word@) == 0,
            forall|k: int| 0 <= k < i ==> !#[trigger] stands(fold, bare, key@, k),
        decreases key@.len() + 1 - i,
    {
        if len <= key.len() - i {
            let mut k: usize = 0;
            while k < len && is_alike(fold, key[i + k], word[from + k])
                invariant
                    from <= to <= word@.len(),
                    len == to - from,
                    bare == word@.subrange(from as int, to as int),
                    i + len <= key@.len() <= usize::MAX,
                    k <= len,
                    forall|m: int| 0 <= m < k ==> alike(fold, key@[i + m], #[trigger] bare[m]),
                decreases len - k,
            {
                k = k + 1;
            }
            if k == len {
                assert(stands(fold, bare, key@, i as int));
                return false;
            }
            assert(!alike(fold, key@[i + k], bare[k as int]));
        }
        assert(!stands(fold, bare, key@, i as int));
        if i == key.len() {
            return true;
        }
        i = i + 1;
    }
    true
}

/// Whether a word is sure to earn nothing: one that is not ASCII against a text
/// that is, and a negated one that does not stand in the text.
pub open spec fn silent(word: Seq<char>, key: Seq<char>) -> bool {
    (!all_ascii(word) && all_ascii(key)) || absent(word, key)
}

/// The points that the matcher counts for a word against a text, at most.
pub open spec fn points(word: Seq<char>, key: Seq<char>) -> nat {
    let by_length = 10 + 26 * needle_len(word);
    if silent(word, key) {
        0
    } else if by_length < earned(word, key) {
        by_length
    } else {
        earned(word, key)
    }
}

fn points_of(word: &[char], key: &[char]) -> (r: u128)
    ensures
        r == points(word@, key@),
{
    let by_length: u128 = 10 + 26 * needle_len_of(word);
    if (!is_all_ascii(word) && is_all_ascii(key)) || is_absent(word, key) {
        return 0;
    }
    let by_text: u128 = earned_of(word, key);
    if by_length < by_text {
        by_length
    } else {
        by_text
    }
}

/// The points that the matcher adds up for some words, at most; a negated one
/// adds none.
pub open spec fn total(words: Seq<Seq<char>>, key: Seq<char>) -> nat
    decreases words.len(),
{
    if words.len() == 0 {
        0
    } else if negated(words.last()) {
        total(words.drop_last(), key)
    } else {
        total(words.drop_last(), key) + points(words.last(), key)
    }
}

/// Whether no word can earn more points than fit.
pub open spec fn each_fits(words: Seq<Seq<char>>, key: Seq<char>) -> bool {
    forall|k: int| 0 <= k < words.len() ==> points(#[trigger] words[k], key) <= u16::MAX
}

/// Whether the matcher can score the text for the query: the text is under 2^32
/// bytes, and neither the points of a word nor their sum can be more than fit.
pub open spec fn scorable(query: Seq<char>, key: Seq<char>) -> bool {
    &&& encode_utf8(key).len() <= u32::MAX
    &&& each_fits(words(query), key)
    &&& total(words(query), key) <= u32::MAX
}

proof fn lemma_total_grows(words: Seq<Seq<char>>, key: Seq<char>, n: int)
    requires
        0 <= n <= words.len(),
        total(words.take(n), key) > u32::MAX,
    ensures
        total(words, key) > u32::MAX,
    decreases words.len() - n,
{
    if n == words.len() {
        assert(words.take(n) =~= words);
    } else {
        assert(words.take(n + 1).drop_last() =~= words.take(n));
        lemma_total_grows(words, key, n + 1);
    }
}

/// The points of some words by their lengths alone.
pub open spec fn total_by_length(words: Seq<Seq<char>>) -> nat
    decreases words.len(),
{
    if words.len() == 0 {
        0
    } else {
        total_by_length(words.drop_last()) + 10 + 26 * needle_len(words.last())
    }
}

/// Whether some words fit by their lengths alone, whatever the text.
pub open spec fn short(words: Seq<Seq<char>>) -> bool {
    &&& forall|k: int|
        0 <= k < words.len() ==> 10 + 26 * needle_len(#[trigger] words[k]) <= u16::MAX
    &&& total_by_length(words) <= u32::MAX
}

proof fn lemma_total_by_length(words: Seq<Seq<char>>, key: Seq<char>)
    ensures
        total(words, key) <= total_by_length(words),
    decreases words.len(),
{
    if words.len() > 0 {
        lemma_total_by_length(words.drop_last(), key);
    }
}

proof fn lemma_total_by_length_grows(words: Seq<Seq<char>>, n: int)
    requires
        0 <= n <= words.len(),
    ensures
        total_by_length(words.take(n)) <= total_by_length(words),
    decreases words.len() - n,
{
    if n == words.len() {
        assert(words.take(n) =~= words);
    } else {
        assert(words.take(n + 1).drop_last() =~= words.take(n));
        lemma_total_by_length_grows(words, n + 1);
    }
}

/// Short words fit against every text.
proof fn lemma_short(words: Seq<Seq<char>>, key: Seq<char>)
    requires
        short(words),
    ensures
        each_fits(words, key),
        total(words, key) <= u32::MAX,
{
    lemma_total_by_length(words, key);
}

fn are_short(ws: &[Vec<char>]) -> (r: bool)
    ensures
        r == short(words_of(ws@)),
{
    let ghost all = words_of(ws@);
    let mut sum: u128 = 0;
    let mut i: usize = 0;
    assert(all.take(0) =~= Seq::<Seq<char>>::empty());
    while i < ws.len()
        invariant
            all == words_of(ws@),
            i <= ws@.len(),
            sum == total_by_length(all.take(i as int)),
            sum <= u32::MAX,
            forall|m: int|
                0 <= m < i ==> 10 + 26 * needle_len(#[trigger] all[m]) <= u16::MAX,
        decreases ws@.len() - i,
    {
        assert(all[i as int] == ws@[i as int]@);
        assert(all.take(i + 1).drop_last() =~= all.take(i as int));
        let p: u128 = 10 + 26 * needle_len_of(&ws[i]);
        sum = sum + p;
        i = i + 1;
        if p > u16::MAX as u128 || sum > u32::MAX as u128 {
            proof {
                lemma_total_by_length_grows(all, i as int);
            }
            return false;
        }
    }
    assert(all.take(i as int) =~= all);
    true
}

/// Whether the matcher can score the text for the query.
pub fn is_scorable(query: &str, key: &str) -> (r: bool)
    ensures
        r == scorable(query@, key@),
{
    if key.as_bytes().len() as u64 > u32::MAX as u64 {
        return false;
    }
    let q = chars_of(query);
    let k = chars_of(key);
    let ws = split_words(&q);
    if are_short(&ws) {
        proof {
            lemma_short(words(query@), key@);
        }
        return true;
    }
    let ghost all = words(query@);
    let mut sum: u128 = 0;
    let mut i: usize = 0;
    assert(all.take(0) =~= Seq::<Seq<char>>::empty());
    while i < ws.len()
        invariant
            k@ == key@,
            encode_utf8(key@).len() <= u32::MAX,
            all == words(query@),
            words_of(ws@) == all,
            i <= ws@.len() == all.len(),
            sum == total(all.take(i as int), key@),
            sum <= u32::MAX,
            forall|m: int| 0 <= m < i ==> points(#[trigger] all[m], key@) <= u16::MAX,
        decreases ws@.len() - i,
    {
        assert(all[i as int] == ws@[i as int]@);
        assert(all.take(i + 1).drop_last() =~= all.take(i as int));
        let p: u128 = points_of(&ws[i], &k);
        if p > u16::MAX as u128 {
            return false;
        }
        if ws[i].len() == 0 || ws[i][0] != '!' {
            sum = sum + p;
        }
        i = i + 1;
        if sum > u32::MAX as u128 {
            proof {
                lemma_total_grows(all, key@, i as int);
            }
            return false;
        }
    }
    assert(all.take(i as int) =~= all);
    true
}

/// How many characters some words have together.
pub open spec fn letters(words: Seq<Seq<char>>) -> nat
    decreases words.len(),
{
    if words.len() == 0 {
        0
    } else {
        letters(words.drop_last()) + words.last().len()
    }
}

/// Every character of a query but the spaces that end a word is in one of its words.
pub proof fn law_words_make_up_the_query(query: Seq<char>)
    ensures
        words(query).len() > 0,
        letters(words(query)) + words(query).len() == query.len() + 1,
    decreases query.len(),
{
    let all = words(query);
    if query.len() == 0 {
        assert(all.drop_last() =~= Seq::empty());
        assert(letters(all.drop_last()) == 0);
    } else {
        let front = words(query.drop_last());
        law_words_make_up_the_query(query.drop_last());
        if word_ends(query, query.len() - 1) {
            assert(all.drop_last() =~= front);
        } else {
            assert(all.drop_last() =~= front.drop_last());
        }
    }
}

/// The words of a query without a backslash are what stands between its spaces.
pub proof fn law_words_stand_between_spaces(query: Seq<char>)
    requires
        !query.contains('\\'),
    ensures
        words(query) == split(query, ' '),
    decreases query.len(),
{
    if query.len() > 0 {
        let front = query.drop_last();
        assert forall|i: int| 0 <= i < front.len() implies front[i] != '\\' by {
            assert(query.contains(query[i]));
        }
        law_words_stand_between_spaces(front);
        if query.len() > 1 {
            assert(query.contains(query[query.len() - 2]));
        }
    }
}

proof fn lemma_backslashes(s: Seq<char>)
    ensures
        backslashes(s) <= s.len(),
    decreases s.len(),
{
    if s.len() > 0 {
        lemma_backslashes(s.drop_last());
    }
}

proof fn lemma_letters(words: Seq<Seq<char>>)
    ensures
        total_by_length(words) <= 10 * words.len() + 52 * letters(words),
        forall|k: int| 0 <= k < words.len() ==> (#[trigger] words[k]).len() <= letters(words),
    decreases words.len(),
{
    if words.len() > 0 {
        let front = words.drop_last();
        lemma_letters(front);
        lemma_backslashes(words.last());
        assert forall|k: int| 0 <= k < words.len() implies (#[trigger] words[k]).len() <= letters(
            words,
        ) by {
            if k < front.len() {
                assert(front[k] == words[k]);
            }
        }
    }
}

/// Every query of up to 1260 characters can be scored against every text under 2^32
/// bytes.
pub proof fn law_usual_queries_are_scored(query: Seq<char>, key: Seq<char>)
    requires
        query.len() <= 1260,
        encode_utf8(key).len() <= u32::MAX,
    ensures
        scorable(query, key),
{
    let all = words(query);
    law_words_make_up_the_query(query);
    lemma_letters(all);
    assert forall|k: int| 0 <= k < all.len() implies 10 + 26 * needle_len(#[trigger] all[k])
        <= u16::MAX by {
        lemma_backslashes(all[k]);
    }
    lemma_short(all, key);
}

/// No text of 2^32 bytes or more is scored.
pub proof fn law_huge_texts_are_not_scored(query: Seq<char>, key: Seq<char>)
    requires
        encode_utf8(key).len() > u32::MAX,
    ensures
        !scorable(query, key),
{
}

} // verus!
