use crate::model::{clone_contacts, opt_view, or_empty, views, Contact, ContactView};
use crate::text::{is_blank, trim};
use fuzzy_matcher::FuzzyMatcher;
use fuzzy_matcher::skim::SkimMatcherV2;
use vstd::prelude::*;
use vstd::string::*;

verus! {

/// The score that the skim matcher, in its second version, with its default
/// weights and told to ignore case, gives to the text `choice` for the
/// pattern `pattern`; `None` where the pattern does not match.
pub uninterp spec fn skim_score(choice: Seq<char>, pattern: Seq<char>) -> Option<i64>;

/// Two characters are the same letter when they are equal or differ only in
/// ASCII case.
pub open spec fn same_letter(a: char, b: char) -> bool {
    ||| a == b
    ||| ('A' <= a && a <= 'Z' && b as u32 == a as u32 + 32)
    ||| ('A' <= b && b <= 'Z' && a as u32 == b as u32 + 32)
}

/// Every character of `pattern` occurs in `text`, in order, up to ASCII case.
pub open spec fn is_subsequence(pattern: Seq<char>, text: Seq<char>) -> bool
    decreases text.len(),
{
    if pattern.len() == 0 {
        true
    } else if text.len() == 0 {
        false
    } else if same_letter(text[0], pattern[0]) {
        is_subsequence(pattern.drop_first(), text.drop_first())
    } else {
        is_subsequence(pattern, text.drop_first())
    }
}

/// Texts longer than this are never scored: the matcher counts in 32 bits,
/// and up to this length its sums stay far inside them.
pub const MAX_SCORED_LEN: usize = 1_000_000;

/// `fuzzy_match` of a fresh `SkimMatcherV2` with `ignore_case`: the score of
/// `choice` for `pattern`. The matcher first looks for the characters of the
/// pattern in the text, in order and up to ASCII case, and gives no score
/// exactly when it does not find them. A fresh matcher starts with empty
/// buffers, so the score depends on the two texts alone.
#[verifier::external_body]
pub(crate) fn fuzzy_score(choice: &str, pattern: &str) -> (r: Option<i64>)
    requires
        choice@.len() <= MAX_SCORED_LEN,
        pattern@.len() <= MAX_SCORED_LEN,
    ensures
        r == skim_score(choice@, pattern@),
        r is Some <==> is_subsequence(pattern@, choice@),
{
    SkimMatcherV2::default().ignore_case().fuzzy_match(choice, pattern)
}

/// The text that a contact is searched by: name, company, email and phone,
/// with one space between each two; a missing field leaves its place empty.
pub open spec fn search_key(c: ContactView) -> Seq<char> {
    c.name + " "@ + or_empty(c.company) + " "@ + or_empty(c.email) + " "@ + or_empty(c.phone)
}

/// The score of a search key for a query: that of the matcher, and none for
/// a key or a query too long to be scored.
pub open spec fn match_score(key: Seq<char>, query: Seq<char>) -> Option<i64> {
    if key.len() <= MAX_SCORED_LEN && query.len() <= MAX_SCORED_LEN {
        skim_score(key, query)
    } else {
        None
    }
}

/// Whether a key matches a query at all.
pub open spec fn matches_query(key: Seq<char>, query: Seq<char>) -> bool {
    &&& key.len() <= MAX_SCORED_LEN
    &&& query.len() <= MAX_SCORED_LEN
    &&& is_subsequence(query, key)
}

/// Adds an optional field to a search key.
fn append_field(key: &mut String, field: &Option<String>)
    ensures
        final(key)@ == old(key)@ + or_empty(opt_view(*field)),
{
    match field {
        Some(s) => {
            key.append(s.as_str());
        },
        None => {
            assert(key@ + Seq::<char>::empty() == key@);
        },
    }
}

/// Builds the text that `c` is searched by.
pub fn search_key_of(c: &Contact) -> (key: String)
    ensures
        key@ == search_key(c@),
{
    let mut key = c.name.clone();
    key.append(" ");
    append_field(&mut key, &c.company);
    key.append(" ");
    append_field(&mut key, &c.email);
    key.append(" ");
    append_field(&mut key, &c.phone);
    key
}

/// Scores `key` for `query`.
pub fn score(key: &str, query: &str) -> (r: Option<i64>)
    ensures
        r == match_score(key@, query@),
        r is Some <==> matches_query(key@, query@),
{
    if key.unicode_len() <= MAX_SCORED_LEN && query.unicode_len() <= MAX_SCORED_LEN {
        fuzzy_score(key, query)
    } else {
        None
    }
}

/// Among scored entries, `i` comes before `j` when it scores higher, or the
/// same and stands earlier.
pub open spec fn outranks(scores: Seq<Option<i64>>, i: int, j: int) -> bool {
    scores[i]->0 > scores[j]->0 || (scores[i]->0 == scores[j]->0 && i < j)
}

/// `order` lists the places of the scored entries of `scores`, each once,
/// from the highest score to the lowest, equal scores in their first order.
pub open spec fn is_ranking(scores: Seq<Option<i64>>, order: Seq<int>) -> bool {
    &&& forall|k: int|
        0 <= k < order.len() ==> 0 <= #[trigger] order[k] < scores.len() && scores[order[k]] is Some
    &&& forall|i: int|
        0 <= i < scores.len() && (#[trigger] scores[i]) is Some ==> order.contains(i)
    &&& forall|k: int, l: int|
        0 <= k < l < order.len() ==> outranks(scores, #[trigger] order[k], #[trigger] order[l])
}

/// The ranking of `scores`. There is exactly one.
pub open spec fn ranking(scores: Seq<Option<i64>>) -> Seq<int> {
    choose|order: Seq<int>| is_ranking(scores, order)
}

/// Where an entry with score `s` goes into `order`: after the last entry that
/// scores at least `s`.
pub open spec fn slot(scores: Seq<Option<i64>>, order: Seq<int>, s: i64) -> int
    decreases order.len(),
{
    if order.len() == 0 {
        0
    } else if scores[order.last()]->0 >= s {
        order.len() as int
    } else {
        slot(scores, order.drop_last(), s)
    }
}

/// A ranking built entry by entry, each put into its slot.
pub open spec fn ranking_by_insertion(scores: Seq<Option<i64>>) -> Seq<int>
    decreases scores.len(),
{
    if scores.len() == 0 {
        Seq::empty()
    } else {
        let rest = ranking_by_insertion(scores.drop_last());
        match scores.last() {
            None => rest,
            Some(s) => rest.insert(slot(scores, rest, s), scores.len() - 1),
        }
    }
}

/// In a ranking, the slot for `s` parts the entries that score at least `s`
/// from those that score less.
pub proof fn lemma_slot(scores: Seq<Option<i64>>, order: Seq<int>, s: i64)
    requires
        forall|k: int|
            0 <= k < order.len() ==> 0 <= #[trigger] order[k] < scores.len() && scores[order[k]] is Some,
        forall|k: int, l: int|
            0 <= k < l < order.len() ==> outranks(scores, #[trigger] order[k], #[trigger] order[l]),
    ensures
        0 <= slot(scores, order, s) <= order.len(),
        forall|k: int| 0 <= k < slot(scores, order, s) ==> scores[#[trigger] order[k]]->0 >= s,
        forall|k: int|
            slot(scores, order, s) <= k < order.len() ==> scores[#[trigger] order[k]]->0 < s,
    decreases order.len(),
{
    if order.len() == 0 {
    } else if scores[order.last()]->0 >= s {
        assert forall|k: int| 0 <= k < order.len() implies scores[#[trigger] order[k]]->0 >= s by {
            if k < order.len() - 1 {
                assert(outranks(scores, order[k], order[order.len() - 1]));
            }
        }
    } else {
        let front = order.drop_last();
        assert forall|k: int, l: int| 0 <= k < l < front.len() implies outranks(
            scores,
            #[trigger] front[k],
            #[trigger] front[l],
        ) by {
            assert(front[k] == order[k] && front[l] == order[l]);
        }
        lemma_slot(scores, front, s);
        let p = slot(scores, front, s);
        assert forall|k: int| 0 <= k < p implies scores[#[trigger] order[k]]->0 >= s by {
            assert(order[k] == front[k]);
        }
        assert forall|k: int| p <= k < order.len() implies scores[#[trigger] order[k]]->0 < s by {
            if k < front.len() {
                assert(order[k] == front[k]);
            }
        }
    }
}

/// A ranking of all entries but the last ranks the whole, where the last
/// entry has no score.
pub proof fn lemma_unscored_last(scores: Seq<Option<i64>>, rest: Seq<int>)
    requires
        scores.len() > 0,
        scores.last() is None,
        is_ranking(scores.drop_last(), rest),
    ensures
        is_ranking(scores, rest),
{
    let front = scores.drop_last();
    assert forall|k: int| 0 <= k < rest.len() implies 0 <= #[trigger] rest[k] < scores.len()
        && scores[rest[k]] is Some by {
        assert(front[rest[k]] == scores[rest[k]]);
    }
    assert forall|i: int|
        0 <= i < scores.len() && (#[trigger] scores[i]) is Some implies rest.contains(i) by {
        assert(front[i] is Some);
    }
    assert forall|k: int, l: int| 0 <= k < l < rest.len() implies outranks(
        scores,
        #[trigger] rest[k],
        #[trigger] rest[l],
    ) by {
        assert(outranks(front, rest[k], rest[l]));
        assert(front[rest[k]] == scores[rest[k]]);
        assert(front[rest[l]] == scores[rest[l]]);
    }
}

/// A ranking of all entries but the last, with the last entry put into its
/// slot, ranks the whole.
pub proof fn lemma_scored_last(scores: Seq<Option<i64>>, rest: Seq<int>, s: i64)
    requires
        scores.len() > 0,
        scores.last() == Some(s),
        is_ranking(scores.drop_last(), rest),
    ensures
        0 <= slot(scores, rest, s) <= rest.len(),
        is_ranking(scores, rest.insert(slot(scores, rest, s), scores.len() - 1)),
{
    let n = scores.len() as int;
    let front = scores.drop_last();
    assert forall|k: int| 0 <= k < rest.len() implies 0 <= #[trigger] rest[k] < n - 1
        && scores[rest[k]] is Some by {
        assert(front[rest[k]] == scores[rest[k]]);
    }
    assert forall|k: int, l: int| 0 <= k < l < rest.len() implies outranks(
        scores,
        #[trigger] rest[k],
        #[trigger] rest[l],
    ) by {
        assert(outranks(front, rest[k], rest[l]));
        assert(front[rest[k]] == scores[rest[k]]);
        assert(front[rest[l]] == scores[rest[l]]);
    }
    lemma_slot(scores, rest, s);
    let p = slot(scores, rest, s);
    let order = rest.insert(p, n - 1);
    assert(order.len() == rest.len() + 1);
    assert(order[p] == n - 1);
    assert forall|k: int| 0 <= k < p implies #[trigger] order[k] == rest[k] by {}
    assert forall|k: int| p < k < order.len() implies #[trigger] order[k] == rest[k - 1] by {}
    assert forall|k: int| 0 <= k < order.len() implies 0 <= #[trigger] order[k] < n
        && scores[order[k]] is Some by {
        if k < p {
            assert(order[k] == rest[k]);
        } else if k > p {
            assert(order[k] == rest[k - 1]);
        }
    }
    assert forall|i: int|
        0 <= i < n && (#[trigger] scores[i]) is Some implies order.contains(i) by {
        if i == n - 1 {
            assert(order[p] == i);
        } else {
            assert(front[i] is Some);
            let k = choose|k: int| 0 <= k < rest.len() && rest[k] == i;
            if k < p {
                assert(order[k] == i);
            } else {
                assert(order[k + 1] == rest[k]);
            }
        }
    }
    assert forall|k: int, l: int| 0 <= k < l < order.len() implies outranks(
        scores,
        #[trigger] order[k],
        #[trigger] order[l],
    ) by {
        if l < p {
            assert(order[k] == rest[k] && order[l] == rest[l]);
        } else if l == p {
            assert(order[k] == rest[k]);
        } else if k < p {
            assert(order[k] == rest[k] && order[l] == rest[l - 1]);
        } else if k == p {
            assert(order[l] == rest[l - 1]);
        } else {
            assert(order[k] == rest[k - 1] && order[l] == rest[l - 1]);
        }
    }
}

/// Building by insertion gives a ranking.
pub proof fn lemma_insertion_ranks(scores: Seq<Option<i64>>)
    ensures
        is_ranking(scores, ranking_by_insertion(scores)),
    decreases scores.len(),
{
    if scores.len() > 0 {
        let rest = ranking_by_insertion(scores.drop_last());
        lemma_insertion_ranks(scores.drop_last());
        match scores.last() {
            None => {
                lemma_unscored_last(scores, rest);
            },
            Some(s) => {
                lemma_scored_last(scores, rest, s);
            },
        }
    }
}

/// Two rankings of the same scores are the same sequence.
pub proof fn lemma_ranking_is_unique(scores: Seq<Option<i64>>, a: Seq<int>, b: Seq<int>)
    requires
        is_ranking(scores, a),
        is_ranking(scores, b),
    ensures
        a == b,
    decreases a.len(),
{
    if a.len() == 0 {
        if b.len() > 0 {
            assert(scores[b[0]] is Some);
            assert(a.contains(b[0]));
        }
        assert(a =~= b);
    } else {
        let x = a[0];
        assert(scores[x] is Some);
        assert(b.contains(x));
        let m = choose|m: int| 0 <= m < b.len() && b[m] == x;
        if m > 0 {
            let y = b[0];
            assert(outranks(scores, b[0], b[m]));
            assert(scores[y] is Some);
            assert(a.contains(y));
            let k = choose|k: int| 0 <= k < a.len() && a[k] == y;
            if k > 0 {
                assert(outranks(scores, a[0], a[k]));
            }
            assert(false);
        }
        let rest = scores.update(x, None);
        let ta = a.drop_first();
        let tb = b.drop_first();
        lemma_tail_ranks(scores, a);
        lemma_tail_ranks(scores, b);
        lemma_ranking_is_unique(rest, ta, tb);
        assert(a =~= seq![x] + ta);
        assert(b =~= seq![x] + tb);
    }
}

/// What follows the first entry of a ranking ranks the scores without that
/// entry.
pub proof fn lemma_tail_ranks(scores: Seq<Option<i64>>, a: Seq<int>)
    requires
        is_ranking(scores, a),
        a.len() > 0,
    ensures
        is_ranking(scores.update(a[0], None), a.drop_first()),
{
    let x = a[0];
    let rest = scores.update(x, None);
    let t = a.drop_first();
    assert forall|k: int| 0 <= k < t.len() implies 0 <= #[trigger] t[k] < rest.len()
        && rest[t[k]] is Some by {
        assert(t[k] == a[k + 1]);
        assert(outranks(scores, a[0], a[k + 1]));
    }
    assert forall|i: int|
        0 <= i < rest.len() && (#[trigger] rest[i]) is Some implies t.contains(i) by {
        assert(scores[i] is Some);
        let k = choose|k: int| 0 <= k < a.len() && a[k] == i;
        assert(k > 0);
        assert(t[k - 1] == i);
    }
    assert forall|k: int, l: int| 0 <= k < l < t.len() implies outranks(
        rest,
        #[trigger] t[k],
        #[trigger] t[l],
    ) by {
        assert(t[k] == a[k + 1] && t[l] == a[l + 1]);
        assert(outranks(scores, a[k + 1], a[l + 1]));
        assert(outranks(scores, a[0], a[k + 1]));
        assert(outranks(scores, a[0], a[l + 1]));
    }
}

/// The ranking exists, and is the one built by insertion.
pub proof fn lemma_ranking(scores: Seq<Option<i64>>)
    ensures
        is_ranking(scores, ranking(scores)),
        ranking(scores) == ranking_by_insertion(scores),
{
    lemma_insertion_ranks(scores);
    lemma_ranking_is_unique(scores, ranking(scores), ranking_by_insertion(scores));
}

/// Places in a list, as mathematical integers.
pub open spec fn as_ints(s: Seq<usize>) -> Seq<int> {
    s.map_values(|i: usize| i as int)
}

/// The score at a place that has one.
fn score_at(scores: &Vec<Option<i64>>, i: usize) -> (s: i64)
    requires
        i < scores.len(),
        scores@[i as int] is Some,
    ensures
        s == scores@[i as int]->0,
{
    match scores[i] {
        Some(s) => s,
        None => 0,
    }
}

/// Ranks the scored entries of `scores`: the places of the entries that have
/// a score, from the highest score to the lowest, entries of equal score in
/// the order in which they stand in `scores`.
pub fn rank(scores: &Vec<Option<i64>>) -> (order: Vec<usize>)
    ensures
        as_ints(order@) == ranking(scores@),
        is_ranking(scores@, as_ints(order@)),
{
    let mut order: Vec<usize> = Vec::new();
    let mut i: usize = 0;
    proof {
        assert(as_ints(order@) =~= ranking_by_insertion(scores@.take(0)));
    }
    while i < scores.len()
        invariant
            i <= scores.len(),
            as_ints(order@) == ranking_by_insertion(scores@.take(i as int)),
        decreases scores.len() - i,
    {
        let ghost part = scores@.take(i as int + 1);
        let ghost rest = as_ints(order@);
        proof {
            assert(part.drop_last() == scores@.take(i as int));
            lemma_insertion_ranks(scores@.take(i as int));
            assert forall|k: int| 0 <= k < rest.len() implies 0 <= #[trigger] rest[k] < i
                && scores@[rest[k]] is Some by {
                assert(scores@.take(i as int)[rest[k]] == scores@[rest[k]]);
            }
        }
        match scores[i] {
            Some(s) => {
                let mut p: usize = order.len();
                proof {
                    assert(rest.take(p as int) == rest);
                }
                while p > 0 && score_at(scores, order[p - 1]) < s
                    invariant
                        p <= order.len(),
                        rest == as_ints(order@),
                        part == scores@.take(i as int + 1),
                        i < scores.len(),
                        forall|k: int|
                            0 <= k < rest.len() ==> 0 <= #[trigger] rest[k] < i && scores@[rest[k]] is Some,
                        slot(part, rest, s) == slot(part, rest.take(p as int), s),
                    decreases p,
                {
                    proof {
                        let cur = rest.take(p as int);
                        assert(cur.last() == rest[p - 1]);
                        assert(part[rest[p - 1]] == scores@[rest[p - 1]]);
                        assert(cur.drop_last() == rest.take(p - 1));
                    }
                    p -= 1;
                }
                proof {
                    let cur = rest.take(p as int);
                    if p > 0 {
                        assert(cur.last() == rest[p - 1]);
                        assert(part[rest[p - 1]] == scores@[rest[p - 1]]);
                    }
                    assert(slot(part, rest, s) == p);
                    assert(part.last() == Some(s));
                }
                order.insert(p, i);
                proof {
                    assert(as_ints(order@) =~= rest.insert(p as int, i as int));
                }
            },
            None => {
                proof {
                    assert(part.last() is None);
                }
            },
        }
        i += 1;
    }
    proof {
        assert(scores@.take(scores.len() as int) == scores@);
        lemma_ranking(scores@);
    }
    order
}

/// The scores of the contacts `all` for `query`, one for one.
pub open spec fn scores_of(all: Seq<ContactView>, query: Seq<char>) -> Seq<Option<i64>> {
    all.map_values(|c: ContactView| match_score(search_key(c), query))
}

/// The contacts at the places `order`, in that order.
pub open spec fn pick(all: Seq<ContactView>, order: Seq<int>) -> Seq<ContactView> {
    order.map_values(|i: int| all[i])
}

/// What a query shows of the contacts `all`. A blank query shows them all, as
/// they stand. Any other query shows those whose search key matches it, best
/// score first, contacts of equal score in the order they have in `all`.
pub open spec fn filtered(all: Seq<ContactView>, query: Seq<char>) -> Seq<ContactView> {
    if is_blank(query) {
        all
    } else {
        pick(all, ranking(scores_of(all, query)))
    }
}

/// Scores every contact of `all` for `query`.
pub fn score_all(all: &[Contact], query: &str) -> (scores: Vec<Option<i64>>)
    ensures
        scores@ == scores_of(views(all@), query@),
        forall|i: int|
            0 <= i < all.len() ==> (#[trigger] scores@[i] is Some <==> matches_query(
                search_key(all@[i]@),
                query@,
            )),
{
    let mut scores: Vec<Option<i64>> = Vec::new();
    let mut i: usize = 0;
    while i < all.len()
        invariant
            i <= all.len(),
            scores@ == scores_of(views(all@), query@).take(i as int),
            forall|j: int|
                0 <= j < i ==> (#[trigger] scores@[j] is Some <==> matches_query(
                    search_key(all@[j]@),
                    query@,
                )),
        decreases all.len() - i,
    {
        let key = search_key_of(&all[i]);
        let s = score(key.as_str(), query);
        scores.push(s);
        proof {
            let whole = scores_of(views(all@), query@);
            assert(whole[i as int] == match_score(search_key(all@[i as int]@), query@));
            assert(whole.take(i as int + 1) == whole.take(i as int).push(whole[i as int]));
        }
        i += 1;
    }
    proof {
        let whole = scores_of(views(all@), query@);
        assert(whole.take(all.len() as int) == whole);
    }
    scores
}

/// Copies of the contacts of `all` at the places `order`, in that order.
pub fn pick_contacts(all: &[Contact], order: &Vec<usize>) -> (out: Vec<Contact>)
    requires
        forall|k: int| 0 <= k < order.len() ==> #[trigger] order@[k] < all.len(),
    ensures
        out.len() == order.len(),
        forall|k: int| 0 <= k < out.len() ==> #[trigger] out@[k] == all@[order@[k] as int],
        views(out@) == pick(views(all@), as_ints(order@)),
{
    let mut out: Vec<Contact> = Vec::new();
    let mut k: usize = 0;
    while k < order.len()
        invariant
            k <= order.len(),
            out.len() == k,
            forall|j: int| 0 <= j < order.len() ==> #[trigger] order@[j] < all.len(),
            forall|j: int| 0 <= j < k ==> #[trigger] out@[j] == all@[order@[j] as int],
        decreases order.len() - k,
    {
        out.push(all[order[k]].clone());
        k += 1;
    }
    proof {
        assert(views(out@) =~= pick(views(all@), as_ints(order@)));
    }
    out
}

/// What is shown of `all` under `query` holds the right contacts: all of
/// them, as they stand, under a blank query; under any other query those,
/// and only those, whose search key holds the characters of the query in
/// order, whatever their case.
pub open spec fn shows_matches(all: Seq<Contact>, query: Seq<char>, shown: Seq<Contact>) -> bool {
    &&& is_blank(query) ==> shown == all
    &&& !is_blank(query) ==> forall|k: int|
        0 <= k < shown.len() ==> matches_query(search_key(#[trigger] shown[k]@), query)
    &&& !is_blank(query) ==> forall|i: int|
        0 <= i < all.len() && matches_query(search_key(#[trigger] all[i]@), query)
            ==> shown.contains(all[i])
}

/// The contacts that `query` shows of `all`.
pub fn filter(all: &[Contact], query: &str) -> (out: Vec<Contact>)
    ensures
        views(out@) == filtered(views(all@), query@),
        shows_matches(all@, query@, out@),
{
    if trim(query).is_empty() {
        return clone_contacts(all);
    }
    let scores = score_all(all, query);
    let order = rank(&scores);
    proof {
        assert forall|k: int| 0 <= k < order.len() implies #[trigger] order@[k] < all.len() by {
            assert(as_ints(order@)[k] == order@[k] as int);
        }
    }
    let out = pick_contacts(all, &order);
    proof {
        let ints = as_ints(order@);
        assert forall|k: int| 0 <= k < out.len() implies matches_query(
            search_key(#[trigger] out@[k]@),
            query@,
        ) by {
            assert(ints[k] == order@[k] as int);
            assert(scores@[ints[k]] is Some);
        }
        assert forall|i: int|
            0 <= i < all.len() && matches_query(
                search_key(#[trigger] all@[i]@),
                query@,
            ) implies out@.contains(all@[i]) by {
            assert(scores@[i] is Some);
            assert(ints.contains(i));
            let k = choose|k: int| 0 <= k < ints.len() && ints[k] == i;
            assert(order@[k] as int == ints[k]);
            assert(out@[k] == all@[i]);
        }
    }
    out
}

/// A blank query shows every contact, in the order given.
pub proof fn lemma_blank_query_shows_all(all: Seq<ContactView>, query: Seq<char>)
    requires
        is_blank(query),
    ensures
        filtered(all, query) == all,
{
}

/// The empty query is blank, so it shows every contact.
pub proof fn lemma_empty_query_shows_all(all: Seq<ContactView>)
    ensures
        is_blank(Seq::<char>::empty()),
        filtered(all, Seq::<char>::empty()) == all,
{
}

/// Under a query that is not blank, every contact shown is one of `all`
/// whose search key the matcher scores for that query.
pub proof fn lemma_shown_contacts_match(all: Seq<ContactView>, query: Seq<char>, k: int)
    requires
        !is_blank(query),
        0 <= k < filtered(all, query).len(),
    ensures
        exists|i: int|
            0 <= i < all.len() && filtered(all, query)[k] == all[i] && match_score(
                search_key(#[trigger] all[i]),
                query,
            ) is Some,
{
    let scores = scores_of(all, query);
    lemma_ranking(scores);
    let i = ranking(scores)[k];
    assert(scores[i] is Some);
    assert(filtered(all, query)[k] == all[i]);
}

/// Under a query that is not blank, every contact of `all` that the matcher
/// scores is shown.
pub proof fn lemma_matching_contacts_are_shown(all: Seq<ContactView>, query: Seq<char>, i: int)
    requires
        !is_blank(query),
        0 <= i < all.len(),
        match_score(search_key(all[i]), query) is Some,
    ensures
        filtered(all, query).contains(all[i]),
{
    let scores = scores_of(all, query);
    lemma_ranking(scores);
    assert(scores[i] is Some);
    let order = ranking(scores);
    assert(order.contains(i));
    let k = choose|k: int| 0 <= k < order.len() && order[k] == i;
    assert(filtered(all, query)[k] == all[i]);
}

/// What is shown goes from the best score down.
pub proof fn lemma_shown_by_falling_score(all: Seq<ContactView>, query: Seq<char>, k: int, l: int)
    requires
        !is_blank(query),
        0 <= k <= l < filtered(all, query).len(),
    ensures
        match_score(search_key(filtered(all, query)[k]), query) is Some,
        match_score(search_key(filtered(all, query)[l]), query) is Some,
        match_score(search_key(filtered(all, query)[k]), query)->0 >= match_score(
            search_key(filtered(all, query)[l]),
            query,
        )->0,
{
    let scores = scores_of(all, query);
    lemma_ranking(scores);
    let order = ranking(scores);
    assert(scores[order[k]] is Some);
    assert(scores[order[l]] is Some);
    if k < l {
        assert(outranks(scores, order[k], order[l]));
    }
}

/// Two contacts of equal score are shown in the order they have in `all`:
/// the one that stands first in `all` is shown first.
pub proof fn lemma_ties_keep_their_order(all: Seq<ContactView>, query: Seq<char>, i: int, j: int)
    requires
        0 <= i < j < all.len(),
        match_score(search_key(all[i]), query) is Some,
        match_score(search_key(all[i]), query) == match_score(search_key(all[j]), query),
    ensures
        exists|k: int, l: int|
            0 <= k < l < filtered(all, query).len() && #[trigger] filtered(all, query)[k] == all[i]
                && #[trigger] filtered(all, query)[l] == all[j],
{
    let shown = filtered(all, query);
    if is_blank(query) {
        assert(shown[i] == all[i] && shown[j] == all[j]);
    } else {
        let scores = scores_of(all, query);
        lemma_ranking(scores);
        let order = ranking(scores);
        assert(scores[i] is Some);
        assert(scores[j] is Some);
        assert(order.contains(i));
        assert(order.contains(j));
        let k = choose|k: int| 0 <= k < order.len() && order[k] == i;
        let l = choose|l: int| 0 <= l < order.len() && order[l] == j;
        if l < k {
            assert(outranks(scores, order[l], order[k]));
        }
        assert(k < l);
        assert(shown[k] == all[i] && shown[l] == all[j]);
    }
}

} // verus!
