use crate::model::{opt_view, views, Contact, ContactView};
use crate::text::{
    chars_of, digits, digits_of, is_separator, is_space, lowercase, same_chars, spaces, string_of,
    to_lower, words, words_by,
};
use std::collections::HashSet;
use vstd::prelude::*;

verus! {

/// The texts of a list of words.
pub open spec fn texts(v: Seq<Vec<char>>) -> Seq<Seq<char>> {
    v.map_values(|w: Vec<char>| w@)
}

/// The words `list`, each in lower case.
pub open spec fn lowered(list: Seq<Seq<char>>) -> Seq<Seq<char>> {
    list.map_values(|w: Seq<char>| lowercase(w))
}

/// The words of a name, in lower case, without regard to order or
/// repetition.
pub open spec fn word_set(name: Seq<char>) -> Set<Seq<char>> {
    lowered(words(name)).to_set()
}

/// How alike two names are: the number of words they share, and the number
/// of words that occur in either. The similarity is the first over the
/// second, and nothing where neither name holds a word.
pub open spec fn name_similarity(a: Seq<char>, b: Seq<char>) -> (nat, nat) {
    (word_set(a).intersect(word_set(b)).len(), word_set(a).union(word_set(b)).len())
}

/// Two names are similar when they share more than four fifths of their
/// words. Two names without any word share nothing, and are not similar.
pub open spec fn names_similar(a: Seq<char>, b: Seq<char>) -> bool {
    5 * name_similarity(a, b).0 > 4 * name_similarity(a, b).1
}

/// Two names without any word are not similar, equal or not.
pub proof fn lemma_no_words_not_similar(a: Seq<char>, b: Seq<char>)
    requires
        words(a).len() == 0,
        words(b).len() == 0,
    ensures
        name_similarity(a, b) == (0nat, 0nat),
        !names_similar(a, b),
{
    assert(word_set(a) =~= Set::<Seq<char>>::empty());
    assert(word_set(b) =~= Set::<Seq<char>>::empty());
    assert(word_set(a).intersect(word_set(b)) =~= Set::<Seq<char>>::empty());
    assert(word_set(a).union(word_set(b)) =~= Set::<Seq<char>>::empty());
}

/// Two names that hold the same words in lower case, and at least one, are
/// similar: they share all their words. A name is so similar to itself.
pub proof fn lemma_same_words_are_similar(a: Seq<char>, b: Seq<char>)
    requires
        word_set(a) == word_set(b),
        words(a).len() > 0,
    ensures
        name_similarity(a, b).0 == name_similarity(a, b).1,
        name_similarity(a, b).0 > 0,
        names_similar(a, b),
{
    let set = word_set(a);
    assert(set.intersect(set) =~= set);
    assert(set.union(set) =~= set);
    vstd::seq_lib::seq_to_set_is_finite(lowered(words(a)));
    assert(set.contains(lowered(words(a))[0]));
    if set.len() == 0 {
        set.lemma_len0_is_empty();
    }
}

/// Whether two contacts are duplicates does not depend on which comes first.
pub proof fn lemma_duplicates_either_way(a: ContactView, b: ContactView)
    ensures
        are_duplicates(a, b) == are_duplicates(b, a),
{
    assert(word_set(a.name).intersect(word_set(b.name)) =~= word_set(b.name).intersect(
        word_set(a.name),
    ));
    assert(word_set(a.name).union(word_set(b.name)) =~= word_set(b.name).union(word_set(a.name)));
}

/// Both contacts have an email, and the two are equal but for case.
pub open spec fn emails_match(a: Option<Seq<char>>, b: Option<Seq<char>>) -> bool {
    a is Some && b is Some && lowercase(a->0) == lowercase(b->0)
}

/// Both contacts have a phone number, and the two hold the same digits, at
/// least one.
pub open spec fn phones_match(a: Option<Seq<char>>, b: Option<Seq<char>>) -> bool {
    a is Some && b is Some && digits(a->0) == digits(b->0) && digits(a->0).len() > 0
}

/// Two contacts are taken for duplicates when their names are similar, or
/// their emails match, or their phone numbers do.
pub open spec fn are_duplicates(a: ContactView, b: ContactView) -> bool {
    names_similar(a.name, b.name) || emails_match(a.email, b.email) || phones_match(
        a.phone,
        b.phone,
    )
}

/// How alike two names are, as two counts: see [`name_similarity`].
#[derive(Debug, Clone, Copy, PartialEq, Eq)]
pub struct Similarity {
    pub shared: usize,
    pub total: usize,
}

impl Similarity {
    /// Whether the shared words are more than four fifths of all words.
    pub fn is_high(&self) -> (r: bool)
        ensures
            r == (5 * self.shared > 4 * self.total),
    {
        let shared: u128 = self.shared as u128;
        let total: u128 = self.total as u128;
        5 * shared > 4 * total
    }
}

/// Whether `word` is among `list`.
pub fn contains_word(list: &Vec<Vec<char>>, word: &Vec<char>) -> (r: bool)
    ensures
        r == texts(list@).contains(word@),
{
    let mut i: usize = 0;
    while i < list.len()
        invariant
            i <= list.len(),
            forall|k: int| 0 <= k < i ==> texts(list@)[k] != word@,
        decreases list.len() - i,
    {
        if same_chars(&list[i], word) {
            assert(texts(list@)[i as int] == word@);
            return true;
        }
        i += 1;
    }
    false
}

/// A copy of a text.
fn copy_chars(w: &Vec<char>) -> (r: Vec<char>)
    ensures
        r@ == w@,
{
    let mut r: Vec<char> = Vec::new();
    let mut i: usize = 0;
    while i < w.len()
        invariant
            i <= w.len(),
            r@ == w@.take(i as int),
        decreases w.len() - i,
    {
        r.push(w[i]);
        i += 1;
    }
    r
}

/// For each character of `s`, whether it is whitespace.
pub fn space_marks(s: &Vec<char>) -> (marks: Vec<bool>)
    ensures
        marks@ == spaces(s@),
{
    let mut marks: Vec<bool> = Vec::new();
    let mut i: usize = 0;
    while i < s.len()
        invariant
            i <= s.len(),
            marks@ == spaces(s@).take(i as int),
        decreases s.len() - i,
    {
        marks.push(is_space(s[i]));
        proof {
            assert(marks@ =~= spaces(s@).take(i as int + 1));
        }
        i += 1;
    }
    proof {
        assert(spaces(s@).take(s.len() as int) == spaces(s@));
    }
    marks
}

/// The words of `s`, in order, where `marks` tells which characters separate
/// them. A place that `marks` does not reach is no separator.
pub fn split_by(s: &Vec<char>, marks: &Vec<bool>) -> (out: Vec<Vec<char>>)
    ensures
        texts(out@) == words_by(s@, marks@),
{
    let mut done: Vec<Vec<char>> = Vec::new();
    let mut cur: Vec<char> = Vec::new();
    let mut i: usize = 0;
    proof {
        assert(texts(done@) =~= words_by(s@.take(0), marks@));
    }
    while i < s.len()
        invariant
            i <= s.len(),
            cur@.len() > 0 ==> i > 0 && !is_separator(marks@, i - 1) && words_by(
                s@.take(i as int),
                marks@,
            ) == texts(done@).push(cur@),
            cur@.len() == 0 ==> (i == 0 || is_separator(marks@, i - 1)) && words_by(
                s@.take(i as int),
                marks@,
            ) == texts(done@),
        decreases s.len() - i,
    {
        let c = s[i];
        let ghost before = words_by(s@.take(i as int), marks@);
        proof {
            let t = s@.take(i as int + 1);
            assert(t.drop_last() == s@.take(i as int));
            assert(t.last() == c);
        }
        if i < marks.len() && marks[i] {
            if cur.len() > 0 {
                done.push(cur);
                cur = Vec::new();
                proof {
                    assert(texts(done@) =~= before);
                }
            }
        } else {
            let ghost old_cur = cur@;
            cur.push(c);
            proof {
                if old_cur.len() > 0 {
                    assert(before.drop_last() =~= texts(done@));
                    assert(before.last() == old_cur);
                } else {
                    assert(cur@ =~= seq![c]);
                }
            }
        }
        i += 1;
    }
    proof {
        assert(s@.take(s.len() as int) == s@);
    }
    if cur.len() > 0 {
        done.push(cur);
        proof {
            assert(texts(done@) =~= words_by(s@, marks@));
        }
    }
    done
}

/// The whitespace-separated words of `s`, in order.
pub fn split_words(s: &Vec<char>) -> (out: Vec<Vec<char>>)
    ensures
        texts(out@) == words(s@),
{
    let marks = space_marks(s);
    split_by(s, &marks)
}

/// Adds to `out` every word of `list` that it does not hold yet.
pub fn add_distinct(out: &mut Vec<Vec<char>>, list: &Vec<Vec<char>>)
    requires
        texts(old(out)@).no_duplicates(),
    ensures
        texts(final(out)@).no_duplicates(),
        texts(final(out)@).to_set() == texts(old(out)@).to_set().union(texts(list@).to_set()),
{
    let mut i: usize = 0;
    proof {
        assert(texts(list@).take(0).to_set() =~= Set::<Seq<char>>::empty());
        assert(texts(out@).to_set() =~= texts(old(out)@).to_set().union(
            texts(list@).take(0).to_set(),
        ));
    }
    while i < list.len()
        invariant
            i <= list.len(),
            texts(out@).no_duplicates(),
            texts(out@).to_set() == texts(old(out)@).to_set().union(
                texts(list@).take(i as int).to_set(),
            ),
        decreases list.len() - i,
    {
        let ghost seen = texts(list@).take(i as int);
        let ghost word = texts(list@)[i as int];
        proof {
            assert(texts(list@).take(i as int + 1) == seen.push(word));
            seen.lemma_push_to_set_commute(word);
        }
        if !contains_word(out, &list[i]) {
            let ghost before = texts(out@);
            out.push(copy_chars(&list[i]));
            proof {
                assert(texts(out@) =~= before.push(word));
                before.lemma_push_to_set_commute(word);
                assert forall|a: int, b: int|
                    0 <= a < texts(out@).len() && 0 <= b < texts(out@).len() && a
                        != b implies texts(out@)[a] != texts(out@)[b] by {
                    if a < before.len() {
                        assert(before[a] == texts(out@)[a]);
                        assert(before.contains(before[a]));
                    }
                    if b < before.len() {
                        assert(before[b] == texts(out@)[b]);
                        assert(before.contains(before[b]));
                    }
                }
                assert(texts(out@).to_set() =~= texts(old(out)@).to_set().union(
                    seen.push(word).to_set(),
                ));
            }
        } else {
            proof {
                assert(texts(out@).to_set() =~= texts(old(out)@).to_set().union(
                    seen.push(word).to_set(),
                ));
            }
        }
        i += 1;
    }
    proof {
        assert(texts(list@).take(list.len() as int) == texts(list@));
    }
}

/// How many of the words `list`, none of which occurs twice, are among
/// `other`.
pub fn count_shared(list: &Vec<Vec<char>>, other: &Vec<Vec<char>>) -> (n: usize)
    requires
        texts(list@).no_duplicates(),
    ensures
        n == texts(list@).to_set().intersect(texts(other@).to_set()).len(),
        n <= list.len(),
{
    let mut n: usize = 0;
    let mut i: usize = 0;
    let ghost theirs = texts(other@).to_set();
    proof {
        assert(texts(list@).take(0).to_set().intersect(theirs) =~= Set::<Seq<char>>::empty());
    }
    while i < list.len()
        invariant
            i <= list.len(),
            n <= i,
            theirs == texts(other@).to_set(),
            texts(list@).no_duplicates(),
            n == texts(list@).take(i as int).to_set().intersect(theirs).len(),
        decreases list.len() - i,
    {
        let ghost seen = texts(list@).take(i as int);
        let ghost word = texts(list@)[i as int];
        proof {
            assert(texts(list@).take(i as int + 1) == seen.push(word));
            seen.lemma_push_to_set_commute(word);
            vstd::seq_lib::seq_to_set_is_finite(seen);
            assert(!seen.contains(word)) by {
                if seen.contains(word) {
                    let k = choose|k: int| 0 <= k < seen.len() && seen[k] == word;
                    assert(texts(list@)[k] == texts(list@)[i as int]);
                }
            }
            vstd::set_lib::lemma_set_subset_finite(seen.to_set(), seen.to_set().intersect(theirs));
        }
        if contains_word(other, &list[i]) {
            proof {
                assert(seen.to_set().insert(word).intersect(theirs) =~= seen.to_set().intersect(
                    theirs,
                ).insert(word));
            }
            n += 1;
        } else {
            proof {
                assert(seen.to_set().insert(word).intersect(theirs) =~= seen.to_set().intersect(
                    theirs,
                ));
            }
        }
        i += 1;
    }
    proof {
        assert(texts(list@).take(list.len() as int) == texts(list@));
    }
    n
}

/// The words `list`, each in lower case.
pub fn lower_words(list: &Vec<Vec<char>>) -> (out: Vec<Vec<char>>)
    ensures
        texts(out@) == lowered(texts(list@)),
{
    let mut out: Vec<Vec<char>> = Vec::new();
    let mut i: usize = 0;
    while i < list.len()
        invariant
            i <= list.len(),
            out.len() == i,
            forall|k: int| 0 <= k < i ==> (#[trigger] out@[k])@ == lowercase(list@[k]@),
        decreases list.len() - i,
    {
        let word = string_of(&list[i]);
        out.push(chars_of(to_lower(word.as_str()).as_str()));
        i += 1;
    }
    proof {
        assert(texts(out@) =~= lowered(texts(list@)));
    }
    out
}

/// How alike the names `name1` and `name2` are.
pub fn calculate_name_similarity(name1: &str, name2: &str) -> (r: Similarity)
    ensures
        (r.shared as nat, r.total as nat) == name_similarity(name1@, name2@),
{
    let words1 = lower_words(&split_words(&chars_of(name1)));
    let words2 = lower_words(&split_words(&chars_of(name2)));
    let mut all: Vec<Vec<char>> = Vec::new();
    proof {
        assert(texts(all@).to_set() =~= Set::<Seq<char>>::empty());
    }
    add_distinct(&mut all, &words1);
    proof {
        assert(texts(all@).to_set() =~= word_set(name1@));
    }
    let shared = count_shared(&all, &words2);
    add_distinct(&mut all, &words2);
    proof {
        texts(all@).unique_seq_to_set();
    }
    Similarity { shared, total: all.len() }
}

/// Whether two emails are equal but for case.
fn same_email(a: &Option<String>, b: &Option<String>) -> (r: bool)
    ensures
        r == emails_match(opt_view(*a), opt_view(*b)),
{
    match (a, b) {
        (Some(one), Some(other)) => {
            let mine = chars_of(to_lower(one.as_str()).as_str());
            let theirs = chars_of(to_lower(other.as_str()).as_str());
            same_chars(&mine, &theirs)
        },
        _ => false,
    }
}

/// Whether two phone numbers hold the same digits, and at least one.
fn same_phone(a: &Option<String>, b: &Option<String>) -> (r: bool)
    ensures
        r == phones_match(opt_view(*a), opt_view(*b)),
{
    match (a, b) {
        (Some(one), Some(other)) => {
            let mine = digits_of(one.as_str());
            let theirs = digits_of(other.as_str());
            same_chars(&mine, &theirs) && mine.len() > 0
        },
        _ => false,
    }
}

/// Whether two contacts are taken for duplicates of each other.
pub fn are_potential_duplicates(contact1: &Contact, contact2: &Contact) -> (r: bool)
    ensures
        r == are_duplicates(contact1@, contact2@),
{
    let similarity = calculate_name_similarity(contact1.name.as_str(), contact2.name.as_str());
    let email_match = same_email(&contact1.email, &contact2.email);
    let phone_match = same_phone(&contact1.phone, &contact2.phone);
    similarity.is_high() || email_match || phone_match
}

/// The places after `anchor` and before `upto` of the contacts that no group
/// has claimed and that are duplicates of the contact at `anchor`, in order.
pub open spec fn members(
    all: Seq<ContactView>,
    claimed: Set<int>,
    anchor: int,
    upto: int,
) -> Seq<int>
    decreases upto - anchor,
{
    if upto <= anchor + 1 {
        Seq::empty()
    } else {
        let before = members(all, claimed, anchor, upto - 1);
        if !claimed.contains(upto - 1) && are_duplicates(all[anchor], all[upto - 1]) {
            before.push(upto - 1)
        } else {
            before
        }
    }
}

/// The groups that the contacts from place `from` on found, given the places
/// that earlier groups have claimed. Each contact not yet claimed is an
/// anchor in its turn: it gathers the later unclaimed duplicates of itself,
/// and where it finds any, it forms a group with them, itself first, and
/// they are claimed.
pub open spec fn groups_from(all: Seq<ContactView>, claimed: Set<int>, from: int) -> Seq<Seq<int>>
    decreases all.len() - from,
{
    if from < 0 || from >= all.len() {
        Seq::empty()
    } else if claimed.contains(from) {
        groups_from(all, claimed, from + 1)
    } else {
        let found = members(all, claimed, from, all.len() as int);
        if found.len() == 0 {
            groups_from(all, claimed, from + 1)
        } else {
            seq![seq![from] + found] + groups_from(all, claimed.union(found.to_set()), from + 1)
        }
    }
}

/// The groups of duplicates among `all`, each as the places of its contacts.
pub open spec fn duplicate_groups(all: Seq<ContactView>) -> Seq<Seq<int>> {
    groups_from(all, Set::empty(), 0)
}

/// The contacts at the places that the groups name.
pub open spec fn grouped(all: Seq<ContactView>, groups: Seq<Seq<int>>) -> Seq<Seq<ContactView>> {
    groups.map_values(|g: Seq<int>| g.map_values(|i: int| all[i]))
}

/// The views of groups of contacts.
pub open spec fn group_views(groups: Seq<Vec<Contact>>) -> Seq<Seq<ContactView>> {
    groups.map_values(|g: Vec<Contact>| views(g@))
}

/// Whether the place `j` is in a set of places.
pub open spec fn is_marked(places: Set<usize>, j: int) -> bool {
    0 <= j <= usize::MAX && places.contains(j as usize)
}

/// Finds the groups of duplicates among `all`, in the order of their anchors.
pub fn find_potential_duplicates(all: &[Contact]) -> (groups: Vec<Vec<Contact>>)
    ensures
        group_views(groups@) == grouped(views(all@), duplicate_groups(views(all@))),
{
    let n = all.len();
    let ghost whole = views(all@);
    let mut groups: Vec<Vec<Contact>> = Vec::new();
    let mut processed: HashSet<usize> = HashSet::new();
    let ghost mut taken: Set<int> = Set::empty();
    let ghost mut places: Seq<Seq<int>> = Seq::empty();
    let mut i: usize = 0;
    proof {
        assert(places + groups_from(whole, taken, 0) =~= duplicate_groups(whole));
        assert(group_views(groups@) =~= grouped(whole, places));
    }
    while i < n
        invariant
            i <= n,
            n == all.len(),
            whole == views(all@),
            forall|j: int| i <= j < n ==> (#[trigger] is_marked(processed@, j) <==> taken.contains(j)),
            duplicate_groups(whole) == places + groups_from(whole, taken, i as int),
            group_views(groups@) == grouped(whole, places),
        decreases n - i,
    {
        proof {
            assert(is_marked(processed@, i as int) == processed@.contains(i));
        }
        if !processed.contains(&i) {
            let mut group: Vec<Contact> = Vec::new();
            group.push(all[i].clone());
            let ghost mut found: Seq<int> = Seq::empty();
            let mut j: usize = i + 1;
            while j < n
                invariant
                    i < j <= n,
                    n == all.len(),
                    whole == views(all@),
                    found == members(whole, taken, i as int, j as int),
                    forall|m: int| 0 <= m < found.len() ==> i < #[trigger] found[m] < j,
                    forall|m: int|
                        i <= m < n ==> (#[trigger] is_marked(processed@, m) <==> taken.contains(m)
                            || found.contains(m)),
                    views(group@) == (seq![i as int] + found).map_values(|p: int| whole[p]),
                decreases n - j,
            {
                let ghost old_found = found;
                let ghost old_group = views(group@);
                let ghost old_marks = processed@;
                proof {
                    assert(!found.contains(j as int)) by {
                        if found.contains(j as int) {
                            let m = choose|m: int| 0 <= m < found.len() && found[m] == j as int;
                            assert(found[m] < j);
                        }
                    }
                }
                proof {
                    assert(is_marked(processed@, j as int) == processed@.contains(j));
                }
                if !processed.contains(&j) && are_potential_duplicates(&all[i], &all[j]) {
                    group.push(all[j].clone());
                    processed.insert(j);
                    proof {
                        found = found.push(j as int);
                        assert(whole[i as int] == all@[i as int]@);
                        assert(whole[j as int] == all@[j as int]@);
                        let head = seq![i as int] + old_found;
                        assert(seq![i as int] + found =~= head.push(j as int));
                        assert(head.push(j as int).map_values(|p: int| whole[p])
                            =~= head.map_values(|p: int| whole[p]).push(whole[j as int]));
                        assert(views(group@) =~= old_group.push(all@[j as int]@));
                        assert forall|m: int| i <= m < n implies (#[trigger] is_marked(
                            processed@,
                            m,
                        ) <==> taken.contains(m) || found.contains(m)) by {
                            assert(is_marked(old_marks, m) <==> taken.contains(m)
                                || old_found.contains(m));
                            assert(is_marked(processed@, m) <==> m == j || is_marked(old_marks, m));
                            if m == j {
                                assert(found[found.len() - 1] == m);
                            } else if old_found.contains(m) {
                                let q = choose|q: int| 0 <= q < old_found.len() && old_found[q] == m;
                                assert(found[q] == m);
                            } else if found.contains(m) {
                                let q = choose|q: int| 0 <= q < found.len() && found[q] == m;
                                if q < old_found.len() {
                                    assert(old_found[q] == m);
                                }
                            }
                        }
                    }
                } else {
                    proof {
                        assert(whole[i as int] == all@[i as int]@);
                        assert(whole[j as int] == all@[j as int]@);
                    }
                }
                j += 1;
            }
            let ghost old_taken = taken;
            let ghost old_marks = processed@;
            if group.len() > 1 {
                proof {
                    let entry = seq![i as int] + found;
                    assert(found.len() > 0) by {
                        assert(views(group@).len() == group@.len());
                        assert((seq![i as int] + found).len() == 1 + found.len());
                    }
                    let rest = groups_from(whole, taken.union(found.to_set()), i as int + 1);
                    assert(groups_from(whole, taken, i as int) == seq![entry] + rest);
                    assert(places + (seq![entry] + rest) =~= places.push(entry) + rest);
                    assert(grouped(whole, places.push(entry)) =~= grouped(whole, places).push(
                        entry.map_values(|p: int| whole[p]),
                    ));
                    places = places.push(entry);
                    taken = taken.union(found.to_set());
                }
                let ghost before = group_views(groups@);
                groups.push(group);
                processed.insert(i);
                proof {
                    assert(group_views(groups@) =~= before.push(views(group@)));
                    assert forall|m: int| i + 1 <= m < n implies (#[trigger] is_marked(
                        processed@,
                        m,
                    ) <==> taken.contains(m)) by {
                        assert(is_marked(old_marks, m) <==> old_taken.contains(m) || found.contains(
                            m,
                        ));
                        assert(is_marked(processed@, m) <==> is_marked(old_marks, m));
                    }
                }
            } else {
                proof {
                    assert(found.len() == 0) by {
                        assert(views(group@).len() == group@.len());
                        assert((seq![i as int] + found).len() == 1 + found.len());
                    }
                    assert forall|m: int| i + 1 <= m < n implies (#[trigger] is_marked(
                        processed@,
                        m,
                    ) <==> taken.contains(m)) by {
                        assert(is_marked(old_marks, m) <==> old_taken.contains(m) || found.contains(
                            m,
                        ));
                    }
                }
            }
        }
        i += 1;
    }
    proof {
        assert(places + Seq::<Seq<int>>::empty() =~= places);
    }
    groups
}

/// What holds of the places that an anchor gathers: they lie after the
/// anchor and before `upto`, in rising order, none of them is claimed, and
/// each is a duplicate of the anchor.
pub proof fn lemma_members(all: Seq<ContactView>, claimed: Set<int>, anchor: int, upto: int)
    ensures
        forall|m: int|
            0 <= m < members(all, claimed, anchor, upto).len() ==> {
                let p = #[trigger] members(all, claimed, anchor, upto)[m];
                anchor < p < upto && !claimed.contains(p) && are_duplicates(all[anchor], all[p])
            },
        forall|a: int, b: int|
            0 <= a < b < members(all, claimed, anchor, upto).len() ==> #[trigger] members(
                all,
                claimed,
                anchor,
                upto,
            )[a] < #[trigger] members(all, claimed, anchor, upto)[b],
    decreases upto - anchor,
{
    let found = members(all, claimed, anchor, upto);
    if upto > anchor + 1 {
        lemma_members(all, claimed, anchor, upto - 1);
        let before = members(all, claimed, anchor, upto - 1);
        assert forall|m: int| 0 <= m < found.len() implies {
            let p = #[trigger] found[m];
            anchor < p < upto && !claimed.contains(p) && are_duplicates(all[anchor], all[p])
        } by {
            if m < before.len() {
                assert(found[m] == before[m]);
            }
        }
        assert forall|a: int, b: int| 0 <= a < b < found.len() implies #[trigger] found[a]
            < #[trigger] found[b] by {
            assert(found[a] == before[a]);
            if b < before.len() {
                assert(found[b] == before[b]);
            }
        }
    }
}

/// A group as it should be, among the contacts from `from` on and given the
/// claimed places: at least two places, in rising order, none before `from`
/// and none claimed, the first being the anchor and every other a duplicate
/// of the anchor.
pub open spec fn is_group(all: Seq<ContactView>, claimed: Set<int>, from: int, g: Seq<int>) -> bool {
    &&& g.len() >= 2
    &&& forall|p: int| 0 <= p < g.len() ==> from <= #[trigger] g[p] < all.len() && !claimed.contains(g[p])
    &&& forall|p: int| 1 <= p < g.len() ==> are_duplicates(all[g[0]], all[#[trigger] g[p]])
    &&& forall|p: int, q: int| 0 <= p < q < g.len() ==> #[trigger] g[p] < #[trigger] g[q]
}

/// Every group found is as it should be, and no place occurs in two groups.
pub proof fn lemma_groups_from(all: Seq<ContactView>, claimed: Set<int>, from: int)
    requires
        0 <= from,
    ensures
        forall|k: int|
            0 <= k < groups_from(all, claimed, from).len() ==> is_group(
                all,
                claimed,
                from,
                #[trigger] groups_from(all, claimed, from)[k],
            ),
        forall|k: int, l: int, p: int, q: int|
            0 <= k < l < groups_from(all, claimed, from).len() && 0 <= p < groups_from(
                all,
                claimed,
                from,
            )[k].len() && 0 <= q < groups_from(all, claimed, from)[l].len() ==> #[trigger] groups_from(
                all,
                claimed,
                from,
            )[k][p] != #[trigger] groups_from(all, claimed, from)[l][q],
    decreases all.len() - from,
{
    let groups = groups_from(all, claimed, from);
    if from >= all.len() {
    } else if claimed.contains(from) {
        lemma_groups_from(all, claimed, from + 1);
        let rest = groups_from(all, claimed, from + 1);
        assert forall|k: int| 0 <= k < groups.len() implies is_group(
            all,
            claimed,
            from,
            #[trigger] groups[k],
        ) by {
            assert(is_group(all, claimed, from + 1, rest[k]));
        }
    } else {
        let found = members(all, claimed, from, all.len() as int);
        lemma_members(all, claimed, from, all.len() as int);
        if found.len() == 0 {
            lemma_groups_from(all, claimed, from + 1);
            let rest = groups_from(all, claimed, from + 1);
            assert forall|k: int| 0 <= k < groups.len() implies is_group(
                all,
                claimed,
                from,
                #[trigger] groups[k],
            ) by {
                assert(is_group(all, claimed, from + 1, rest[k]));
            }
        } else {
            let entry = seq![from] + found;
            let more = claimed.union(found.to_set());
            let rest = groups_from(all, more, from + 1);
            lemma_groups_from(all, more, from + 1);
            assert(groups == seq![entry] + rest);
            assert(groups[0] == entry);
            assert forall|p: int| 1 <= p < entry.len() implies entry[p] == found[p - 1] by {}
            assert(is_group(all, claimed, from, entry)) by {
                assert forall|p: int, q: int| 0 <= p < q < entry.len() implies #[trigger] entry[p]
                    < #[trigger] entry[q] by {
                    assert(entry[q] == found[q - 1]);
                    if p > 0 {
                        assert(entry[p] == found[p - 1]);
                    }
                }
                assert forall|p: int| 0 <= p < entry.len() implies from <= #[trigger] entry[p]
                    < all.len() && !claimed.contains(entry[p]) by {
                    if p > 0 {
                        assert(entry[p] == found[p - 1]);
                    }
                }
                assert forall|p: int| 1 <= p < entry.len() implies are_duplicates(
                    all[entry[0]],
                    all[#[trigger] entry[p]],
                ) by {
                    assert(entry[p] == found[p - 1]);
                }
            }
            assert forall|k: int| 0 <= k < groups.len() implies is_group(
                all,
                claimed,
                from,
                #[trigger] groups[k],
            ) by {
                if k > 0 {
                    assert(groups[k] == rest[k - 1]);
                    assert(is_group(all, more, from + 1, rest[k - 1]));
                }
            }
            assert forall|k: int, l: int, p: int, q: int|
                0 <= k < l < groups.len() && 0 <= p < groups[k].len() && 0 <= q
                    < groups[l].len() implies #[trigger] groups[k][p] != #[trigger] groups[l][q] by {
                assert(groups[l] == rest[l - 1]);
                assert(is_group(all, more, from + 1, rest[l - 1]));
                if k == 0 {
                    let x = rest[l - 1][q];
                    assert(!more.contains(x));
                    assert(x >= from + 1);
                    if p > 0 {
                        assert(entry[p] == found[p - 1]);
                        assert(found.contains(found[p - 1]));
                    }
                } else {
                    assert(groups[k] == rest[k - 1]);
                }
            }
        }
    }
}

/// The law of the groups of duplicates: every group holds its anchor and at
/// least one more contact, every such contact is a duplicate of the anchor,
/// and no contact stands in two groups.
pub proof fn lemma_duplicate_groups(all: Seq<ContactView>)
    ensures
        forall|k: int|
            0 <= k < duplicate_groups(all).len() ==> is_group(
                all,
                Set::empty(),
                0,
                #[trigger] duplicate_groups(all)[k],
            ),
        forall|k: int, l: int, p: int, q: int|
            0 <= k < l < duplicate_groups(all).len() && 0 <= p < duplicate_groups(all)[k].len() && 0
                <= q < duplicate_groups(all)[l].len() ==> #[trigger] duplicate_groups(all)[k][p]
                != #[trigger] duplicate_groups(all)[l][q],
{
    lemma_groups_from(all, Set::empty(), 0);
}

/// The contact at place `j` is claimed when an earlier contact that is not
/// claimed itself is a duplicate of it. The first such contact is the anchor
/// whose group it joins.
pub open spec fn is_claimed(all: Seq<ContactView>, j: int) -> bool
    decreases j,
{
    0 <= j < all.len() && exists|i: int|
        0 <= i < j && !is_claimed(all, i) && are_duplicates(#[trigger] all[i], all[j])
}

/// The contact at `i` can claim the one at `j`: it stands earlier, is not
/// claimed itself, and is a duplicate of it.
pub open spec fn can_claim(all: Seq<ContactView>, i: int, j: int) -> bool {
    0 <= i < j < all.len() && !is_claimed(all, i) && are_duplicates(all[i], all[j])
}

/// A contact is claimed exactly when some contact can claim it.
pub proof fn lemma_is_claimed(all: Seq<ContactView>, j: int)
    ensures
        is_claimed(all, j) <==> exists|i: int| #[trigger] can_claim(all, i, j),
{
    if is_claimed(all, j) {
        let i = choose|i: int|
            0 <= i < j && !is_claimed(all, i) && are_duplicates(#[trigger] all[i], all[j]);
        assert(can_claim(all, i, j));
    }
    if exists|i: int| #[trigger] can_claim(all, i, j) {
        let i = choose|i: int| #[trigger] can_claim(all, i, j);
        assert(are_duplicates(all[i], all[j]));
    }
}

/// The places gathered by an anchor are all the unclaimed duplicates after
/// it, none left out.
pub proof fn lemma_members_complete(
    all: Seq<ContactView>,
    claimed: Set<int>,
    anchor: int,
    upto: int,
    j: int,
)
    requires
        anchor < j < upto,
        !claimed.contains(j),
        are_duplicates(all[anchor], all[j]),
    ensures
        members(all, claimed, anchor, upto).contains(j),
    decreases upto - anchor,
{
    let found = members(all, claimed, anchor, upto);
    if j == upto - 1 {
        assert(found[found.len() - 1] == j);
    } else {
        lemma_members_complete(all, claimed, anchor, upto - 1, j);
        let before = members(all, claimed, anchor, upto - 1);
        let k = choose|k: int| 0 <= k < before.len() && before[k] == j;
        assert(found[k] == j);
    }
}

/// The claimed places are those that a contact before `from` can claim.
pub open spec fn claims_so_far(all: Seq<ContactView>, claimed: Set<int>, from: int) -> bool {
    forall|j: int|
        0 <= j < all.len() ==> (#[trigger] claimed.contains(j) <==> exists|i: int|
            i < from && #[trigger] can_claim(all, i, j))
}

/// `j` stands in one of the groups, behind the anchor.
pub open spec fn is_member(groups: Seq<Seq<int>>, j: int) -> bool {
    exists|k: int, p: int|
        0 <= k < groups.len() && 1 <= p < groups[k].len() && #[trigger] groups[k][p] == j
}

/// In every group, the anchor is the first contact that can claim each of
/// the others.
pub open spec fn anchors_come_first(all: Seq<ContactView>, groups: Seq<Seq<int>>) -> bool {
    forall|k: int, p: int|
        0 <= k < groups.len() && 1 <= p < groups[k].len() ==> {
            &&& can_claim(all, groups[k][0], #[trigger] groups[k][p])
            &&& forall|i: int| i < groups[k][0] ==> !#[trigger] can_claim(all, i, groups[k][p])
        }
}

/// What the groups found from `from` on hold, given that the claimed places
/// are those claimed before `from`: their members are the contacts that are
/// claimed but were not claimed yet, each in the group of the first contact
/// that can claim it.
pub proof fn lemma_groups_from_claims(all: Seq<ContactView>, claimed: Set<int>, from: int)
    requires
        0 <= from,
        claims_so_far(all, claimed, from),
    ensures
        anchors_come_first(all, groups_from(all, claimed, from)),
        forall|j: int|
            0 <= j < all.len() ==> (is_member(groups_from(all, claimed, from), j) <==> is_claimed(
                all,
                j,
            ) && !claimed.contains(j)),
    decreases all.len() - from,
{
    let groups = groups_from(all, claimed, from);
    let n = all.len() as int;
    if from >= n {
        assert forall|j: int| 0 <= j < n implies (is_member(groups, j) <==> is_claimed(all, j)
            && !claimed.contains(j)) by {
            lemma_is_claimed(all, j);
            if is_claimed(all, j) {
                let i = choose|i: int| #[trigger] can_claim(all, i, j);
                assert(i < from);
            }
        }
    } else {
        lemma_is_claimed(all, from);
        let found = members(all, claimed, from, n);
        lemma_members(all, claimed, from, n);
        let taken = claimed.contains(from);
        let more = if taken || found.len() == 0 {
            claimed
        } else {
            claimed.union(found.to_set())
        };
        let rest = groups_from(all, more, from + 1);
        assert(taken <==> is_claimed(all, from)) by {
            if taken {
                let i = choose|i: int| i < from && #[trigger] can_claim(all, i, from);
            }
            if is_claimed(all, from) {
                let i = choose|i: int| #[trigger] can_claim(all, i, from);
                assert(i < from);
            }
        }
        assert(claims_so_far(all, more, from + 1)) by {
            assert forall|j: int| 0 <= j < n implies (#[trigger] more.contains(j) <==> exists|i: int|
                i < from + 1 && #[trigger] can_claim(all, i, j)) by {
                if more.contains(j) {
                    if claimed.contains(j) {
                        let i = choose|i: int| i < from && #[trigger] can_claim(all, i, j);
                        assert(i < from + 1 && can_claim(all, i, j));
                    } else {
                        assert(found.contains(j));
                        let m = choose|m: int| 0 <= m < found.len() && found[m] == j;
                        assert(can_claim(all, from, j));
                    }
                }
                if exists|i: int| i < from + 1 && #[trigger] can_claim(all, i, j) {
                    let i = choose|i: int| i < from + 1 && #[trigger] can_claim(all, i, j);
                    if i < from {
                        assert(claimed.contains(j));
                    } else {
                        assert(i == from);
                        if !claimed.contains(j) {
                            lemma_members_complete(all, claimed, from, n, j);
                        }
                    }
                }
            }
        }
        lemma_groups_from_claims(all, more, from + 1);
        if taken || found.len() == 0 {
            assert(groups == rest);
            assert forall|j: int| 0 <= j < n implies (is_member(groups, j) <==> is_claimed(all, j)
                && !claimed.contains(j)) by {}
        } else {
            let entry = seq![from] + found;
            assert(groups == seq![entry] + rest);
            assert(groups[0] == entry);
            assert forall|p: int| 1 <= p < entry.len() implies entry[p] == found[p - 1] by {}
            assert forall|k: int| 1 <= k < groups.len() implies groups[k] == rest[k - 1] by {}
            assert(anchors_come_first(all, groups)) by {
                assert forall|k: int, p: int|
                    0 <= k < groups.len() && 1 <= p < groups[k].len() implies {
                    &&& can_claim(all, groups[k][0], #[trigger] groups[k][p])
                    &&& forall|i: int|
                        i < groups[k][0] ==> !#[trigger] can_claim(all, i, groups[k][p])
                } by {
                    if k == 0 {
                        let j = found[p - 1];
                        assert(entry[p] == j);
                        assert(!claimed.contains(j));
                        assert forall|i: int| i < from implies !#[trigger] can_claim(
                            all,
                            i,
                            j,
                        ) by {}
                    } else {
                        assert(groups[k] == rest[k - 1]);
                        let j = rest[k - 1][p];
                        assert(can_claim(all, rest[k - 1][0], j));
                    }
                }
            }
            assert forall|j: int| 0 <= j < n implies (is_member(groups, j) <==> is_claimed(all, j)
                && !claimed.contains(j)) by {
                lemma_is_claimed(all, j);
                if is_member(groups, j) {
                    let (k, p) = choose|k: int, p: int|
                        0 <= k < groups.len() && 1 <= p < groups[k].len() && #[trigger] groups[k][p]
                            == j;
                    if k == 0 {
                        assert(entry[p] == found[p - 1]);
                        assert(can_claim(all, from, j));
                    } else {
                        assert(groups[k] == rest[k - 1]);
                        assert(rest[k - 1][p] == j);
                        assert(is_member(rest, j));
                    }
                }
                if is_claimed(all, j) && !claimed.contains(j) {
                    if found.contains(j) {
                        let m = choose|m: int| 0 <= m < found.len() && found[m] == j;
                        assert(entry[m + 1] == j);
                        assert(groups[0][m + 1] == j);
                    } else {
                        assert(!more.contains(j));
                        assert(is_member(rest, j));
                        let (k, p) = choose|k: int, p: int|
                            0 <= k < rest.len() && 1 <= p < rest[k].len() && #[trigger] rest[k][p]
                                == j;
                        assert(groups[k + 1] == rest[k]);
                        assert(groups[k + 1][p] == j);
                    }
                }
            }
        }
    }
}

/// The law of the anchors: a contact joins a group exactly when an earlier
/// contact that did not itself join one is a duplicate of it, and the group
/// it joins is that of the first such contact. So two contacts stand in one
/// group only through the anchor, never through each other.
pub proof fn lemma_groups_follow_anchors(all: Seq<ContactView>)
    ensures
        anchors_come_first(all, duplicate_groups(all)),
        forall|j: int|
            0 <= j < all.len() ==> (is_member(duplicate_groups(all), j) <==> is_claimed(all, j)),
{
    lemma_groups_from_claims(all, Set::empty(), 0);
}

} // verus!
