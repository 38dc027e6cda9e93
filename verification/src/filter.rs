//! The tag filter: which memos a tag query keeps.
//!
//! A query is a list of tokens. A token is met by a memo when it occurs
//! inside one of the memo's tags (containment, not equality, so the token
//! `a` is met by the tag `cat`). A memo is kept when every token is met. A
//! query with a token that holds `all` keeps every memo.

use crate::memo::{memo_views, Memo, MemoView};
use crate::text::{char_views, chars_of, contains_chars, is_substring, lemma_empty_is_substring,
    lemma_substring_reflexive, lemma_substring_transitive, views};
use vstd::prelude::*;

verus! {

/// The token that switches filtering off.
pub open spec fn all_token() -> Seq<char> {
    "all"@
}

/// Some token of `query` holds `all`.
pub open spec fn is_all_query(query: Seq<Seq<char>>) -> bool {
    exists|i: int| 0 <= i < query.len() && is_substring(all_token(), #[trigger] query[i])
}

/// `token` occurs inside some tag of `memo_tags`.
pub open spec fn token_met(token: Seq<char>, memo_tags: Seq<Seq<char>>) -> bool {
    exists|j: int| 0 <= j < memo_tags.len() && is_substring(token, #[trigger] memo_tags[j])
}

/// Every token of `query` occurs inside some tag of `memo_tags`.
pub open spec fn all_tokens_met(query: Seq<Seq<char>>, memo_tags: Seq<Seq<char>>) -> bool {
    forall|i: int| 0 <= i < query.len() ==> token_met(#[trigger] query[i], memo_tags)
}

/// Whether a memo with tags `memo_tags` is kept by `query`.
pub open spec fn tags_match(query: Seq<Seq<char>>, memo_tags: Seq<Seq<char>>) -> bool {
    is_all_query(query) || all_tokens_met(query, memo_tags)
}

/// The predicate on memos that `query` stands for.
pub open spec fn kept_by(query: Seq<Seq<char>>) -> spec_fn(MemoView) -> bool {
    |m: MemoView| tags_match(query, m.tags)
}

/// The memos of `items` that `query` keeps, in their order.
pub open spec fn filtered(items: Seq<MemoView>, query: Seq<Seq<char>>) -> Seq<MemoView> {
    items.filter(kept_by(query))
}

/// A query with a token equal to `all` keeps a memo whatever its tags are,
/// also when it has none.
pub proof fn lemma_all_keeps_every_memo(query: Seq<Seq<char>>, memo_tags: Seq<Seq<char>>)
    requires
        exists|i: int| 0 <= i < query.len() && #[trigger] query[i] == all_token(),
    ensures
        tags_match(query, memo_tags),
{
    let i = choose|i: int| 0 <= i < query.len() && #[trigger] query[i] == all_token();
    lemma_substring_reflexive(all_token());
    assert(is_substring(all_token(), query[i]));
}

/// A query of two tokens, neither holding `all`, keeps a memo exactly when
/// each of the two occurs inside some tag of the memo.
pub proof fn lemma_two_tokens(t1: Seq<char>, t2: Seq<char>, memo_tags: Seq<Seq<char>>)
    requires
        !is_substring(all_token(), t1),
        !is_substring(all_token(), t2),
    ensures
        tags_match(seq![t1, t2], memo_tags) <==> (token_met(t1, memo_tags) && token_met(
            t2,
            memo_tags,
        )),
{
    let query = seq![t1, t2];
    assert(query[0] == t1 && query[1] == t2);
    assert(!is_all_query(query));
    if token_met(t1, memo_tags) && token_met(t2, memo_tags) {
        assert(all_tokens_met(query, memo_tags));
    }
}

/// A query without tokens keeps every memo.
pub proof fn lemma_empty_query(memo_tags: Seq<Seq<char>>)
    ensures
        tags_match(Seq::<Seq<char>>::empty(), memo_tags),
{
}

/// A memo without tags is kept only by a query that holds `all` or has no
/// token at all.
pub proof fn lemma_no_tags(query: Seq<Seq<char>>)
    ensures
        tags_match(query, Seq::<Seq<char>>::empty()) <==> (is_all_query(query) || query.len()
            == 0),
{
    if query.len() > 0 && all_tokens_met(query, Seq::<Seq<char>>::empty()) {
        assert(token_met(query[0], Seq::<Seq<char>>::empty()));
    }
}

/// A token that occurs inside another token is met wherever that one is.
pub proof fn lemma_shorter_token_is_met(
    short: Seq<char>,
    long: Seq<char>,
    memo_tags: Seq<Seq<char>>,
)
    requires
        is_substring(short, long),
        token_met(long, memo_tags),
    ensures
        token_met(short, memo_tags),
{
    let j = choose|j: int| 0 <= j < memo_tags.len() && is_substring(long, #[trigger] memo_tags[j]);
    lemma_substring_transitive(short, long, memo_tags[j]);
}

/// The empty token is met by every memo that has a tag, and by no other.
pub proof fn lemma_empty_token(memo_tags: Seq<Seq<char>>)
    ensures
        token_met(Seq::<char>::empty(), memo_tags) <==> memo_tags.len() > 0,
{
    if memo_tags.len() > 0 {
        lemma_empty_is_substring(memo_tags[0]);
    }
}

/// The order of the tokens and the order of the tags do not matter: two
/// queries with the same tokens, on two tag lists with the same tags, agree.
pub proof fn lemma_order_insensitive(
    q1: Seq<Seq<char>>,
    q2: Seq<Seq<char>>,
    m1: Seq<Seq<char>>,
    m2: Seq<Seq<char>>,
)
    requires
        q1.to_set() == q2.to_set(),
        m1.to_set() == m2.to_set(),
    ensures
        tags_match(q1, m1) == tags_match(q2, m2),
{
    lemma_match_subset(q1, q2, m1, m2);
    lemma_match_subset(q2, q1, m2, m1);
}

proof fn lemma_match_subset(
    q1: Seq<Seq<char>>,
    q2: Seq<Seq<char>>,
    m1: Seq<Seq<char>>,
    m2: Seq<Seq<char>>,
)
    requires
        q1.to_set() == q2.to_set(),
        m1.to_set() == m2.to_set(),
    ensures
        tags_match(q1, m1) ==> tags_match(q2, m2),
{
    if is_all_query(q1) {
        let i = choose|i: int| 0 <= i < q1.len() && is_substring(all_token(), #[trigger] q1[i]);
        assert(q1.to_set().contains(q1[i]));
        assert(q2.contains(q1[i]));
        let k = choose|k: int| 0 <= k < q2.len() && q2[k] == q1[i];
        assert(is_substring(all_token(), q2[k]));
    } else if all_tokens_met(q1, m1) {
        assert forall|k: int| 0 <= k < q2.len() implies token_met(#[trigger] q2[k], m2) by {
            assert(q2.to_set().contains(q2[k]));
            assert(q1.contains(q2[k]));
            let i = choose|i: int| 0 <= i < q1.len() && q1[i] == q2[k];
            assert(token_met(q1[i], m1));
            let j = choose|j: int|
                0 <= j < m1.len() && is_substring(q1[i], #[trigger] m1[j]);
            assert(m1.to_set().contains(m1[j]));
            assert(m2.contains(m1[j]));
            let l = choose|l: int| 0 <= l < m2.len() && m2[l] == m1[j];
            assert(is_substring(q2[k], m2[l]));
        }
    }
}

/// Filtering what a filter kept, with the same query, changes nothing.
pub proof fn lemma_filter_idempotent(items: Seq<MemoView>, query: Seq<Seq<char>>)
    ensures
        filtered(filtered(items, query), query) == filtered(items, query),
    decreases items.len(),
{
    reveal(Seq::filter);
    let keep = kept_by(query);
    if items.len() > 0 {
        lemma_filter_idempotent(items.drop_last(), query);
        let head = items.drop_last().filter(keep);
        if keep(items.last()) {
            head.lemma_filter_push(items.last(), keep);
        }
    }
}

/// What a filter keeps is never longer than what it was given, and every
/// memo it keeps is kept by the query.
pub proof fn lemma_filter_shrinks(items: Seq<MemoView>, query: Seq<Seq<char>>)
    ensures
        filtered(items, query).len() <= items.len(),
        forall|i: int|
            0 <= i < filtered(items, query).len() ==> tags_match(
                query,
                #[trigger] filtered(items, query)[i].tags,
            ),
{
    items.lemma_filter_len(kept_by(query));
    assert forall|i: int| 0 <= i < filtered(items, query).len() implies tags_match(
        query,
        #[trigger] filtered(items, query)[i].tags,
    ) by {
        items.lemma_filter_pred(kept_by(query), i);
    }
}

/// A query that holds `all` keeps the whole list.
pub proof fn lemma_all_keeps_list(items: Seq<MemoView>, query: Seq<Seq<char>>)
    requires
        is_all_query(query),
    ensures
        filtered(items, query) == items,
    decreases items.len(),
{
    reveal(Seq::filter);
    if items.len() > 0 {
        lemma_all_keeps_list(items.drop_last(), query);
        assert(items.drop_last().push(items.last()) =~= items);
    }
}

/// Whether `token` occurs inside one of `memo_tags`.
fn token_is_met(token: &Vec<char>, memo_tags: &Vec<Vec<char>>) -> (met: bool)
    ensures
        met == token_met(token@, char_views(memo_tags@)),
{
    let ghost tags = char_views(memo_tags@);
    let mut j: usize = 0;
    while j < memo_tags.len()
        invariant
            j <= memo_tags.len(),
            tags == char_views(memo_tags@),
            forall|k: int| 0 <= k < j ==> !is_substring(token@, #[trigger] tags[k]),
        decreases memo_tags.len() - j,
    {
        if contains_chars(&memo_tags[j], token) {
            assert(is_substring(token@, tags[j as int]));
            return true;
        }
        j = j + 1;
    }
    false
}

/// The characters of each string of `list`.
fn chars_of_each(list: &Vec<String>) -> (out: Vec<Vec<char>>)
    ensures
        char_views(out@) == views(list@),
{
    let mut out: Vec<Vec<char>> = Vec::new();
    let mut i: usize = 0;
    while i < list.len()
        invariant
            i <= list.len(),
            char_views(out@) == views(list@.take(i as int)),
        decreases list.len() - i,
    {
        let chars = chars_of(list[i].as_str());
        proof {
            assert(list@.take(i + 1) =~= list@.take(i as int).push(list@[i as int]));
            assert(char_views(out@.push(chars)) =~= char_views(
                out@,
            ).push(chars@));
            assert(views(list@.take(i + 1)) =~= views(list@.take(i as int)).push(
                list@[i as int]@,
            ));
        }
        out.push(chars);
        i = i + 1;
    }
    assert(list@.take(list.len() as int) =~= list@);
    out
}

/// Whether the query `tags` keeps a memo whose tags are `tags_memo`: true
/// when a token of the query holds `all`, else when every token of the query
/// occurs inside some tag of the memo.
pub fn is_include_these_tags(tags: &Vec<String>, tags_memo: &Vec<String>) -> (keep: bool)
    ensures
        keep == tags_match(views(tags@), views(tags_memo@)),
{
    let query = chars_of_each(tags);
    let memo_tags = chars_of_each(tags_memo);
    let all = chars_of("all");
    let ghost q = views(tags@);
    let ghost m = views(tags_memo@);

    let mut i: usize = 0;
    while i < query.len()
        invariant
            i <= query.len(),
            q == views(tags@),
            q == char_views(query@),
            all@ == all_token(),
            forall|k: int| 0 <= k < i ==> !is_substring(all_token(), #[trigger] q[k]),
        decreases query.len() - i,
    {
        if contains_chars(&query[i], &all) {
            assert(is_substring(all_token(), q[i as int]));
            return true;
        }
        i = i + 1;
    }
    assert(!is_all_query(q));

    let mut i: usize = 0;
    while i < query.len()
        invariant
            i <= query.len(),
            q == views(tags@),
            m == views(tags_memo@),
            q == char_views(query@),
            m == char_views(memo_tags@),
            !is_all_query(q),
            forall|k: int| 0 <= k < i ==> token_met(#[trigger] q[k], m),
        decreases query.len() - i,
    {
        if !token_is_met(&query[i], &memo_tags) {
            assert(!token_met(q[i as int], m));
            return false;
        }
        i = i + 1;
    }
    true
}

/// The memos of `memos` that the query `tags` keeps, in their order.
pub fn filter_memos(memos: &Vec<Memo>, tags: &Vec<String>) -> (kept: Vec<Memo>)
    ensures
        memo_views(kept@) == filtered(memo_views(memos@), views(tags@)),
{
    let ghost keep = kept_by(views(tags@));
    let mut kept: Vec<Memo> = Vec::new();
    let mut i: usize = 0;
    proof {
        reveal(Seq::filter);
        assert(memo_views(memos@.take(0)).len() == 0);
    }
    while i < memos.len()
        invariant
            i <= memos.len(),
            keep == kept_by(views(tags@)),
            memo_views(kept@) == memo_views(memos@.take(i as int)).filter(keep),
        decreases memos.len() - i,
    {
        let ghost seen = memo_views(memos@.take(i as int));
        proof {
            assert(memos@.take(i + 1) =~= memos@.take(i as int).push(memos@[i as int]));
            assert(memo_views(memos@.take(i + 1)) =~= seen.push(memos@[i as int]@));
            seen.lemma_filter_push(memos@[i as int]@, keep);
        }
        if is_include_these_tags(tags, memos[i].get_tags()) {
            let m = memos[i].clone();
            assert(memo_views(kept@.push(m)) =~= memo_views(kept@).push(m@));
            kept.push(m);
        }
        i = i + 1;
    }
    assert(memos@.take(memos.len() as int) =~= memos@);
    kept
}

} // verus!
