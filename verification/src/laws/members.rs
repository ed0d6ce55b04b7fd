//! What the members of a document are, and which of them is found.
use vstd::prelude::*;

use crate::json::{
    find_key, items, list_of, lookup, member, table_of, tables, tables_upto, text_of_tree, text_or,
    texts_in, texts_upto, Members, Tree,
};

verus! {

/// Whether a document has the member `key`, and wherever it has it, with the
/// value `t`.
pub open spec fn holds(m: Members, key: Seq<char>, t: Tree) -> bool {
    m.contains((key, t)) && forall|i: int|
        0 <= i < m.len() && (#[trigger] m[i]).0 == key ==> m[i].1 == t
}

/// Whether a document has no member `key`.
pub open spec fn lacks(m: Members, key: Seq<char>) -> bool {
    forall|i: int| 0 <= i < m.len() ==> (#[trigger] m[i]).0 != key
}

proof fn lemma_find_key(m: Members, key: Seq<char>, from: int)
    requires
        0 <= from <= m.len(),
    ensures
        match find_key(m, key, from) {
            Some(i) => from <= i < m.len() && m[i].0 == key && forall|j: int|
                from <= j < i ==> (#[trigger] m[j]).0 != key,
            None => forall|j: int| from <= j < m.len() ==> (#[trigger] m[j]).0 != key,
        },
    decreases m.len() - from,
{
    if from < m.len() && m[from].0 != key {
        lemma_find_key(m, key, from + 1);
    }
}

/// A member that a document has is found, under its own name, with its own
/// value; and nothing is found that the document does not have.
pub proof fn law_members_are_found_by_name(m: Members, key: Seq<char>)
    ensures
        lacks(m, key) <==> lookup(m, key) is None,
        forall|t: Tree| holds(m, key, t) ==> lookup(m, key) == Some(t),
        lookup(m, key) matches Some(t) ==> m.contains((key, t)),
{
    lemma_find_key(m, key, 0);
    assert forall|t: Tree| holds(m, key, t) implies lookup(m, key) == Some(t) by {
        let i = m.index_of((key, t));
        assert(m[i].0 == key);
    }
    if let Some(i) = find_key(m, key, 0) {
        assert(m[i] == (key, m[i].1));
    }
}

/// Only a table has members; a text is the text it is, a table the table it
/// is, and a list the list it is.
pub proof fn law_values_are_what_they_are(t: Tree, key: Seq<char>, s: Seq<char>, m: Members, l: Seq<Tree>)
    ensures
        member(Tree::Table(m), key) == lookup(m, key),
        !(t is Table) ==> member(t, key) is None && table_of(Some(t)) is None,
        !(t is Text) ==> text_of_tree(Some(t)) is None,
        !(t is List) ==> list_of(Some(t)) is None && items(Some(t)).len() == 0,
        text_of_tree(Some(Tree::Text(s))) == Some(s),
        table_of(Some(Tree::Table(m))) == Some(m),
        list_of(Some(Tree::List(l))) == Some(l),
        items(Some(Tree::List(l))) == l,
        text_of_tree(None) is None,
        table_of(None) is None,
        list_of(None) is None,
        items(None).len() == 0,
{
}

proof fn lemma_tables(list: Seq<Tree>, k: int)
    requires
        0 <= k <= list.len(),
    ensures
        (forall|i: int| 0 <= i < k ==> (#[trigger] list[i]) is Table) ==> tables_upto(list, k).len() == k
            && forall|i: int| 0 <= i < k ==> Tree::Table(#[trigger] tables_upto(list, k)[i]) == list[i],
        forall|i: int|
            0 <= i < k && #[trigger] list[i] is Table ==> tables_upto(list, k).contains(
                list[i]->Table_0,
            ),
        forall|j: int|
            0 <= j < tables_upto(list, k).len() ==> list.contains(
                Tree::Table(#[trigger] tables_upto(list, k)[j]),
            ),
    decreases k,
{
    if k > 0 {
        lemma_tables(list, k - 1);
        let before = tables_upto(list, k - 1);
        let now = tables_upto(list, k);
        assert forall|i: int| 0 <= i < k && #[trigger] list[i] is Table implies now.contains(
            list[i]->Table_0,
        ) by {
            if i < k - 1 {
                let j = before.index_of(list[i]->Table_0);
                assert(now[j] == before[j]);
            } else {
                assert(now[now.len() - 1] == list[i]->Table_0);
            }
        }
        assert forall|j: int| 0 <= j < now.len() implies list.contains(
            Tree::Table(#[trigger] now[j]),
        ) by {
            if j < before.len() {
                assert(now[j] == before[j]);
            } else {
                assert(list[k - 1] == Tree::Table(now[j]));
            }
        }
    }
}

/// The tables of a list are all the tables in it, and nothing else; where all
/// its values are tables, they keep their places.
pub proof fn law_lists_give_their_tables(m: Members, key: Seq<char>, list: Seq<Tree>)
    requires
        lookup(m, key) == Some(Tree::List(list)),
    ensures
        (forall|i: int| 0 <= i < list.len() ==> (#[trigger] list[i]) is Table) ==> tables(
            m,
            key,
        ).len() == list.len() && forall|i: int|
            0 <= i < list.len() ==> Tree::Table(#[trigger] tables(m, key)[i]) == list[i],
        forall|i: int|
            0 <= i < list.len() && #[trigger] list[i] is Table ==> tables(m, key).contains(
                list[i]->Table_0,
            ),
        forall|j: int|
            0 <= j < tables(m, key).len() ==> list.contains(Tree::Table(#[trigger] tables(m, key)[j])),
{
    lemma_tables(list, list.len() as int);
}

proof fn lemma_texts(list: Seq<Tree>, k: int)
    requires
        0 <= k <= list.len(),
    ensures
        (forall|i: int| 0 <= i < k ==> (#[trigger] list[i]) is Text) ==> texts_upto(list, k).len() == k
            && forall|i: int| 0 <= i < k ==> Tree::Text(#[trigger] texts_upto(list, k)[i]) == list[i],
        forall|i: int|
            0 <= i < k && #[trigger] list[i] is Text ==> texts_upto(list, k).contains(list[i]->Text_0),
        forall|j: int|
            0 <= j < texts_upto(list, k).len() ==> list.contains(
                Tree::Text(#[trigger] texts_upto(list, k)[j]),
            ),
    decreases k,
{
    if k > 0 {
        lemma_texts(list, k - 1);
        let before = texts_upto(list, k - 1);
        let now = texts_upto(list, k);
        assert forall|i: int| 0 <= i < k && #[trigger] list[i] is Text implies now.contains(
            list[i]->Text_0,
        ) by {
            if i < k - 1 {
                let j = before.index_of(list[i]->Text_0);
                assert(now[j] == before[j]);
            } else {
                assert(now[now.len() - 1] == list[i]->Text_0);
            }
        }
        assert forall|j: int| 0 <= j < now.len() implies list.contains(Tree::Text(#[trigger] now[j])) by {
            if j < before.len() {
                assert(now[j] == before[j]);
            } else {
                assert(list[k - 1] == Tree::Text(now[j]));
            }
        }
    }
}

/// The texts of a list are all the texts in it, and nothing else; where all
/// its values are texts, they keep their places.
pub proof fn law_lists_give_their_texts(list: Seq<Tree>)
    ensures
        (forall|i: int| 0 <= i < list.len() ==> (#[trigger] list[i]) is Text) ==> texts_in(
            Some(Tree::List(list)),
        ).len() == list.len() && forall|i: int|
            0 <= i < list.len() ==> Tree::Text(#[trigger] texts_in(Some(Tree::List(list)))[i]) == list[i],
        forall|i: int|
            0 <= i < list.len() && #[trigger] list[i] is Text ==> texts_in(
                Some(Tree::List(list)),
            ).contains(list[i]->Text_0),
        forall|j: int|
            0 <= j < texts_in(Some(Tree::List(list))).len() ==> list.contains(
                Tree::Text(#[trigger] texts_in(Some(Tree::List(list)))[j]),
            ),
{
    lemma_texts(list, list.len() as int);
}

/// A member that is a text is that text; where there is none, or it is no
/// text, the default stands in for it.
pub proof fn law_texts_or_their_default(m: Members, key: Seq<char>, default: Seq<char>)
    ensures
        forall|s: Seq<char>| holds(m, key, Tree::Text(s)) ==> text_or(m, key, default) == s,
        lacks(m, key) ==> text_or(m, key, default) == default,
        forall|t: Tree| #[trigger] holds(m, key, t) && !(t is Text) ==> text_or(m, key, default) == default,
{
    law_members_are_found_by_name(m, key);
}

} // verus!
