//! Rows of a reply, of which some could not be read.

use std::collections::VecDeque;
use vstd::prelude::*;

verus! {

/// The rows that could be read, in order.
pub open spec fn present<T>(rows: Seq<Option<T>>) -> Seq<T> {
    rows.filter_map(|row: Option<T>| row)
}

/// What the text of a row that could be read is.
pub open spec fn text_of(row: Option<String>) -> Option<Seq<char>> {
    match row {
        Some(text) => Some(text@),
        None => None,
    }
}

/// The texts of some rows.
pub open spec fn texts_of(rows: Seq<Option<String>>) -> Seq<Option<Seq<char>>> {
    rows.map_values(|row: Option<String>| text_of(row))
}

/// The texts of some strings.
pub open spec fn texts(strings: Seq<String>) -> Seq<Seq<char>> {
    strings.map_values(|s: String| s@)
}

/// The rows that could be read, in order.
pub fn keep_present<T>(rows: Vec<Option<T>>) -> (kept: Vec<T>)
    ensures
        kept@ == present(rows@),
        (forall|i: int| 0 <= i < rows@.len() ==> #[trigger] rows@[i] is Some) ==> kept@.len()
            == rows@.len() && forall|i: int|
            0 <= i < rows@.len() ==> rows@[i] == Some(#[trigger] kept@[i]),
{
    let mut kept: Vec<T> = Vec::new();
    let ghost all = rows@;
    assert(all.take(0).filter_map(|row: Option<T>| row) =~= Seq::<T>::empty());
    for row in iter: rows
        invariant
            iter.seq() == all,
            kept@ == present(all.take(iter.index() as int)),
            (forall|i: int| 0 <= i < iter.index() ==> #[trigger] all[i] is Some) ==> kept@.len()
                == iter.index() && forall|i: int|
                0 <= i < iter.index() ==> all[i] == Some(#[trigger] kept@[i]),
    {
        proof {
            all.lemma_filter_map_take_succ(|row: Option<T>| row, iter.index() as int);
        }
        if let Some(value) = row {
            kept.push(value);
        }
    }
    assert(all.take(all.len() as int) =~= all);
    kept
}

/// The texts that could be read, in order.
pub fn keep_texts(rows: Vec<Option<String>>) -> (kept: VecDeque<String>)
    ensures
        texts(kept@) == present(texts_of(rows@)),
        (forall|i: int| 0 <= i < rows@.len() ==> #[trigger] rows@[i] is Some) ==> kept@.len()
            == rows@.len() && forall|i: int|
            0 <= i < rows@.len() ==> rows@[i] == Some(#[trigger] kept@[i]),
{
    let mut kept: VecDeque<String> = VecDeque::new();
    let ghost all = texts_of(rows@);
    let ghost source = rows@;
    assert(all.take(0).filter_map(|row: Option<Seq<char>>| row) =~= Seq::<Seq<char>>::empty());
    assert(texts(kept@) =~= Seq::<Seq<char>>::empty());
    for row in iter: rows
        invariant
            iter.seq() == source,
            all == texts_of(source),
            texts(kept@) == present(all.take(iter.index() as int)),
            (forall|i: int| 0 <= i < iter.index() ==> #[trigger] source[i] is Some) ==> kept@.len()
                == iter.index() && forall|i: int|
                0 <= i < iter.index() ==> source[i] == Some(#[trigger] kept@[i]),
    {
        proof {
            all.lemma_filter_map_take_succ(|row: Option<Seq<char>>| row, iter.index() as int);
        }
        let ghost before = kept@;
        if let Some(value) = row {
            kept.push_back(value);
            assert(texts(before.push(value)) =~= texts(before).push(value@));
        }
    }
    assert(all.take(all.len() as int) =~= all);
    kept
}

} // verus!
