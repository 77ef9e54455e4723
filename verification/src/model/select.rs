//! Moving a selection in a list.

use vstd::prelude::*;

use crate::text::{contains, has_infix, texts};

verus! {

/// Where a selection stands after a move in a list of `len` rows: it stops at
/// the ends.
pub open spec fn moved(selected: int, delta: int, len: int) -> int {
    if selected + delta < 0 {
        0
    } else if selected + delta > len - 1 {
        len - 1
    } else {
        selected + delta
    }
}

/// Where a selection stands after a move in a list that is not empty.
pub fn move_in(selected: usize, delta: isize, len: usize) -> (r: usize)
    requires
        len > 0,
    ensures
        r == moved(selected as int, delta as int, len as int),
        r < len,
{
    let next: i128 = selected as i128 + delta as i128;
    if next < 0 {
        0
    } else if next > len as i128 - 1 {
        len - 1
    } else {
        next as usize
    }
}

/// Where a selection stands in a list of `len` rows that took the place of
/// another.
pub open spec fn kept_within(selected: int, len: int) -> int {
    if len == 0 {
        0
    } else if selected > len - 1 {
        len - 1
    } else {
        selected
    }
}

/// Where a selection stands in a list that took the place of another.
pub fn keep_within(selected: usize, len: usize) -> (r: usize)
    ensures
        r == kept_within(selected as int, len as int),
{
    if len == 0 {
        0
    } else if selected > len - 1 {
        len - 1
    } else {
        selected
    }
}

/// Whether one of the texts of a row holds `q`; every row does where `q` is
/// empty.
pub open spec fn holds(fields: Seq<Seq<char>>, q: Seq<char>) -> bool {
    q.len() == 0 || exists|k: int| 0 <= k < fields.len() && has_infix(#[trigger] fields[k], q)
}

/// The texts of rows.
pub open spec fn row_texts(rows: Seq<Vec<String>>) -> Seq<Seq<Seq<char>>> {
    rows.map_values(|r: Vec<String>| texts(r@))
}

/// The positions of the first `n` rows that hold `q`, in order.
pub open spec fn rows_holding(rows: Seq<Seq<Seq<char>>>, q: Seq<char>, n: int) -> Seq<int>
    decreases n,
{
    if n <= 0 {
        Seq::empty()
    } else if holds(rows[n - 1], q) {
        rows_holding(rows, q, n - 1).push(n - 1)
    } else {
        rows_holding(rows, q, n - 1)
    }
}

fn row_holds(fields: &Vec<String>, q: &str) -> (r: bool)
    ensures
        r == holds(texts(fields@), q@),
{
    if q.is_empty() {
        return true;
    }
    let mut k: usize = 0;
    while k < fields.len()
        invariant
            k <= fields@.len(),
            q@.len() > 0,
            forall|j: int| 0 <= j < k ==> !has_infix(#[trigger] texts(fields@)[j], q@),
        decreases fields@.len() - k,
    {
        assert(texts(fields@)[k as int] == fields@[k as int]@);
        if contains(fields[k].as_str(), q) {
            return true;
        }
        k = k + 1;
    }
    false
}

/// The positions of the rows one of whose texts holds `q`, in order; of all
/// rows where `q` is empty.
pub fn matching_rows(rows: &Vec<Vec<String>>, q: &str) -> (r: Vec<usize>)
    ensures
        r@.map_values(|i: usize| i as int) == rows_holding(
            row_texts(rows@),
            q@,
            rows@.len() as int,
        ),
        forall|k: int| 0 <= k < r@.len() ==> #[trigger] r@[k] < rows@.len(),
{
    let mut r: Vec<usize> = Vec::new();
    let mut i: usize = 0;
    assert(r@.map_values(|i: usize| i as int) =~= Seq::empty());
    while i < rows.len()
        invariant
            i <= rows@.len(),
            r@.map_values(|i: usize| i as int) == rows_holding(row_texts(rows@), q@, i as int),
            forall|k: int| 0 <= k < r@.len() ==> #[trigger] r@[k] < i,
        decreases rows@.len() - i,
    {
        assert(row_texts(rows@)[i as int] == texts(rows@[i as int]@));
        if row_holds(&rows[i], q) {
            let ghost before = r@.map_values(|i: usize| i as int);
            r.push(i);
            assert(r@.map_values(|i: usize| i as int) =~= before.push(i as int));
        }
        i = i + 1;
    }
    r
}

/// A row is listed exactly where it holds the text.
pub proof fn law_listed_rows_hold(rows: Seq<Seq<Seq<char>>>, q: Seq<char>, n: int, i: int)
    requires
        0 <= n <= rows.len(),
    ensures
        rows_holding(rows, q, n).contains(i) <==> (0 <= i < n && holds(rows[i], q)),
    decreases n,
{
    if n > 0 {
        law_listed_rows_hold(rows, q, n - 1, i);
        let before = rows_holding(rows, q, n - 1);
        crate::sets::lemma_push_contains(before, n - 1, i);
    }
}

/// A selection that moves stays in the list, wherever it stood and however far
/// it moves, and goes as far as it was asked to unless an end is nearer.
pub proof fn law_selections_stay_in_the_list(selected: int, delta: int, len: int)
    requires
        len > 0,
    ensures
        0 <= moved(selected, delta, len) < len,
        0 <= selected + delta < len ==> moved(selected, delta, len) == selected + delta,
        0 <= selected ==> 0 <= kept_within(selected, len) < len,
{
}

/// The rows that are listed keep their order.
pub proof fn law_listed_rows_keep_their_order(
    rows: Seq<Seq<Seq<char>>>,
    q: Seq<char>,
    n: int,
    a: int,
    b: int,
)
    requires
        0 <= n <= rows.len(),
    ensures
        0 <= a < b < rows_holding(rows, q, n).len() ==> rows_holding(rows, q, n)[a]
            < rows_holding(rows, q, n)[b],
    decreases n,
{
    if n > 0 {
        let before = rows_holding(rows, q, n - 1);
        law_listed_rows_keep_their_order(rows, q, n - 1, a, b);
        if holds(rows[n - 1], q) && 0 <= a < b && b == before.len() {
            assert(before.contains(before[a]));
            law_listed_rows_hold(rows, q, n - 1, before[a]);
        }
    }
}

/// A move past an end stops at that end, and a list that took the place of
/// another keeps the selection unless it is shorter: it is at its last row
/// then, and at the first of an empty list.
pub proof fn law_moves_stop_at_the_ends(selected: int, delta: int, len: int)
    requires
        len > 0,
    ensures
        selected + delta < 0 ==> moved(selected, delta, len) == 0,
        selected + delta >= len ==> moved(selected, delta, len) == len - 1,
        0 <= selected < len ==> kept_within(selected, len) == selected,
        selected >= len ==> kept_within(selected, len) == len - 1,
        kept_within(selected, 0) == 0,
{
}

/// A row holds a text where one of its texts does; every row holds the empty
/// one.
pub proof fn law_rows_hold_what_their_texts_hold(fields: Seq<Seq<char>>, q: Seq<char>, k: int)
    ensures
        q.len() == 0 ==> holds(fields, q),
        0 <= k < fields.len() && has_infix(fields[k], q) ==> holds(fields, q),
        q.len() > 0 && (forall|i: int|
            0 <= i < fields.len() ==> !has_infix(#[trigger] fields[i], q)) ==> !holds(fields, q),
{
}

} // verus!
