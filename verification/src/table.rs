//! Tables: rows in the order of their first insertion, found by a text key
//! that no two rows share.

use vstd::prelude::*;

verus! {

/// A row with a text key.
pub trait Keyed: Sized {
    /// The key.
    spec fn key_text(self) -> Seq<char>;

    /// The key, for running code.
    fn key(&self) -> (key: &String)
        ensures
            key@ == self.key_text(),
    ;
}

/// No two rows share a key.
pub open spec fn unique_keys<R: Keyed>(rows: Seq<R>) -> bool {
    forall|i: int, j: int|
        #![trigger rows[i], rows[j]]
        0 <= i < j < rows.len() ==> rows[i].key_text() != rows[j].key_text()
}

/// Some row has the key.
pub open spec fn has_key<R: Keyed>(rows: Seq<R>, key: Seq<char>) -> bool {
    exists|i: int| 0 <= i < rows.len() && (#[trigger] rows[i]).key_text() == key
}

/// Where the row with the key stands.
pub open spec fn position<R: Keyed>(rows: Seq<R>, key: Seq<char>) -> int {
    choose|i: int| 0 <= i < rows.len() && (#[trigger] rows[i]).key_text() == key
}

/// The row with the key, if there is one.
pub open spec fn lookup<R: Keyed>(rows: Seq<R>, key: Seq<char>) -> Option<R> {
    if has_key(rows, key) {
        Some(rows[position(rows, key)])
    } else {
        None
    }
}

/// The table after `row` took the place of the row with its key, or was added
/// at the end where there was none.
pub open spec fn stored<R: Keyed>(rows: Seq<R>, row: R) -> Seq<R> {
    if has_key(rows, row.key_text()) {
        rows.update(position(rows, row.key_text()), row)
    } else {
        rows.push(row)
    }
}

/// A row with the key is the row at the key's position.
pub proof fn lemma_position<R: Keyed>(rows: Seq<R>, i: int)
    requires
        unique_keys(rows),
        0 <= i < rows.len(),
    ensures
        has_key(rows, rows[i].key_text()),
        position(rows, rows[i].key_text()) == i,
        lookup(rows, rows[i].key_text()) == Some(rows[i]),
{
    let key = rows[i].key_text();
    let p = position(rows, key);
    assert(0 <= p < rows.len() && rows[p].key_text() == key);
    if p < i {
        assert(rows[p].key_text() != rows[i].key_text());
    } else if i < p {
        assert(rows[i].key_text() != rows[p].key_text());
    }
}

/// Storing keeps the keys unique, makes the row the one found under its key,
/// and leaves what is found under every other key as it was.
pub proof fn lemma_stored<R: Keyed>(rows: Seq<R>, row: R)
    requires
        unique_keys(rows),
    ensures
        unique_keys(stored(rows, row)),
        lookup(stored(rows, row), row.key_text()) == Some(row),
        forall|key: Seq<char>|
            key != row.key_text() ==> #[trigger] lookup(stored(rows, row), key) == lookup(
                rows,
                key,
            ),
        forall|key: Seq<char>| #[trigger]
            has_key(stored(rows, row), key) <==> has_key(rows, key) || key == row.key_text(),
{
    let after = stored(rows, row);
    let at = if has_key(rows, row.key_text()) {
        position(rows, row.key_text())
    } else {
        rows.len() as int
    };
    assert(after[at] == row);
    assert forall|i: int, j: int|
        #![trigger after[i], after[j]]
        0 <= i < j < after.len() implies after[i].key_text() != after[j].key_text() by {
        if has_key(rows, row.key_text()) {
            if i == at {
                assert(rows[i].key_text() != rows[j].key_text());
            } else if j == at {
                assert(rows[i].key_text() != rows[j].key_text());
            } else {
                assert(rows[i].key_text() != rows[j].key_text());
            }
        } else if j < rows.len() {
            assert(rows[i].key_text() != rows[j].key_text());
        }
    }
    lemma_position(after, at);
    assert forall|key: Seq<char>| key != row.key_text() implies #[trigger] lookup(after, key)
        == lookup(rows, key) && (has_key(after, key) <==> has_key(rows, key)) by {
        if has_key(rows, key) {
            let p = position(rows, key);
            assert(rows[p].key_text() == key);
            assert(after[p] == rows[p]);
            lemma_position(after, p);
        } else if has_key(after, key) {
            let p = position(after, key);
            assert(after[p].key_text() == key);
            assert(p != at);
            assert(rows[p] == after[p]);
        }
    }
    assert forall|key: Seq<char>| #[trigger] has_key(after, key) <==> has_key(rows, key) || key
        == row.key_text() by {
        if key != row.key_text() {
            assert(lookup(after, key) == lookup(rows, key));
        }
    }
}

/// Removing rows keeps the keys unique; under a key stands then the row that
/// stood there before, if it was kept.
pub proof fn lemma_filtered<R: Keyed>(rows: Seq<R>, keep: spec_fn(R) -> bool)
    requires
        unique_keys(rows),
    ensures
        unique_keys(rows.filter(keep)),
        forall|key: Seq<char>| #[trigger]
            lookup(rows.filter(keep), key) == (match lookup(rows, key) {
                Some(row) => if keep(row) {
                    Some(row)
                } else {
                    None
                },
                None => None,
            }),
    decreases rows.len(),
{
    reveal(Seq::filter);
    if rows.len() > 0 {
        let init = rows.drop_last();
        let last = rows.last();
        assert forall|i: int, j: int|
            #![trigger init[i], init[j]]
            0 <= i < j < init.len() implies init[i].key_text() != init[j].key_text() by {
            assert(rows[i].key_text() != rows[j].key_text());
        }
        lemma_filtered(init, keep);
        assert(!has_key(init, last.key_text())) by {
            if has_key(init, last.key_text()) {
                let p = position(init, last.key_text());
                assert(init[p].key_text() == last.key_text());
                assert(rows[p].key_text() != rows[rows.len() - 1].key_text());
            }
        }
        assert(rows =~= stored(init, last));
        lemma_stored(init, last);
        let kept = init.filter(keep);
        assert(lookup(kept, last.key_text()) is None);
        assert(lookup(kept, last.key_text()) is Some <==> has_key(kept, last.key_text()));
        lemma_stored(kept, last);
        if keep(last) {
            assert(rows.filter(keep) =~= stored(kept, last));
        }
    }
}

/// Finds the row with the key.
pub fn find<R: Keyed>(rows: &Vec<R>, key: &String) -> (at: Option<usize>)
    requires
        unique_keys(rows@),
    ensures
        at is Some <==> has_key(rows@, key@),
        at matches Some(i) ==> i < rows@.len() && i == position(rows@, key@)
            && rows@[i as int].key_text() == key@,
{
    let mut i: usize = 0;
    while i < rows.len()
        invariant
            i <= rows@.len(),
            unique_keys(rows@),
            forall|j: int| 0 <= j < i ==> (#[trigger] rows@[j]).key_text() != key@,
        decreases rows@.len() - i,
    {
        if *rows[i].key() == *key {
            proof {
                lemma_position(rows@, i as int);
            }
            return Some(i);
        }
        i = i + 1;
    }
    None
}

/// Stores a row under its key.
pub fn store<R: Keyed>(rows: &mut Vec<R>, row: R)
    requires
        unique_keys(old(rows)@),
    ensures
        final(rows)@ == stored(old(rows)@, row),
        unique_keys(final(rows)@),
{
    proof {
        lemma_stored(rows@, row);
    }
    match find(rows, row.key()) {
        Some(i) => {
            rows.set(i, row);
        },
        None => {
            rows.push(row);
        },
    }
}

/// Removes the rows that `drop_row` picks; `keep` says which ones stay.
pub fn remove_rows<R, F: Fn(&R) -> bool>(
    rows: &mut Vec<R>,
    drop_row: F,
    Ghost(keep): Ghost<spec_fn(R) -> bool>,
)
    requires
        forall|r: &R| #[trigger] call_requires(drop_row, (r,)),
        forall|r: &R, dropped: bool| #[trigger]
            call_ensures(drop_row, (r,), dropped) ==> dropped == !keep(*r),
    ensures
        final(rows)@ == old(rows)@.filter(keep),
{
    let ghost before = rows@;
    let ghost mut seen: int = 0;
    let mut i: usize = 0;
    assert(before.take(0).filter(keep) =~= Seq::<R>::empty()) by {
        reveal(Seq::filter);
    }
    assert(rows@ =~= before.take(0).filter(keep) + before.skip(0));
    while i < rows.len()
        invariant
            0 <= seen <= before.len(),
            rows@ == before.take(seen).filter(keep) + before.skip(seen),
            i == before.take(seen).filter(keep).len(),
            forall|r: &R| #[trigger] call_requires(drop_row, (r,)),
            forall|r: &R, dropped: bool| #[trigger]
                call_ensures(drop_row, (r,), dropped) ==> dropped == !keep(*r),
        decreases before.len() - seen,
    {
        let ghost head = before.take(seen).filter(keep);
        let ghost row = before[seen];
        assert(rows@[i as int] == row);
        assert(before.take(seen + 1).drop_last() =~= before.take(seen));
        assert(before.take(seen + 1).last() == row);
        proof {
            reveal(Seq::filter);
        }
        if drop_row(&rows[i]) {
            rows.remove(i);
            assert(rows@ =~= head + before.skip(seen + 1));
        } else {
            assert(rows@ =~= head.push(row) + before.skip(seen + 1));
            i = i + 1;
        }
        proof {
            seen = seen + 1;
        }
    }
    assert(seen == before.len());
    assert(before.take(seen) =~= before);
    assert(rows@ =~= before.filter(keep));
}

/// A row is stored in the place of the row that has its key, or at the end where
/// no row has it; all other rows keep their places.
pub proof fn law_stored_in_place<R: Keyed>(rows: Seq<R>, row: R)
    requires
        unique_keys(rows),
    ensures
        forall|i: int|
            #![trigger rows[i]]
            0 <= i < rows.len() ==> stored(rows, row)[i] == (if rows[i].key_text()
                == row.key_text() {
                row
            } else {
                rows[i]
            }),
        (forall|i: int|
            0 <= i < rows.len() ==> (#[trigger] rows[i]).key_text() != row.key_text())
            ==> stored(rows, row) == rows.push(row),
        (exists|i: int|
            0 <= i < rows.len() && (#[trigger] rows[i]).key_text() == row.key_text())
            ==> stored(rows, row).len() == rows.len(),
{
    assert forall|i: int| #![trigger rows[i]] 0 <= i < rows.len() implies stored(rows, row)[i] == (
    if rows[i].key_text() == row.key_text() {
        row
    } else {
        rows[i]
    }) by {
        if rows[i].key_text() == row.key_text() {
            lemma_position(rows, i);
        }
    }
}

/// What is found under a key is a row of the table that has it, and nothing is
/// found exactly where no row has it.
pub proof fn law_lookup<R: Keyed>(rows: Seq<R>, key: Seq<char>)
    requires
        unique_keys(rows),
    ensures
        forall|i: int|
            0 <= i < rows.len() && (#[trigger] rows[i]).key_text() == key ==> lookup(rows, key)
                == Some(rows[i]),
        (forall|i: int| 0 <= i < rows.len() ==> (#[trigger] rows[i]).key_text() != key)
            ==> lookup(rows, key) is None,
{
    assert forall|i: int| 0 <= i < rows.len() && (#[trigger] rows[i]).key_text() == key implies lookup(
        rows,
        key,
    ) == Some(rows[i]) by {
        lemma_position(rows, i);
    }
}

} // verus!
