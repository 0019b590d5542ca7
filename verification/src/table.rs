//! Abstract view shared by the stateful components: a table of keyed rows.
//!
//! The connection registry, the friend graph and the credential store all
//! keep their state as a sequence of rows with a distinguished key per row.
//! This module gives that picture a vocabulary — unique keys, membership,
//! the value stored under a key — and proves how the three row edits the
//! components perform (update in place, append, remove) act on it.

use vstd::prelude::*;

verus! {

/// No two rows share a key.
pub open spec fn keys_unique<K, V>(rows: Seq<(K, V)>) -> bool {
    forall|i: int, j: int|
        0 <= i < rows.len() && 0 <= j < rows.len() && i != j ==> (#[trigger] rows[i]).0 != (
        #[trigger] rows[j]).0
}

/// Some row carries the key `k`.
pub open spec fn has_key<K, V>(rows: Seq<(K, V)>, k: K) -> bool {
    exists|i: int| 0 <= i < rows.len() && (#[trigger] rows[i]).0 == k
}

/// The value stored under `k` (meaningful only when `has_key` holds).
pub open spec fn value_of<K, V>(rows: Seq<(K, V)>, k: K) -> V {
    (rows[choose|i: int| 0 <= i < rows.len() && (#[trigger] rows[i]).0 == k]).1
}

/// The row at index `i` is the one `value_of` speaks about for its key.
pub proof fn lemma_key_at<K, V>(rows: Seq<(K, V)>, i: int)
    requires
        keys_unique(rows),
        0 <= i < rows.len(),
    ensures
        has_key(rows, rows[i].0),
        value_of(rows, rows[i].0) == rows[i].1,
{
    assert(has_key(rows, rows[i].0));
    let j = choose|j: int| 0 <= j < rows.len() && (#[trigger] rows[j]).0 == rows[i].0;
    assert(j == i);
}

/// Overwriting the value of the row that already carries `k` leaves every
/// other key bound as before.
pub proof fn lemma_update_value<K, V>(pre: Seq<(K, V)>, post: Seq<(K, V)>, i: int, k: K, v: V)
    requires
        keys_unique(pre),
        0 <= i < pre.len(),
        pre[i].0 == k,
        post == pre.update(i, (k, v)),
    ensures
        keys_unique(post),
        has_key(post, k),
        value_of(post, k) == v,
        forall|k2: K| k2 != k ==> has_key(post, k2) == has_key(pre, k2),
        forall|k2: K| k2 != k && has_key(pre, k2) ==> value_of(post, k2) == value_of(pre, k2),
{
    assert forall|m: int| 0 <= m < post.len() implies (#[trigger] post[m]).0 == pre[m].0 by {
        if m != i {
            assert(post[m] == pre[m]);
        }
    }
    assert forall|a: int, b: int|
        0 <= a < post.len() && 0 <= b < post.len() && a != b implies (#[trigger] post[a]).0 != (
    #[trigger] post[b]).0 by {
        assert(pre[a].0 != pre[b].0);
    }
    assert(post[i] == (k, v));
    lemma_key_at(post, i);
    assert forall|k2: K| k2 != k implies has_key(post, k2) == has_key(pre, k2) by {
        if has_key(pre, k2) {
            let m = choose|m: int| 0 <= m < pre.len() && (#[trigger] pre[m]).0 == k2;
            assert(post[m].0 == k2);
            assert(has_key(post, k2));
        }
        if has_key(post, k2) {
            let m = choose|m: int| 0 <= m < post.len() && (#[trigger] post[m]).0 == k2;
            assert(pre[m].0 == k2);
            assert(has_key(pre, k2));
        }
    }
    assert forall|k2: K| k2 != k && has_key(pre, k2) implies value_of(post, k2) == value_of(
        pre,
        k2,
    ) by {
        let a = choose|m: int| 0 <= m < pre.len() && (#[trigger] pre[m]).0 == k2;
        lemma_key_at(pre, a);
        assert(post[a].0 == k2);
        lemma_key_at(post, a);
        assert(a != i);
        assert(post[a] == pre[a]);
    }
}

/// Appending a row under a fresh key binds that key and leaves every other
/// key bound as before.
pub proof fn lemma_push_row<K, V>(pre: Seq<(K, V)>, post: Seq<(K, V)>, k: K, v: V)
    requires
        keys_unique(pre),
        !has_key(pre, k),
        post == pre.push((k, v)),
    ensures
        keys_unique(post),
        has_key(post, k),
        value_of(post, k) == v,
        forall|k2: K| k2 != k ==> has_key(post, k2) == has_key(pre, k2),
        forall|k2: K| k2 != k && has_key(pre, k2) ==> value_of(post, k2) == value_of(pre, k2),
{
    let n = pre.len() as int;
    assert(post[n] == (k, v));
    assert forall|a: int, b: int|
        0 <= a < post.len() && 0 <= b < post.len() && a != b implies (#[trigger] post[a]).0 != (
    #[trigger] post[b]).0 by {
        if a < n && b < n {
            assert(post[a] == pre[a]);
            assert(post[b] == pre[b]);
        } else if a == n {
            assert(post[b] == pre[b]);
            assert(pre[b].0 != k);
        } else {
            assert(post[a] == pre[a]);
            assert(pre[a].0 != k);
        }
    }
    lemma_key_at(post, n);
    assert forall|k2: K| k2 != k implies has_key(post, k2) == has_key(pre, k2) by {
        if has_key(pre, k2) {
            let m = choose|m: int| 0 <= m < pre.len() && (#[trigger] pre[m]).0 == k2;
            assert(post[m].0 == k2);
            assert(has_key(post, k2));
        }
        if has_key(post, k2) {
            let m = choose|m: int| 0 <= m < post.len() && (#[trigger] post[m]).0 == k2;
            assert(m != n);
            assert(pre[m].0 == k2);
            assert(has_key(pre, k2));
        }
    }
    assert forall|k2: K| k2 != k && has_key(pre, k2) implies value_of(post, k2) == value_of(
        pre,
        k2,
    ) by {
        let a = choose|m: int| 0 <= m < pre.len() && (#[trigger] pre[m]).0 == k2;
        lemma_key_at(pre, a);
        assert(post[a].0 == k2);
        lemma_key_at(post, a);
        assert(post[a] == pre[a]);
    }
}

/// Removing the row that carries `k` unbinds that key and leaves every other
/// key bound as before.
pub proof fn lemma_remove_row<K, V>(pre: Seq<(K, V)>, post: Seq<(K, V)>, i: int, k: K)
    requires
        keys_unique(pre),
        0 <= i < pre.len(),
        pre[i].0 == k,
        post == pre.remove(i),
    ensures
        keys_unique(post),
        !has_key(post, k),
        forall|k2: K| k2 != k ==> has_key(post, k2) == has_key(pre, k2),
        forall|k2: K| k2 != k && has_key(pre, k2) ==> value_of(post, k2) == value_of(pre, k2),
{
    pre.remove_ensures(i);
    assert forall|a: int, b: int|
        0 <= a < post.len() && 0 <= b < post.len() && a != b implies (#[trigger] post[a]).0 != (
    #[trigger] post[b]).0 by {
        let a0 = if a < i { a } else { a + 1 };
        let b0 = if b < i { b } else { b + 1 };
        assert(post[a] == pre[a0]);
        assert(post[b] == pre[b0]);
        assert(pre[a0].0 != pre[b0].0);
    }
    assert forall|m: int| 0 <= m < post.len() implies (#[trigger] post[m]).0 != k by {
        let m0 = if m < i { m } else { m + 1 };
        assert(post[m] == pre[m0]);
        assert(m0 != i);
        assert(pre[m0].0 != pre[i].0);
    }
    assert forall|k2: K| k2 != k implies has_key(post, k2) == has_key(pre, k2) by {
        if has_key(pre, k2) {
            let m = choose|m: int| 0 <= m < pre.len() && (#[trigger] pre[m]).0 == k2;
            assert(m != i);
            let m1 = if m < i { m } else { m - 1 };
            assert(post[m1] == pre[m]);
            assert(has_key(post, k2));
        }
        if has_key(post, k2) {
            let m = choose|m: int| 0 <= m < post.len() && (#[trigger] post[m]).0 == k2;
            let m0 = if m < i { m } else { m + 1 };
            assert(pre[m0] == post[m]);
            assert(has_key(pre, k2));
        }
    }
    assert forall|k2: K| k2 != k && has_key(pre, k2) implies value_of(post, k2) == value_of(
        pre,
        k2,
    ) by {
        let a = choose|m: int| 0 <= m < pre.len() && (#[trigger] pre[m]).0 == k2;
        lemma_key_at(pre, a);
        assert(a != i);
        let a1 = if a < i { a } else { a - 1 };
        assert(post[a1] == pre[a]);
        lemma_key_at(post, a1);
    }
}

} // verus!
