use vstd::prelude::*;

use crate::config::Config;
use crate::history::{add_post, kept_count, prepend_keep, should_accept, HistoryManager};
use crate::model::{
    ids_distinct, row_of, rows_match, sorted_desc, strictly_sorted_desc, ItemModel, RowModel,
};
use crate::store::{recent_rows, StoreError};

verus! {

broadcast use vstd::set::group_set_axioms, vstd::map::group_map_axioms;

/// Law (capacity): any `add_item` call that does not end in a store error
/// keeps a cache that was within capacity within capacity, and a well-formed
/// outcome stores exactly the cached entries under their identifiers.
pub proof fn lemma_capacity_invariant(
    pre: HistoryManager,
    post: HistoryManager,
    content: Seq<char>,
    config: Config,
    r: Result<bool, StoreError>,
)
    requires
        config.valid(),
        post.wf(),
        pre.entries().len() <= config.max_items,
        add_post(
            pre.entries(),
            pre.store_rows(),
            post.entries(),
            post.store_rows(),
            content,
            config,
            r,
        ),
        !(r is Err),
    ensures
        post.entries().len() <= config.max_items,
        rows_match(post.entries(), post.store_rows()),
{
}

/// Law (consecutive dedup): after an accepted capture of some text, another
/// `add_item` of the same text is a pure skip: it stores nothing and changes
/// nothing, so the text stands in the history exactly once for the pair of
/// calls.
pub proof fn lemma_consecutive_dedup(
    s0: HistoryManager,
    s1: HistoryManager,
    s2: HistoryManager,
    x: Seq<char>,
    config: Config,
    r2: Result<bool, StoreError>,
)
    requires
        config.valid(),
        add_post(
            s0.entries(),
            s0.store_rows(),
            s1.entries(),
            s1.store_rows(),
            x,
            config,
            Ok(true),
        ),
        add_post(s1.entries(), s1.store_rows(), s2.entries(), s2.store_rows(), x, config, r2),
    ensures
        r2 matches Ok(accepted) && !accepted,
        s2.entries() == s1.entries(),
        s2.store_rows() == s1.store_rows(),
{
    assert(s1.entries()[0].content == x);
    assert(!should_accept(s1.entries(), x, config));
}

/// Law (policy-skip purity): while capture is disabled, an `add_item` call
/// reports a skip and leaves the cache and the stored rows exactly as they
/// were; so any number of such calls leaves both unchanged.
pub proof fn lemma_policy_skip(
    pre: HistoryManager,
    post: HistoryManager,
    content: Seq<char>,
    config: Config,
    r: Result<bool, StoreError>,
)
    requires
        !config.enabled,
        add_post(
            pre.entries(),
            pre.store_rows(),
            post.entries(),
            post.store_rows(),
            content,
            config,
            r,
        ),
    ensures
        r matches Ok(accepted) && !accepted,
        post.entries() == pre.entries(),
        post.store_rows() == pre.store_rows(),
{
}

/// Law (order): a well-formed history lists its entries in non-increasing
/// capture-time order, most recent first.
pub proof fn lemma_order_invariant(m: HistoryManager)
    requires
        m.wf(),
    ensures
        sorted_desc(m.entries()),
{
}

proof fn lemma_prepend_keep_strict(
    pre: Seq<ItemModel>,
    post: Seq<ItemModel>,
    content: Seq<char>,
    kept: int,
)
    requires
        strictly_sorted_desc(pre),
        pre.len() > 0 ==> pre[0].captured_at < i64::MAX,
        prepend_keep(pre, post, content, kept),
    ensures
        strictly_sorted_desc(post),
{
    assert forall|i: int, j: int|
        0 <= i < j < post.len() implies post[i].captured_at > post[j].captured_at by {
        assert(post[j] == pre.subrange(0, kept)[j - 1]);
        assert(post[j] == pre[j - 1]);
        if i > 0 {
            assert(post[i] == pre.subrange(0, kept)[i - 1]);
            assert(post[i] == pre[i - 1]);
        } else {
            assert(post[0].captured_at > pre[0].captured_at);
            assert(pre[0].captured_at >= pre[j - 1].captured_at);
        }
    };
}

/// Law (strict order): `add_item` keeps strictly decreasing capture times
/// strictly decreasing, as long as the most recent entry sits below the
/// greatest representable time.
pub proof fn lemma_strict_order_preserved(
    pre: HistoryManager,
    post: HistoryManager,
    content: Seq<char>,
    config: Config,
    r: Result<bool, StoreError>,
)
    requires
        config.valid(),
        strictly_sorted_desc(pre.entries()),
        pre.entries().len() > 0 ==> pre.entries()[0].captured_at < i64::MAX,
        add_post(
            pre.entries(),
            pre.store_rows(),
            post.entries(),
            post.store_rows(),
            content,
            config,
            r,
        ),
    ensures
        strictly_sorted_desc(post.entries()),
{
    match r {
        Ok(accepted) => {
            if accepted {
                lemma_prepend_keep_strict(
                    pre.entries(),
                    post.entries(),
                    content,
                    kept_count(pre.entries().len() as int, config.max_items as int),
                );
            }
        },
        Err(_) => {
            if post.entries() != pre.entries() || post.store_rows() != pre.store_rows() {
                let kept = choose|kept: int|
                    kept_count(pre.entries().len() as int, config.max_items as int) <= kept
                        <= pre.entries().len() && #[trigger] prepend_keep(
                        pre.entries(),
                        post.entries(),
                        content,
                        kept,
                    );
                lemma_prepend_keep_strict(pre.entries(), post.entries(), content, kept);
            }
        },
    }
}

/// Law (crash consistency): the rows that a well-formed history with
/// strictly decreasing capture times has persisted determine the rehydrated
/// cache exactly: any recency-ordered reload whose limit is at least the
/// cache's length reproduces the entries, content and order alike.
pub proof fn lemma_crash_consistency(
    cache: Seq<ItemModel>,
    rows: Map<Seq<char>, RowModel>,
    limit: int,
    loaded: Seq<ItemModel>,
)
    requires
        rows_match(cache, rows),
        strictly_sorted_desc(cache),
        ids_distinct(cache),
        cache.len() <= limit,
        recent_rows(rows, limit, loaded),
    ensures
        loaded == cache,
    decreases cache.len(),
{
    assert(rows.dom().len() == cache.len());
    assert(loaded.len() == cache.len());
    if cache.len() == 0 {
        assert(loaded =~~= cache);
    } else {
        let n = cache.len() as int;
        assert(rows.contains_key(loaded[0].id));
        let i0 = choose|i: int| 0 <= i < cache.len() && cache[i].id == loaded[0].id;
        assert(rows[loaded[0].id] == row_of(loaded[0]));
        assert(rows[cache[i0].id] == row_of(cache[i0]));
        assert(loaded[0].content == cache[i0].content);
        assert(loaded[0].captured_at == cache[i0].captured_at);
        assert(rows.contains_key(cache[0].id));
        let j0 = choose|j: int| 0 <= j < loaded.len() && loaded[j].id == cache[0].id;
        assert(rows[loaded[j0].id] == row_of(loaded[j0]));
        assert(loaded[j0].captured_at == cache[0].captured_at);
        assert(loaded[0].captured_at >= loaded[j0].captured_at);
        assert(cache[0].captured_at >= cache[i0].captured_at);
        assert(cache[i0].captured_at == cache[0].captured_at);
        assert(i0 == 0);
        assert(loaded[0] =~~= cache[0]);
        let cache1 = cache.drop_first();
        let loaded1 = loaded.drop_first();
        let rows1 = rows.remove(cache[0].id);
        assert forall|i: int|
            0 <= i < cache1.len() implies rows1.contains_key(#[trigger] cache1[i].id)
            && rows1[cache1[i].id] == row_of(cache1[i]) by {
            assert(cache1[i] == cache[i + 1]);
            assert(cache[i + 1].id != cache[0].id);
        };
        assert forall|k: Seq<char>| #[trigger]
            rows1.contains_key(k) implies exists|i: int|
            0 <= i < cache1.len() && cache1[i].id == k by {
            assert(rows.contains_key(k));
            let i = choose|i: int| 0 <= i < cache.len() && cache[i].id == k;
            assert(i != 0);
            assert(cache1[i - 1].id == k);
        };
        assert(rows1.dom() =~= rows.dom().remove(cache[0].id));
        assert(rows1.dom().len() == cache1.len());
        assert(rows_match(cache1, rows1));
        assert forall|i: int, j: int|
            0 <= i < j < cache1.len() implies cache1[i].captured_at > cache1[j].captured_at by {
            assert(cache1[i] == cache[i + 1]);
            assert(cache1[j] == cache[j + 1]);
        };
        assert forall|i: int, j: int| 0 <= i < j < cache1.len() implies cache1[i].id
            != cache1[j].id by {
            assert(cache1[i] == cache[i + 1]);
            assert(cache1[j] == cache[j + 1]);
        };
        assert forall|i: int, j: int| 0 <= i < j < loaded1.len() implies loaded1[i].id
            != loaded1[j].id by {
            assert(loaded1[i] == loaded[i + 1]);
            assert(loaded1[j] == loaded[j + 1]);
        };
        assert forall|i: int, j: int|
            0 <= i <= j < loaded1.len() implies loaded1[i].captured_at
            >= loaded1[j].captured_at by {
            assert(loaded1[i] == loaded[i + 1]);
            assert(loaded1[j] == loaded[j + 1]);
        };
        assert forall|i: int|
            0 <= i < loaded1.len() implies rows1.contains_key(#[trigger] loaded1[i].id)
            && rows1[loaded1[i].id] == row_of(loaded1[i]) by {
            assert(loaded1[i] == loaded[i + 1]);
            assert(loaded[i + 1].id != loaded[0].id);
            assert(loaded[0].id == cache[0].id);
        };
        assert forall|k: Seq<char>| #[trigger]
            rows1.contains_key(k) implies exists|i: int|
            0 <= i < loaded1.len() && loaded1[i].id == k by {
            assert(rows.contains_key(k));
            let i = choose|i: int| 0 <= i < loaded.len() && loaded[i].id == k;
            assert(i != 0);
            assert(loaded1[i - 1].id == k);
        };
        assert(recent_rows(rows1, limit - 1, loaded1));
        lemma_crash_consistency(cache1, rows1, limit - 1, loaded1);
        assert forall|i: int| 0 <= i < loaded.len() implies loaded[i] == cache[i] by {
            if i > 0 {
                assert(loaded1[i - 1] == cache1[i - 1]);
                assert(loaded[i] == loaded1[i - 1]);
                assert(cache[i] == cache1[i - 1]);
            }
        };
        assert(loaded =~~= cache);
    }
}

} // verus!
