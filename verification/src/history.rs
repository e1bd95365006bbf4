use std::collections::VecDeque;
use vstd::prelude::*;

use crate::config::Config;
use crate::model::{ids_distinct, row_of, rows_match, sorted_desc, ItemModel, RowModel};
use crate::store::{
    models, recent_rows, store_create_table, store_delete, store_delete_all, store_insert,
    store_load_recent, table_rows, StoreError,
};
use crate::text::{blank, is_blank, query_matches, entry_matches};

verus! {

broadcast use vstd::set::group_set_axioms, vstd::map::group_map_axioms;

/// One captured clipboard snapshot: an identifier given at creation, the
/// text, and the capture time in milliseconds.
#[derive(Debug)]
pub struct ClipboardItem {
    pub id: String,
    pub content: String,
    pub timestamp: i64,
}

impl View for ClipboardItem {
    type V = ItemModel;

    open spec fn view(&self) -> ItemModel {
        ItemModel { id: self.id@, content: self.content@, captured_at: self.timestamp as int }
    }
}

impl Clone for ClipboardItem {
    fn clone(&self) -> (r: ClipboardItem)
        ensures
            r@ == self@,
    {
        ClipboardItem {
            id: self.id.clone(),
            content: self.content.clone(),
            timestamp: self.timestamp,
        }
    }
}

/// Relies on `uuid::Uuid::new_v4` and its hyphenated text form: a random
/// identifier, 36 characters long; nothing more is assumed of it.
#[verifier::external_body]
fn fresh_id() -> (r: String)
    ensures
        r@.len() == 36,
{
    uuid::Uuid::new_v4().to_string()
}

/// Relies on `chrono::Utc::now`: the clock's reading in milliseconds, with no
/// assumption about its value.
#[verifier::external_body]
fn now_millis() -> i64 {
    chrono::Utc::now().timestamp_millis()
}

impl ClipboardItem {
    /// A fresh entry for the given text, stamped with the current time.
    pub fn new(content: String) -> (item: ClipboardItem)
        ensures
            item@.content == content@,
            item@.id.len() == 36,
    {
        ClipboardItem { id: fresh_id(), content, timestamp: now_millis() }
    }
}

/// The policy decision of `add_item`: a capture is taken exactly when capture
/// is enabled, the text does not trim to nothing, and it differs from the
/// most recent entry.
pub open spec fn should_accept(pre: Seq<ItemModel>, content: Seq<char>, config: Config) -> bool {
    &&& config.enabled
    &&& !blank(content)
    &&& (pre.len() == 0 || pre[0].content != content)
}

/// How many old entries survive an accepted insertion at capacity
/// `max_items`: all of them if they fit beside the new entry, else the
/// `max_items - 1` most recent.
pub open spec fn kept_count(pre_len: int, max_items: int) -> int {
    if pre_len <= max_items - 1 {
        pre_len
    } else {
        max_items - 1
    }
}

/// An accepted insertion, shaped: a new entry with the given content stands
/// in front, the `kept` most recent old entries follow unchanged, and the
/// capture time did not go backwards (strictly forwards unless the front
/// already sat at the greatest representable time).
pub open spec fn prepend_keep(
    pre: Seq<ItemModel>,
    post: Seq<ItemModel>,
    content: Seq<char>,
    kept: int,
) -> bool {
    &&& 0 <= kept <= pre.len()
    &&& post.len() == kept + 1
    &&& post[0].content == content
    &&& post.subrange(1, post.len() as int) == pre.subrange(0, kept)
    &&& (pre.len() > 0 ==> post[0].captured_at >= pre[0].captured_at)
    &&& (pre.len() > 0 && pre[0].captured_at < i64::MAX ==> post[0].captured_at
        > pre[0].captured_at)
}

/// Everything one `add_item` call may do to the cache and the stored rows,
/// by result: `Ok(true)` is an accepted insertion with eviction down to
/// capacity; `Ok(false)` is a policy skip that changes nothing; an error
/// happens only on a capture the policy accepted, and leaves either nothing
/// changed (the insertion failed) or an insertion with eviction cut short
/// (a deletion failed).
pub open spec fn add_post(
    pre_items: Seq<ItemModel>,
    pre_rows: Map<Seq<char>, RowModel>,
    post_items: Seq<ItemModel>,
    post_rows: Map<Seq<char>, RowModel>,
    content: Seq<char>,
    config: Config,
    r: Result<bool, StoreError>,
) -> bool {
    match r {
        Ok(accepted) => if accepted {
            &&& should_accept(pre_items, content, config)
            &&& prepend_keep(
                pre_items,
                post_items,
                content,
                kept_count(pre_items.len() as int, config.max_items as int),
            )
        } else {
            &&& !should_accept(pre_items, content, config)
            &&& post_items == pre_items
            &&& post_rows == pre_rows
        },
        Err(e) => {
            &&& e == StoreError::WriteFailed
            &&& should_accept(pre_items, content, config)
            &&& ((post_items == pre_items && post_rows == pre_rows) || exists|kept: int|
                kept_count(pre_items.len() as int, config.max_items as int) <= kept
                    <= pre_items.len() && #[trigger] prepend_keep(
                    pre_items,
                    post_items,
                    content,
                    kept,
                ))
        },
    }
}

proof fn lemma_prefix_ordered(full: Seq<ItemModel>, s: Seq<ItemModel>, cur: int)
    requires
        0 <= cur <= full.len(),
        s == full.subrange(0, cur),
        ids_distinct(full),
        sorted_desc(full),
    ensures
        ids_distinct(s),
        sorted_desc(s),
{
    assert forall|i: int, j: int| 0 <= i < j < s.len() implies s[i].id != s[j].id by {
        assert(s[i] == full[i]);
        assert(s[j] == full[j]);
    };
    assert forall|i: int, j: int|
        0 <= i <= j < s.len() implies s[i].captured_at >= s[j].captured_at by {
        assert(s[i] == full[i]);
        assert(s[j] == full[j]);
    };
}

/// The single owner of the clipboard history: an in-memory cache of entries,
/// most recent first, kept in step with the durable rows behind the
/// connection.
pub struct HistoryManager {
    items: VecDeque<ClipboardItem>,
    db: rusqlite::Connection,
}

impl HistoryManager {
    /// The cached entries, most recent first.
    pub closed spec fn entries(self) -> Seq<ItemModel> {
        models(self.items@)
    }

    /// The durable rows behind this manager's connection.
    pub closed spec fn store_rows(self) -> Map<Seq<char>, RowModel> {
        table_rows(self.db)
    }

    /// The manager's invariant: identifiers are unique, entries run most
    /// recent first, and the durable rows are exactly the cached entries.
    pub open spec fn wf(self) -> bool {
        &&& ids_distinct(self.entries())
        &&& sorted_desc(self.entries())
        &&& rows_match(self.entries(), self.store_rows())
    }

    /// Opens the history over a connection: brings the schema up if it is
    /// absent and rehydrates the cache with the most recent rows, up to
    /// `max_items` of them. When the whole table fits under the capacity the
    /// manager is well formed and carries exactly the stored rows.
    #[verifier::loop_isolation(false)]
    pub fn new(mut db: rusqlite::Connection, config: &Config) -> (r: Result<
        HistoryManager,
        StoreError,
    >)
        requires
            config.valid(),
            config.max_items <= i64::MAX,
        ensures
            r matches Ok(m) ==> ({
                &&& m.store_rows() == table_rows(db)
                &&& m.store_rows().dom().finite()
                &&& recent_rows(m.store_rows(), config.max_items as int, m.entries())
                &&& (m.store_rows().dom().len() <= config.max_items ==> m.wf())
                &&& m.entries().len() <= config.max_items
            }),
    {
        match store_create_table(&mut db) {
            Ok(()) => {},
            Err(_) => {
                return Err(StoreError::Unavailable);
            },
        }
        let loaded = match store_load_recent(&db, config.max_items) {
            Ok(v) => v,
            Err(_) => {
                return Err(StoreError::Unavailable);
            },
        };
        let mut items: VecDeque<ClipboardItem> = VecDeque::new();
        let n = loaded.len();
        let mut i: usize = 0;
        proof {
            assert(models(items@) =~~= models(loaded@).subrange(0, 0));
        }
        while i < n
            invariant
                n == loaded@.len(),
                i <= n,
                models(items@) == models(loaded@).subrange(0, i as int),
            decreases n - i,
        {
            items.push_back(loaded[i].clone());
            proof {
                let a = models(items@);
                let b = models(loaded@).subrange(0, i + 1);
                assert(a.len() == b.len());
                assert forall|j: int| 0 <= j < a.len() implies a[j] == b[j] by {
                    if j < i {
                        assert(a[j] == models(loaded@).subrange(0, i as int)[j]);
                    } else {
                        assert(a[j] == items@[j]@);
                        assert(b[j] == loaded@[j]@);
                    }
                };
                assert(a =~~= b);
            }
            i += 1;
        }
        proof {
            assert(models(items@) =~~= models(loaded@));
        }
        let m = HistoryManager { items, db };
        Ok(m)
    }

    /// A read-only view of the cache, most recent first; it never touches
    /// the store.
    pub fn get_items(&self) -> (r: &VecDeque<ClipboardItem>)
        ensures
            models(r@) == self.entries(),
    {
        &self.items
    }

    /// Takes the manager apart and hands the connection back, for instance
    /// to reopen the same history later.
    pub fn into_store(self) -> (db: rusqlite::Connection)
        ensures
            table_rows(db) == self.store_rows(),
    {
        self.db
    }

    /// Records a capture. Policy skips (capture disabled, blank text, text
    /// equal to the most recent entry) return `Ok(false)` and change
    /// nothing. An accepted capture is written durably, put in front of the
    /// cache, and the oldest entries are evicted from cache and store until
    /// the cache fits `max_items`; only then is `Ok(true)` returned. A store
    /// failure returns an error and never leaves cache and store out of
    /// step.
    #[verifier::loop_isolation(false)]
    #[verifier::rlimit(100)]
    pub fn add_item(&mut self, content: String, config: &Config) -> (r: Result<bool, StoreError>)
        requires
            old(self).wf(),
            config.valid(),
        ensures
            final(self).wf(),
            add_post(
                old(self).entries(),
                old(self).store_rows(),
                final(self).entries(),
                final(self).store_rows(),
                content@,
                *config,
                r,
            ),
    {
        if !config.enabled {
            return Ok(false);
        }
        if is_blank(content.as_str()) {
            return Ok(false);
        }
        if self.items.len() > 0 {
            if self.items[0].content == content {
                return Ok(false);
            }
        }
        let mut item = ClipboardItem::new(content);
        if self.items.len() > 0 {
            let front_ts = self.items[0].timestamp;
            if item.timestamp <= front_ts {
                item.timestamp = if front_ts < i64::MAX {
                    front_ts + 1
                } else {
                    front_ts
                };
            }
        }
        let ghost pre = old(self).entries();
        let ghost rows0 = old(self).store_rows();
        match store_insert(&mut self.db, item.id.as_str(), item.content.as_str(), item.timestamp) {
            Ok(()) => {},
            Err(_) => {
                return Err(StoreError::WriteFailed);
            },
        }
        let ghost m_new = item@;
        let ghost full = seq![m_new] + pre;
        self.items.push_front(item);
        proof {
            assert(models(self.items@) =~~= full);
            assert forall|i: int, j: int|
                0 <= i <= j < full.len() implies full[i].captured_at >= full[j].captured_at by {
                if 0 < i {
                    assert(full[i] == pre[i - 1]);
                }
                if 0 < j {
                    assert(full[j] == pre[j - 1]);
                    assert(pre[0].captured_at >= pre[j - 1].captured_at);
                }
            };
            assert(sorted_desc(full));
            assert forall|i: int, j: int| 0 <= i < j < full.len() implies full[i].id
                != full[j].id by {
                if 0 < i {
                    assert(full[i] == pre[i - 1]);
                }
                assert(full[j] == pre[j - 1]);
                assert(rows0.contains_key(pre[j - 1].id));
            };
            assert(ids_distinct(full));
            let rows1 = table_rows(self.db);
            assert forall|i: int|
                0 <= i < full.len() implies rows1.contains_key(#[trigger] full[i].id)
                && rows1[full[i].id] == row_of(full[i]) by {
                if 0 < i {
                    assert(full[i] == pre[i - 1]);
                    assert(rows0.contains_key(pre[i - 1].id) && rows0[pre[i - 1].id] == row_of(
                        pre[i - 1],
                    ));
                    assert(pre[i - 1].id != m_new.id);
                }
            };
            assert forall|k: Seq<char>| #[trigger]
                rows1.contains_key(k) implies exists|i: int|
                0 <= i < full.len() && full[i].id == k by {
                if k == m_new.id {
                    assert(full[0].id == k);
                } else {
                    assert(rows0.contains_key(k));
                    let i0 = choose|i: int| 0 <= i < pre.len() && pre[i].id == k;
                    assert(full[i0 + 1].id == k);
                }
            };
            assert(rows1.dom() =~= rows0.dom().insert(m_new.id));
            assert(rows1.dom().len() == full.len());
            assert(rows_match(full, rows1));
        }
        while self.items.len() > config.max_items
            invariant
                config.valid(),
                full.len() == pre.len() + 1,
                full[0].content == content@,
                pre.len() > 0 ==> full[0].captured_at >= pre[0].captured_at,
                pre.len() > 0 && pre[0].captured_at < i64::MAX ==> full[0].captured_at
                    > pre[0].captured_at,
                full.subrange(1, full.len() as int) == pre,
                ids_distinct(full),
                sorted_desc(full),
                1 <= self.items@.len() <= full.len(),
                kept_count(pre.len() as int, config.max_items as int) + 1 <= self.items@.len(),
                models(self.items@) == full.subrange(0, self.items@.len() as int),
                rows_match(models(self.items@), table_rows(self.db)),
            decreases self.items@.len(),
        {
            let ghost cur0 = self.items@.len() as int;
            let ghost s0 = models(self.items@);
            let ghost rows_b = table_rows(self.db);
            let last = self.items.len() - 1;
            let oldest_id = self.items[last].id.clone();
            proof {
                assert(s0[cur0 - 1] == full[cur0 - 1]);
                assert(oldest_id@ == full[cur0 - 1].id);
            }
            match store_delete(&mut self.db, oldest_id.as_str()) {
                Ok(()) => {},
                Err(_) => {
                    proof {
                        assert(full.subrange(0, cur0).subrange(1, cur0) =~~= pre.subrange(
                            0,
                            cur0 - 1,
                        ));
                        assert(prepend_keep(pre, models(self.items@), content@, cur0 - 1));
                        lemma_prefix_ordered(full, models(self.items@), cur0);
                    }
                    return Err(StoreError::WriteFailed);
                },
            }
            self.items.pop_back();
            proof {
                let s1 = models(self.items@);
                let rows_a = table_rows(self.db);
                assert(s1 =~~= full.subrange(0, cur0 - 1));
                assert(rows_a == rows_b.remove(full[cur0 - 1].id));
                assert forall|i: int|
                    0 <= i < s1.len() implies rows_a.contains_key(#[trigger] s1[i].id)
                    && rows_a[s1[i].id] == row_of(s1[i]) by {
                    assert(s1[i] == full[i]);
                    assert(s0[i] == full[i]);
                    assert(rows_b.contains_key(full[i].id) && rows_b[full[i].id] == row_of(
                        full[i],
                    ));
                    assert(full[i].id != full[cur0 - 1].id);
                };
                assert forall|k: Seq<char>| #[trigger]
                    rows_a.contains_key(k) implies exists|i: int|
                    0 <= i < s1.len() && s1[i].id == k by {
                    assert(rows_b.contains_key(k));
                    let i0 = choose|i: int| 0 <= i < s0.len() && s0[i].id == k;
                    assert(full[i0].id == k);
                    assert(i0 != cur0 - 1);
                    assert(s1[i0].id == k);
                };
                assert(rows_a.dom() =~= rows_b.dom().remove(full[cur0 - 1].id));
                assert(rows_a.dom().len() == s1.len());
                assert(rows_match(s1, rows_a));
            }
        }
        proof {
            let cur = self.items@.len() as int;
            let kept = kept_count(pre.len() as int, config.max_items as int);
            assert(cur == kept + 1);
            assert(full.subrange(0, cur).subrange(1, cur) =~~= pre.subrange(0, cur - 1));
            assert(prepend_keep(pre, models(self.items@), content@, kept));
            lemma_prefix_ordered(full, models(self.items@), cur);
        }
        Ok(true)
    }

    /// The entries whose content matches the query, case-insensitively, in
    /// their cached order; an empty query keeps every entry.
    #[verifier::loop_isolation(false)]
    pub fn search(&self, query: &str) -> (r: Vec<ClipboardItem>)
        ensures
            models(r@) == self.entries().filter(
                |m: ItemModel| query_matches(m.content, query@),
            ),
    {
        let ghost pred = |m: ItemModel| query_matches(m.content, query@);
        let mut out: Vec<ClipboardItem> = Vec::new();
        let n = self.items.len();
        let mut i: usize = 0;
        while i < n
            invariant
                n == self.items@.len(),
                i <= n,
                models(out@) == models(self.items@).subrange(0, i as int).filter(pred),
            decreases n - i,
        {
            let hit = entry_matches(self.items[i].content.as_str(), query);
            if hit {
                out.push(self.items[i].clone());
                proof {
                    let s = models(self.items@);
                    assert(models(out@) =~~= s.subrange(0, i as int).filter(pred).push(
                        s[i as int],
                    ));
                }
            }
            proof {
                let s = models(self.items@);
                let t = s.subrange(0, i + 1);
                reveal_with_fuel(Seq::<_>::filter, 2);
                assert(t.drop_last() =~~= s.subrange(0, i as int));
                assert(t.last() == s[i as int]);
                assert(s[i as int] == self.items@[i as int]@);
                assert(hit == pred(s[i as int]));
                if pred(s[i as int]) {
                    assert(t.filter(pred) == t.drop_last().filter(pred).push(t.last()));
                } else {
                    assert(t.filter(pred) == t.drop_last().filter(pred));
                }
            }
            i += 1;
        }
        proof {
            assert(models(self.items@).subrange(0, n as int) =~~= models(self.items@));
        }
        out
    }

    /// Destroys every entry: the durable rows first, then the cache, so that
    /// a failure leaves both untouched and in step.
    pub fn clear_all(&mut self) -> (r: Result<(), StoreError>)
        requires
            old(self).wf(),
        ensures
            final(self).wf(),
            r is Ok ==> final(self).entries().len() == 0 && final(self).store_rows()
                == crate::model::no_rows(),
            r is Err ==> final(self).entries() == old(self).entries() && final(self).store_rows()
                == old(self).store_rows(),
    {
        match store_delete_all(&mut self.db) {
            Ok(()) => {
                self.items.clear();
                proof {
                    assert(models(self.items@) =~= Seq::<ItemModel>::empty());
                }
                Ok(())
            },
            Err(_) => Err(StoreError::WriteFailed),
        }
    }
}

} // verus!
