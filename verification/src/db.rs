//! The append-only clipboard history store with point lookup, recency
//! listing, substring search and time-range filtering.

use vstd::prelude::*;
use crate::models::{ClipboardItemRow, NewClipboardItem, NewRecordModel, RecordModel, record_of, opt_int_view};

verus! {

/// The models of a sequence of stored rows.
pub open spec fn row_models(s: Seq<ClipboardItemRow>) -> Seq<RecordModel> {
    s.map_values(|r: ClipboardItemRow| r@)
}

/// Why an insert was refused.
#[derive(Clone, Copy, Debug, PartialEq, Eq, Structural)]
pub enum StoreError {
    /// Every id has been handed out.
    Full,
}

/// The in-memory history: an append-only sequence of records with ids
/// assigned in insertion order, starting at 1.
pub struct HistoryStore {
    items: Vec<ClipboardItemRow>,
    next_id: i64,
}

impl View for HistoryStore {
    type V = Seq<RecordModel>;

    closed spec fn view(&self) -> Seq<RecordModel> {
        row_models(self.items@)
    }
}

impl HistoryStore {
    /// The store's invariant: ids are the positions shifted by one, and
    /// the next id follows the last.
    pub closed spec fn wf(&self) -> bool {
        &&& self.next_id as int == self@.len() + 1
        &&& self@.len() + 1 <= i64::MAX
        &&& forall|i: int| 0 <= i < self@.len() ==> (#[trigger] self@[i]).id == i + 1
    }

    /// An empty history.
    pub fn new() -> (s: HistoryStore)
        ensures
            s.wf(),
            s@ == Seq::<RecordModel>::empty(),
    {
        let s = HistoryStore { items: Vec::new(), next_id: 1 };
        proof {
            assert(s@ =~= Seq::<RecordModel>::empty());
        }
        s
    }

    /// Append one record. The new record carries the next free id and the
    /// fields of `item`, unchanged; the insert is refused only when every
    /// id has been handed out.
    pub fn insert_item(&mut self, item: NewClipboardItem) -> (r: Result<i64, StoreError>)
        requires
            old(self).wf(),
        ensures
            final(self).wf(),
            match r {
                Ok(id) => {
                    &&& id as int == old(self)@.len() + 1
                    &&& final(self)@ == old(self)@.push(record_of(item@, id as int))
                },
                Err(e) => {
                    &&& e == StoreError::Full
                    &&& old(self)@.len() + 1 == i64::MAX
                    &&& final(self)@ == old(self)@
                },
            },
    {
        if self.next_id == i64::MAX {
            return Err(StoreError::Full);
        }
        let id: i64 = self.next_id;
        let row = ClipboardItemRow {
            id,
            format: item.format,
            category: item.category,
            text: item.text,
            html: item.html,
            file_path: item.file_path,
            color: item.color,
            image: item.image,
            image_width: item.image_width,
            image_height: item.image_height,
            created_at: item.created_at,
        };
        let ghost old_models = self@;
        self.items.push(row);
        self.next_id = id + 1;
        proof {
            assert(self@ =~= old_models.push(record_of(item@, id as int)));
        }
        Ok(id)
    }

    /// The number of stored records.
    pub fn len(&self) -> (n: usize)
        ensures
            n == self@.len(),
    {
        self.items.len()
    }

    /// Point lookup: the record whose id is `id`, or `None` when no such
    /// record exists.
    pub fn get_item(&self, id: i64) -> (r: Option<ClipboardItemRow>)
        requires
            self.wf(),
        ensures
            match r {
                Some(row) => 1 <= id as int <= self@.len() && row@ == self@[id as int - 1],
                None => !(1 <= id as int <= self@.len()),
            },
    {
        if id < 1 {
            return None;
        }
        let n: usize = self.items.len();
        if id > n as i64 {
            return None;
        }
        let idx: usize = (id - 1) as usize;
        Some(self.items[idx].duplicate())
    }
}

/// `needle` occurs in `hay` as a contiguous run of characters.
pub open spec fn contains_spec(hay: Seq<char>, needle: Seq<char>) -> bool {
    exists|i: int|
        0 <= i <= hay.len() - needle.len() && #[trigger] hay.subrange(i, i + needle.len())
            == needle
}

/// The query `q` matches a record when some present text-like field
/// (text, html, file path or color) contains it.
pub open spec fn matches_query(m: RecordModel, q: Seq<char>) -> bool {
    ||| (m.text is Some && contains_spec(m.text->0, q))
    ||| (m.html is Some && contains_spec(m.html->0, q))
    ||| (m.file_path is Some && contains_spec(m.file_path->0, q))
    ||| (m.color is Some && contains_spec(m.color->0, q))
}

/// The record passes the optional substring and time-range filters.
pub open spec fn matches_filter(
    m: RecordModel,
    q: Option<Seq<char>>,
    start: Option<int>,
    end: Option<int>,
) -> bool {
    &&& match q {
        Some(qs) => matches_query(m, qs),
        None => true,
    }
    &&& match start {
        Some(s) => m.created_at >= s,
        None => true,
    }
    &&& match end {
        Some(e) => m.created_at <= e,
        None => true,
    }
}

pub open spec fn opt_strref_view(o: Option<&str>) -> Option<Seq<char>> {
    match o {
        Some(s) => Some(s@),
        None => None,
    }
}

/// The records of `s` from position `i` on that pass the filters, in
/// their stored order.
pub open spec fn matching_from(
    s: Seq<RecordModel>,
    q: Option<Seq<char>>,
    start: Option<int>,
    end: Option<int>,
    i: int,
) -> Seq<RecordModel>
    decreases s.len() - i,
{
    if i < 0 || i >= s.len() {
        Seq::empty()
    } else if matches_filter(s[i], q, start, end) {
        seq![s[i]] + matching_from(s, q, start, end, i + 1)
    } else {
        matching_from(s, q, start, end, i + 1)
    }
}

/// The records of `s` that pass the filters, in their stored order.
pub open spec fn matching(
    s: Seq<RecordModel>,
    q: Option<Seq<char>>,
    start: Option<int>,
    end: Option<int>,
) -> Seq<RecordModel> {
    matching_from(s, q, start, end, 0)
}

/// `a` is strictly newer than `b`: created later, or created at the same
/// time and inserted later.
pub open spec fn rec_gt(a: RecordModel, b: RecordModel) -> bool {
    a.created_at > b.created_at || (a.created_at == b.created_at && a.id > b.id)
}

/// `a` is at least as new as `b`.
pub open spec fn rec_ge(a: RecordModel, b: RecordModel) -> bool {
    a.created_at > b.created_at || (a.created_at == b.created_at && a.id >= b.id)
}

/// The sequence is ordered newest first.
pub open spec fn sorted_newest_first(s: Seq<RecordModel>) -> bool {
    forall|i: int, j: int| 0 <= i < j < s.len() ==> rec_ge(#[trigger] s[i], #[trigger] s[j])
}

/// `x` placed into `s` before the first element that is not strictly
/// newer than it.
pub open spec fn insert_newest(s: Seq<RecordModel>, x: RecordModel) -> Seq<RecordModel>
    decreases s.len(),
{
    if s.len() == 0 {
        seq![x]
    } else if rec_gt(s[0], x) {
        seq![s[0]] + insert_newest(s.drop_first(), x)
    } else {
        seq![x] + s
    }
}

/// `s` inserted element by element, left to right, into `acc`.
pub open spec fn sort_newest_from(acc: Seq<RecordModel>, s: Seq<RecordModel>) -> Seq<RecordModel>
    decreases s.len(),
{
    if s.len() == 0 {
        acc
    } else {
        sort_newest_from(insert_newest(acc, s[0]), s.drop_first())
    }
}

/// `s` sorted newest first by insertion sort.
pub open spec fn sort_newest(s: Seq<RecordModel>) -> Seq<RecordModel> {
    sort_newest_from(Seq::empty(), s)
}

/// What a query returns: the matching records, sorted newest first, cut
/// to at most `limit`.
pub open spec fn query_spec(
    s: Seq<RecordModel>,
    q: Option<Seq<char>>,
    start: Option<int>,
    end: Option<int>,
    limit: int,
) -> Seq<RecordModel> {
    let sorted = sort_newest(matching(s, q, start, end));
    if limit <= sorted.len() {
        sorted.take(limit)
    } else {
        sorted
    }
}

/// Round trip: a record inserted at the end under the next free id is
/// exactly what a later lookup of that id yields.
pub proof fn lemma_insert_then_get(pre: Seq<RecordModel>, n: NewRecordModel, id: int)
    requires
        id == pre.len() + 1,
    ensures
        ({
            let post = pre.push(record_of(n, id));
            1 <= id <= post.len() && post[id - 1] == record_of(n, id)
        }),
{
}

/// Every record among the matches passes the filters it was selected by.
pub proof fn lemma_matching_passes(
    s: Seq<RecordModel>,
    q: Option<Seq<char>>,
    start: Option<int>,
    end: Option<int>,
    i: int,
)
    ensures
        forall|k: int|
            0 <= k < matching_from(s, q, start, end, i).len() ==> matches_filter(
                #[trigger] matching_from(s, q, start, end, i)[k],
                q,
                start,
                end,
            ),
    decreases s.len() - i,
{
    if i < 0 || i >= s.len() {
    } else {
        lemma_matching_passes(s, q, start, end, i + 1);
        let rest = matching_from(s, q, start, end, i + 1);
        if matches_filter(s[i], q, start, end) {
            assert forall|k: int|
                0 <= k < matching_from(s, q, start, end, i).len() implies matches_filter(
                matching_from(s, q, start, end, i)[k],
                q,
                start,
                end,
            ) by {
                if k == 0 {
                    assert(matching_from(s, q, start, end, i)[0] == s[i]);
                } else {
                    assert(matching_from(s, q, start, end, i)[k] == rest[k - 1]);
                }
            }
        }
    }
}

/// Every record among the matches is one of the stored records.
pub proof fn lemma_matching_membership(
    s: Seq<RecordModel>,
    q: Option<Seq<char>>,
    start: Option<int>,
    end: Option<int>,
    i: int,
)
    ensures
        forall|k: int|
            0 <= k < matching_from(s, q, start, end, i).len() ==> exists|j: int|
                0 <= j < s.len() && #[trigger] matching_from(s, q, start, end, i)[k]
                    == #[trigger] s[j],
    decreases s.len() - i,
{
    if i < 0 || i >= s.len() {
    } else {
        lemma_matching_membership(s, q, start, end, i + 1);
        let rest = matching_from(s, q, start, end, i + 1);
        if matches_filter(s[i], q, start, end) {
            assert forall|k: int|
                #![trigger matching_from(s, q, start, end, i)[k]]
                0 <= k < matching_from(s, q, start, end, i).len() implies exists|j: int|
                0 <= j < s.len() && matching_from(s, q, start, end, i)[k] == #[trigger] s[j] by {
                if k == 0 {
                    assert(matching_from(s, q, start, end, i)[0] == s[i]);
                } else {
                    assert(matching_from(s, q, start, end, i)[k] == rest[k - 1]);
                }
            }
        }
    }
}

proof fn lemma_insert_newest_props(s: Seq<RecordModel>, x: RecordModel)
    ensures
        insert_newest(s, x).len() == s.len() + 1,
        insert_newest(s, x).to_multiset() == s.to_multiset().insert(x),
        sorted_newest_first(s) ==> sorted_newest_first(insert_newest(s, x)),
    decreases s.len(),
{
    broadcast use vstd::seq_lib::group_to_multiset_ensures;
    broadcast use vstd::multiset::group_multiset_axioms;

    let r = insert_newest(s, x);
    if s.len() == 0 {
        assert(s =~= Seq::<RecordModel>::empty());
        assert(r =~= s.push(x));
    } else if rec_gt(s[0], x) {
        let t = s.drop_first();
        lemma_insert_newest_props(t, x);
        let u = insert_newest(t, x);
        assert(r == seq![s[0]] + u);
        vstd::seq_lib::lemma_multiset_commutative(seq![s[0]], u);
        vstd::seq_lib::lemma_multiset_commutative(seq![s[0]], t);
        assert(s =~= seq![s[0]] + t);
        assert(r.to_multiset() =~= s.to_multiset().insert(x));
        if sorted_newest_first(s) {
            assert(sorted_newest_first(t)) by {
                assert forall|i: int, j: int| 0 <= i < j < t.len() implies rec_ge(
                    #[trigger] t[i],
                    #[trigger] t[j],
                ) by {
                    assert(t[i] == s[i + 1] && t[j] == s[j + 1]);
                }
            }
            assert forall|k: int| 0 <= k < u.len() implies rec_ge(s[0], #[trigger] u[k]) by {
                let e = u[k];
                assert(u.contains(e));
                assert(u.to_multiset().count(e) > 0);
                if e == x {
                    assert(rec_ge(s[0], e));
                } else {
                    vstd::multiset::lemma_insert_other_elements_unchanged(t.to_multiset(), x, e);
                    assert(t.to_multiset().count(e) > 0);
                    assert(t.contains(e));
                    let i = choose|i: int| 0 <= i < t.len() && t[i] == e;
                    assert(s[i + 1] == e);
                    assert(rec_ge(s[0], s[i + 1]));
                }
            }
            assert forall|i: int, j: int| 0 <= i < j < r.len() implies rec_ge(
                #[trigger] r[i],
                #[trigger] r[j],
            ) by {
                if i == 0 {
                    assert(r[j] == u[j - 1]);
                    assert(rec_ge(s[0], u[j - 1]));
                } else {
                    assert(r[i] == u[i - 1] && r[j] == u[j - 1]);
                }
            }
        }
    } else {
        assert(r == seq![x] + s);
        vstd::seq_lib::lemma_multiset_commutative(seq![x], s);
        assert(r.to_multiset() =~= s.to_multiset().insert(x));
        if sorted_newest_first(s) {
            assert(rec_ge(x, s[0]));
            assert forall|i: int, j: int| 0 <= i < j < r.len() implies rec_ge(
                #[trigger] r[i],
                #[trigger] r[j],
            ) by {
                if i == 0 {
                    assert(r[j] == s[j - 1]);
                    if j > 1 {
                        assert(rec_ge(s[0], s[j - 1]));
                    }
                } else {
                    assert(r[i] == s[i - 1] && r[j] == s[j - 1]);
                }
            }
        }
    }
}

proof fn lemma_sort_newest_from_props(acc: Seq<RecordModel>, s: Seq<RecordModel>)
    requires
        sorted_newest_first(acc),
    ensures
        sorted_newest_first(sort_newest_from(acc, s)),
        sort_newest_from(acc, s).to_multiset() == acc.to_multiset().add(s.to_multiset()),
    decreases s.len(),
{
    broadcast use vstd::seq_lib::group_to_multiset_ensures;
    broadcast use vstd::multiset::group_multiset_axioms;

    if s.len() == 0 {
        assert(s =~= Seq::<RecordModel>::empty());
        assert(sort_newest_from(acc, s).to_multiset() =~= acc.to_multiset().add(s.to_multiset()));
    } else {
        lemma_insert_newest_props(acc, s[0]);
        lemma_sort_newest_from_props(insert_newest(acc, s[0]), s.drop_first());
        assert(s =~= seq![s[0]] + s.drop_first());
        vstd::seq_lib::lemma_multiset_commutative(seq![s[0]], s.drop_first());
        assert(seq![s[0]] =~= Seq::<RecordModel>::empty().push(s[0]));
        assert(sort_newest_from(acc, s).to_multiset() =~= acc.to_multiset().add(s.to_multiset()));
    }
}

/// Sorting a selection of records reorders it newest first and neither
/// loses, duplicates nor invents a record.
pub proof fn lemma_sort_newest_props(s: Seq<RecordModel>)
    ensures
        sorted_newest_first(sort_newest(s)),
        sort_newest(s).to_multiset() == s.to_multiset(),
        sort_newest(s).len() == s.len(),
{
    broadcast use vstd::seq_lib::group_to_multiset_ensures;
    broadcast use vstd::multiset::group_multiset_axioms;

    lemma_sort_newest_from_props(Seq::empty(), s);
    assert(sort_newest(s).to_multiset() =~= s.to_multiset());
    assert(sort_newest(s).len() == sort_newest(s).to_multiset().len());
    assert(s.len() == s.to_multiset().len());
}

/// What any query returns is ordered newest first.
pub proof fn lemma_query_spec_sorted(
    s: Seq<RecordModel>,
    q: Option<Seq<char>>,
    start: Option<int>,
    end: Option<int>,
    limit: int,
)
    requires
        0 <= limit,
    ensures
        sorted_newest_first(query_spec(s, q, start, end, limit)),
{
    lemma_sort_newest_props(matching(s, q, start, end));
    let sorted = sort_newest(matching(s, q, start, end));
    let r = query_spec(s, q, start, end, limit);
    assert forall|i: int, j: int| 0 <= i < j < r.len() implies rec_ge(
        #[trigger] r[i],
        #[trigger] r[j],
    ) by {
        assert(r[i] == sorted[i] && r[j] == sorted[j]);
    }
}

/// A query returns every match up to its limit: as many records as there
/// are matches, cut to `limit`.
pub proof fn lemma_query_spec_len(
    s: Seq<RecordModel>,
    q: Option<Seq<char>>,
    start: Option<int>,
    end: Option<int>,
    limit: int,
)
    requires
        0 <= limit,
    ensures
        query_spec(s, q, start, end, limit).len() == if limit <= matching(s, q, start, end).len() {
            limit
        } else {
            matching(s, q, start, end).len() as int
        },
{
    lemma_sort_newest_props(matching(s, q, start, end));
}

/// A query invents nothing: every record it returns is a stored record
/// and passes the filters it was selected by.
pub proof fn lemma_query_spec_from_store(
    s: Seq<RecordModel>,
    q: Option<Seq<char>>,
    start: Option<int>,
    end: Option<int>,
    limit: int,
)
    requires
        0 <= limit,
    ensures
        forall|k: int|
            0 <= k < query_spec(s, q, start, end, limit).len() ==> matches_filter(
                #[trigger] query_spec(s, q, start, end, limit)[k],
                q,
                start,
                end,
            ),
        forall|k: int|
            0 <= k < query_spec(s, q, start, end, limit).len() ==> exists|j: int|
                0 <= j < s.len() && #[trigger] query_spec(s, q, start, end, limit)[k]
                    == #[trigger] s[j],
{
    broadcast use vstd::seq_lib::group_to_multiset_ensures;
    broadcast use vstd::multiset::group_multiset_axioms;

    let m = matching(s, q, start, end);
    lemma_sort_newest_props(m);
    lemma_matching_passes(s, q, start, end, 0);
    lemma_matching_membership(s, q, start, end, 0);
    let sorted = sort_newest(m);
    let r = query_spec(s, q, start, end, limit);
    assert forall|k: int| 0 <= k < r.len() implies matches_filter(
        #[trigger] r[k],
        q,
        start,
        end,
    ) && (exists|j: int| 0 <= j < s.len() && r[k] == #[trigger] s[j]) by {
        assert(r[k] == sorted[k]);
        let e = sorted[k];
        assert(sorted.contains(e));
        assert(sorted.to_multiset().count(e) > 0);
        assert(m.to_multiset().count(e) > 0);
        assert(m.contains(e));
        let k0 = choose|k0: int| 0 <= k0 < m.len() && m[k0] == e;
        assert(matches_filter(m[k0], q, start, end));
    }
}

fn match_at(hay: &str, needle: &str, i: usize) -> (r: bool)
    requires
        i + needle@.len() <= hay@.len(),
        hay@.len() <= usize::MAX,
    ensures
        r == (hay@.subrange(i as int, i + needle@.len()) == needle@),
{
    let m: usize = needle.unicode_len();
    let mut j: usize = 0;
    while j < m
        invariant
            0 <= j <= m,
            m == needle@.len(),
            i + m <= hay@.len(),
            hay@.len() <= usize::MAX,
            forall|l: int| 0 <= l < j ==> hay@[i + l] == needle@[l],
        decreases m - j,
    {
        if hay.get_char(i + j) != needle.get_char(j) {
            assert(hay@.subrange(i as int, i + needle@.len())[j as int] != needle@[j as int]);
            return false;
        }
        j = j + 1;
    }
    assert(hay@.subrange(i as int, i + needle@.len()) =~= needle@);
    true
}

fn str_contains(hay: &str, needle: &str) -> (r: bool)
    ensures
        r == contains_spec(hay@, needle@),
{
    let n: usize = hay.unicode_len();
    let m: usize = needle.unicode_len();
    if m > n {
        return false;
    }
    if m == 0 {
        proof {
            assert(hay@.subrange(0, 0 + needle@.len() as int) =~= needle@);
        }
        return true;
    }
    let mut i: usize = 0;
    while i <= n - m
        invariant
            0 <= i <= n - m + 1,
            1 <= m <= n,
            n == hay@.len(),
            m == needle@.len(),
            forall|k: int|
                0 <= k < i ==> #[trigger] hay@.subrange(k, k + needle@.len()) != needle@,
        decreases n - m - i + 1,
    {
        if match_at(hay, needle, i) {
            return true;
        }
        i = i + 1;
    }
    false
}

fn row_matches(row: &ClipboardItemRow, q: &str) -> (r: bool)
    ensures
        r == matches_query(row@, q@),
{
    if let Some(t) = &row.text {
        if str_contains(t.as_str(), q) {
            return true;
        }
    }
    if let Some(h) = &row.html {
        if str_contains(h.as_str(), q) {
            return true;
        }
    }
    if let Some(p) = &row.file_path {
        if str_contains(p.as_str(), q) {
            return true;
        }
    }
    if let Some(c) = &row.color {
        if str_contains(c.as_str(), q) {
            return true;
        }
    }
    false
}

fn row_passes(row: &ClipboardItemRow, q: Option<&str>, start: Option<i64>, end: Option<i64>) -> (r:
    bool)
    ensures
        r == matches_filter(row@, opt_strref_view(q), opt_int_view(start), opt_int_view(end)),
{
    if let Some(qs) = q {
        if !row_matches(row, qs) {
            return false;
        }
    }
    if let Some(s) = start {
        if row.created_at < s {
            return false;
        }
    }
    if let Some(e) = end {
        if row.created_at > e {
            return false;
        }
    }
    true
}

fn row_gt(a: &ClipboardItemRow, b: &ClipboardItemRow) -> (r: bool)
    ensures
        r == rec_gt(a@, b@),
{
    a.created_at > b.created_at || (a.created_at == b.created_at && a.id > b.id)
}

proof fn lemma_insert_newest_at(s: Seq<RecordModel>, x: RecordModel, j: int)
    requires
        0 <= j <= s.len(),
        forall|k: int| 0 <= k < j ==> rec_gt(#[trigger] s[k], x),
        j == s.len() || !rec_gt(s[j], x),
    ensures
        insert_newest(s, x) == s.insert(j, x),
    decreases s.len(),
{
    if j == 0 {
        if s.len() == 0 {
            assert(insert_newest(s, x) =~= s.insert(0, x));
        } else {
            assert(insert_newest(s, x) =~= s.insert(0, x));
        }
    } else {
        assert(rec_gt(s[0], x));
        let t = s.drop_first();
        assert(forall|k: int| 0 <= k < j - 1 ==> t[k] == s[k + 1] && rec_gt(#[trigger] t[k], x));
        lemma_insert_newest_at(t, x, j - 1);
        assert(insert_newest(s, x) == seq![s[0]] + t.insert(j - 1, x));
        assert(seq![s[0]] + t.insert(j - 1, x) =~= s.insert(j, x));
    }
}

fn insert_row_sorted(v: &mut Vec<ClipboardItemRow>, x: ClipboardItemRow)
    ensures
        row_models(final(v)@) == insert_newest(row_models(old(v)@), x@),
{
    let mut j: usize = 0;
    while j < v.len() && row_gt(&v[j], &x)
        invariant
            0 <= j <= v@.len(),
            v@ == old(v)@,
            forall|k: int| 0 <= k < j ==> rec_gt(#[trigger] row_models(v@)[k], x@),
        decreases v@.len() - j,
    {
        j = j + 1;
    }
    proof {
        lemma_insert_newest_at(row_models(v@), x@, j as int);
    }
    let ghost before = row_models(v@);
    v.insert(j, x);
    proof {
        assert(row_models(v@) =~= before.insert(j as int, x@));
    }
}

impl HistoryStore {
    fn query_rows(&self, q: Option<&str>, start: Option<i64>, end: Option<i64>, limit: i64) -> (r:
        Vec<ClipboardItemRow>)
        requires
            self.wf(),
            1 <= limit <= 1000,
        ensures
            row_models(r@) == query_spec(
                self@,
                opt_strref_view(q),
                opt_int_view(start),
                opt_int_view(end),
                limit as int,
            ),
    {
        let ghost qv = opt_strref_view(q);
        let ghost sv = opt_int_view(start);
        let ghost ev = opt_int_view(end);
        let ghost target = matching(self@, qv, sv, ev);
        let n: usize = self.items.len();
        let mut matched: Vec<ClipboardItemRow> = Vec::new();
        let mut idx: usize = 0;
        proof {
            assert(target =~= row_models(matched@) + matching_from(self@, qv, sv, ev, 0));
        }
        while idx < n
            invariant
                0 <= idx <= n,
                n == self.items@.len(),
                qv == opt_strref_view(q),
                sv == opt_int_view(start),
                ev == opt_int_view(end),
                target == matching(self@, qv, sv, ev),
                target == row_models(matched@) + matching_from(self@, qv, sv, ev, idx as int),
            decreases n - idx,
        {
            let row = &self.items[idx];
            assert(row@ == self@[idx as int]);
            if row_passes(row, q, start, end) {
                let ghost prev = row_models(matched@);
                matched.push(row.duplicate());
                proof {
                    assert(row_models(matched@) =~= prev.push(self@[idx as int]));
                    assert(prev.push(self@[idx as int]) + matching_from(
                        self@,
                        qv,
                        sv,
                        ev,
                        idx + 1,
                    ) =~= prev + (seq![self@[idx as int]] + matching_from(
                        self@,
                        qv,
                        sv,
                        ev,
                        idx + 1,
                    )));
                }
            }
            idx = idx + 1;
        }
        proof {
            assert(row_models(matched@) + matching_from(self@, qv, sv, ev, n as int) =~= row_models(
                matched@,
            ));
        }
        let mut sorted: Vec<ClipboardItemRow> = Vec::new();
        while matched.len() > 0
            invariant
                sort_newest_from(row_models(sorted@), row_models(matched@)) == sort_newest(target),
            decreases matched@.len(),
        {
            let ghost acc = row_models(sorted@);
            let ghost rest = row_models(matched@);
            let x = matched.remove(0);
            proof {
                assert(x@ == rest[0]);
                assert(row_models(matched@) =~= rest.drop_first());
            }
            insert_row_sorted(&mut sorted, x);
        }
        proof {
            assert(row_models(sorted@) == sort_newest(target));
        }
        let lim: usize = limit as usize;
        if sorted.len() > lim {
            let ghost full = row_models(sorted@);
            sorted.truncate(lim);
            proof {
                assert(row_models(sorted@) =~= full.take(lim as int));
            }
        } else {
            proof {
                assert(row_models(sorted@) =~= sort_newest(target).take(
                    row_models(sorted@).len() as int,
                ));
            }
        }
        sorted
    }

    /// The most recent records, newest first, at most `limit` of them.
    pub fn list_items(&self, limit: i64) -> (r: Vec<ClipboardItemRow>)
        requires
            self.wf(),
            1 <= limit <= 1000,
        ensures
            row_models(r@) == query_spec(self@, None, None, None, limit as int),
    {
        self.query_rows(None, None, None, limit)
    }

    /// The records whose text, html, file path or color contains `query`,
    /// newest first, at most `limit` of them.
    pub fn search_items(&self, query: &str, limit: i64) -> (r: Vec<ClipboardItemRow>)
        requires
            self.wf(),
            1 <= limit <= 1000,
        ensures
            row_models(r@) == query_spec(self@, Some(query@), None, None, limit as int),
    {
        self.query_rows(Some(query), None, None, limit)
    }

    /// The records created between `start_ts` and `end_ts`, both
    /// inclusive, newest first, at most `limit` of them.
    pub fn list_items_by_date_range(&self, start_ts: i64, end_ts: i64, limit: i64) -> (r: Vec<
        ClipboardItemRow,
    >)
        requires
            self.wf(),
            1 <= limit <= 1000,
        ensures
            row_models(r@) == query_spec(
                self@,
                None,
                Some(start_ts as int),
                Some(end_ts as int),
                limit as int,
            ),
    {
        self.query_rows(None, Some(start_ts), Some(end_ts), limit)
    }

    /// The records that match `query` and were created between `start_ts`
    /// and `end_ts`, both inclusive, newest first, at most `limit` of
    /// them.
    pub fn search_items_by_date_range(
        &self,
        query: &str,
        start_ts: i64,
        end_ts: i64,
        limit: i64,
    ) -> (r: Vec<ClipboardItemRow>)
        requires
            self.wf(),
            1 <= limit <= 1000,
        ensures
            row_models(r@) == query_spec(
                self@,
                Some(query@),
                Some(start_ts as int),
                Some(end_ts as int),
                limit as int,
            ),
    {
        self.query_rows(Some(query), Some(start_ts), Some(end_ts), limit)
    }
}

} // verus!
