//! The query surface the host application consumes: listing, searching,
//! time-range filtering, and resolving a record into the action that
//! writes it back onto the OS clipboard.

use vstd::prelude::*;
use vstd::string::StrSliceExecFns;
use crate::classify::{trim_spec, trim_str};
use crate::db::{query_spec, row_models, HistoryStore};
use crate::models::{
    opt_int_view, transport_matches, ClipboardItem, ClipboardItemRow, RecordModel,
};

verus! {

/// The requested limit, defaulted to 200 and clamped to `[1, 1000]`.
pub open spec fn clamp_limit_spec(l: Option<int>) -> int {
    let v = if l is Some {
        l->0
    } else {
        200
    };
    if v < 1 {
        1
    } else if v > 1000 {
        1000
    } else {
        v
    }
}

fn clamp_limit(limit: Option<i64>) -> (l: i64)
    ensures
        l as int == clamp_limit_spec(opt_int_view(limit)),
        1 <= l <= 1000,
{
    let v: i64 = match limit {
        Some(v) => v,
        None => 200,
    };
    if v < 1 {
        1
    } else if v > 1000 {
        1000
    } else {
        v
    }
}

/// Every transport item of `ts` is the projection of the record of
/// `rows` at the same position.
pub open spec fn transports_match(ts: Seq<ClipboardItem>, rows: Seq<RecordModel>) -> bool {
    &&& ts.len() == rows.len()
    &&& forall|i: int|
        0 <= i < rows.len() ==> transport_matches((#[trigger] ts[i])@, rows[i])
}

fn rows_to_transport(rows: Vec<ClipboardItemRow>) -> (r: Vec<ClipboardItem>)
    ensures
        transports_match(r@, row_models(rows@)),
{
    let ghost all = row_models(rows@);
    let mut rest = rows;
    let mut out: Vec<ClipboardItem> = Vec::new();
    proof {
        assert(row_models(rest@) =~= all.skip(0));
    }
    while rest.len() > 0
        invariant
            out@.len() + rest@.len() == all.len(),
            row_models(rest@) == all.skip(out@.len() as int),
            forall|i: int|
                0 <= i < out@.len() ==> transport_matches((#[trigger] out@[i])@, all[i]),
        decreases rest@.len(),
    {
        let ghost k = out@.len() as int;
        let ghost restm = row_models(rest@);
        let row = rest.remove(0);
        proof {
            assert(row@ == restm[0]);
            assert(restm[0] == all[k]);
            assert(row_models(rest@) =~= restm.drop_first());
            assert(restm.drop_first() =~= all.skip(k + 1));
        }
        let t = ClipboardItem::from_row(row);
        out.push(t);
    }
    out
}

/// The most recent records as transport items, newest first; the limit
/// defaults to 200 and is clamped to `[1, 1000]`.
pub fn list_history(store: &HistoryStore, limit: Option<i64>) -> (r: Vec<ClipboardItem>)
    requires
        store.wf(),
    ensures
        transports_match(
            r@,
            query_spec(store@, None, None, None, clamp_limit_spec(opt_int_view(limit))),
        ),
{
    let l = clamp_limit(limit);
    rows_to_transport(store.list_items(l))
}

/// The records matching the trimmed query, newest first; an empty (or
/// whitespace-only) query lists everything, as `list_history` does.
pub fn search_history(store: &HistoryStore, query: &str, limit: Option<i64>) -> (r: Vec<
    ClipboardItem,
>)
    requires
        store.wf(),
    ensures
        ({
            let lim = clamp_limit_spec(opt_int_view(limit));
            let rows = if trim_spec(query@).len() == 0 {
                query_spec(store@, None, None, None, lim)
            } else {
                query_spec(store@, Some(trim_spec(query@)), None, None, lim)
            };
            transports_match(r@, rows)
        }),
{
    let trimmed = trim_str(query);
    if trimmed.is_empty() {
        return list_history(store, limit);
    }
    let l = clamp_limit(limit);
    rows_to_transport(store.search_items(trimmed, l))
}

/// The records created between `start_ts` and `end_ts`, both inclusive,
/// newest first.
pub fn list_history_by_date(
    store: &HistoryStore,
    start_ts: i64,
    end_ts: i64,
    limit: Option<i64>,
) -> (r: Vec<ClipboardItem>)
    requires
        store.wf(),
    ensures
        transports_match(
            r@,
            query_spec(
                store@,
                None,
                Some(start_ts as int),
                Some(end_ts as int),
                clamp_limit_spec(opt_int_view(limit)),
            ),
        ),
{
    let l = clamp_limit(limit);
    rows_to_transport(store.list_items_by_date_range(start_ts, end_ts, l))
}

/// The records matching the trimmed query and created in the inclusive
/// time range, newest first; an empty query falls back to the plain
/// time-range listing.
pub fn search_history_by_date(
    store: &HistoryStore,
    query: &str,
    start_ts: i64,
    end_ts: i64,
    limit: Option<i64>,
) -> (r: Vec<ClipboardItem>)
    requires
        store.wf(),
    ensures
        ({
            let lim = clamp_limit_spec(opt_int_view(limit));
            let rows = if trim_spec(query@).len() == 0 {
                query_spec(store@, None, Some(start_ts as int), Some(end_ts as int), lim)
            } else {
                query_spec(
                    store@,
                    Some(trim_spec(query@)),
                    Some(start_ts as int),
                    Some(end_ts as int),
                    lim,
                )
            };
            transports_match(r@, rows)
        }),
{
    let trimmed = trim_str(query);
    if trimmed.is_empty() {
        return list_history_by_date(store, start_ts, end_ts, limit);
    }
    let l = clamp_limit(limit);
    rows_to_transport(store.search_items_by_date_range(trimmed, start_ts, end_ts, l))
}

/// What writing a stored record back onto the OS clipboard performs.
#[derive(Debug)]
pub enum WriteAction {
    /// Set the clipboard to a raw RGBA image with the given width and
    /// height.
    SetImage(Vec<u8>, i64, i64),
    /// Set the clipboard to an html payload.
    SetHtml(String),
    /// Set the clipboard to plain text.
    SetText(String),
    /// The record holds nothing to write; the clipboard stays as it is.
    Nothing,
}

/// The model of a write-back action.
pub ghost enum WriteActionModel {
    SetImage(Seq<u8>, int, int),
    SetHtml(Seq<char>),
    SetText(Seq<char>),
    Nothing,
}

impl View for WriteAction {
    type V = WriteActionModel;

    open spec fn view(&self) -> WriteActionModel {
        match self {
            WriteAction::SetImage(b, w, h) => WriteActionModel::SetImage(b@, *w as int, *h as int),
            WriteAction::SetHtml(s) => WriteActionModel::SetHtml(s@),
            WriteAction::SetText(s) => WriteActionModel::SetText(s@),
            WriteAction::Nothing => WriteActionModel::Nothing,
        }
    }
}

/// The action a record calls for: an image record writes its raw bytes
/// when all three image fields are present; an html record writes its
/// html, falling back to its text; any other record writes the best
/// available text-like field.
pub open spec fn write_action_spec(m: RecordModel) -> WriteActionModel {
    if m.format == "image"@ {
        if m.image is Some && m.image_width is Some && m.image_height is Some {
            WriteActionModel::SetImage(m.image->0, m.image_width->0, m.image_height->0)
        } else {
            WriteActionModel::Nothing
        }
    } else if m.format == "html"@ {
        if m.html is Some {
            WriteActionModel::SetHtml(m.html->0)
        } else if m.text is Some {
            WriteActionModel::SetText(m.text->0)
        } else {
            WriteActionModel::Nothing
        }
    } else {
        if m.text is Some {
            WriteActionModel::SetText(m.text->0)
        } else if m.file_path is Some {
            WriteActionModel::SetText(m.file_path->0)
        } else if m.color is Some {
            WriteActionModel::SetText(m.color->0)
        } else {
            WriteActionModel::Nothing
        }
    }
}

fn str_is(a: &str, b: &str) -> (r: bool)
    ensures
        r == (a@ == b@),
{
    let n: usize = a.unicode_len();
    let m: usize = b.unicode_len();
    if n != m {
        return false;
    }
    let mut i: usize = 0;
    while i < n
        invariant
            0 <= i <= n,
            n == a@.len(),
            n == b@.len(),
            forall|k: int| 0 <= k < i ==> a@[k] == b@[k],
        decreases n - i,
    {
        if a.get_char(i) != b.get_char(i) {
            return false;
        }
        i = i + 1;
    }
    proof {
        assert(a@ =~= b@);
    }
    true
}

/// Turn a stored record into the clipboard write it calls for.
pub fn clipboard_write_action(row: ClipboardItemRow) -> (a: WriteAction)
    ensures
        a@ == write_action_spec(row@),
{
    if str_is(row.format.as_str(), "image") {
        match (row.image, row.image_width, row.image_height) {
            (Some(bytes), Some(width), Some(height)) => WriteAction::SetImage(
                bytes,
                width,
                height,
            ),
            _ => WriteAction::Nothing,
        }
    } else if str_is(row.format.as_str(), "html") {
        match row.html {
            Some(html) => WriteAction::SetHtml(html),
            None => match row.text {
                Some(text) => WriteAction::SetText(text),
                None => WriteAction::Nothing,
            },
        }
    } else {
        match row.text {
            Some(text) => WriteAction::SetText(text),
            None => match row.file_path {
                Some(path) => WriteAction::SetText(path),
                None => match row.color {
                    Some(color) => WriteAction::SetText(color),
                    None => WriteAction::Nothing,
                },
            },
        }
    }
}

/// Resolve a write-back request: the action for the record with the
/// given id, or a "record not found" error when no such record exists;
/// never a silent no-op.
pub fn set_clipboard(store: &HistoryStore, id: i64) -> (r: Result<WriteAction, String>)
    requires
        store.wf(),
    ensures
        match r {
            Ok(a) => 1 <= id as int <= store@.len() && a@ == write_action_spec(
                store@[id as int - 1],
            ),
            Err(m) => !(1 <= id as int <= store@.len()) && m@ == "record not found"@,
        },
{
    match store.get_item(id) {
        Some(row) => Ok(clipboard_write_action(row)),
        None => Err("record not found".to_owned()),
    }
}

} // verus!
