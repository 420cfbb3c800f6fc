//! Building capture candidates from raw clipboard payloads, and the
//! dedup state that suppresses repeated captures of unchanged content.

use vstd::prelude::*;
use vstd::string::StrSliceExecFns;
use vstd::string::StringExecFns;
use crate::classify::{classify_spec, classify_text, trim_spec, trim_str};
use crate::models::{copy_bytes, push_char, NewClipboardItem, NewRecordModel};

verus! {

/// The deduplication key of a captured payload: the payload itself, so
/// that two captures collide exactly when their bytes (and, for images,
/// dimensions) agree.
pub enum ContentHash {
    /// The trimmed text of a text capture.
    Text(String),
    /// The raw bytes, width and height of an image capture.
    Image(Vec<u8>, i64, i64),
}

/// The model of a deduplication key.
pub ghost enum HashModel {
    Text(Seq<char>),
    Image(Seq<u8>, int, int),
}

impl View for ContentHash {
    type V = HashModel;

    open spec fn view(&self) -> HashModel {
        match self {
            ContentHash::Text(s) => HashModel::Text(s@),
            ContentHash::Image(b, w, h) => HashModel::Image(b@, *w as int, *h as int),
        }
    }
}

/// The deduplication key of a text capture.
pub fn hash_text(text: &str) -> (h: ContentHash)
    ensures
        h@ == HashModel::Text(text@),
{
    ContentHash::Text(text.to_owned())
}

/// The deduplication key of an image capture.
pub fn hash_image(bytes: &Vec<u8>, width: i64, height: i64) -> (h: ContentHash)
    ensures
        h@ == HashModel::Image(bytes@, width as int, height as int),
{
    ContentHash::Image(copy_bytes(bytes), width, height)
}

fn bytes_eq(a: &Vec<u8>, b: &Vec<u8>) -> (r: bool)
    ensures
        r == (a@ == b@),
{
    if a.len() != b.len() {
        return false;
    }
    let n: usize = a.len();
    let mut i: usize = 0;
    while i < n
        invariant
            0 <= i <= n,
            n == a@.len(),
            n == b@.len(),
            forall|k: int| 0 <= k < i ==> a@[k] == b@[k],
        decreases n - i,
    {
        if a[i] != b[i] {
            return false;
        }
        i = i + 1;
    }
    proof {
        assert(a@ =~= b@);
    }
    true
}

fn content_hash_eq(a: &ContentHash, b: &ContentHash) -> (r: bool)
    ensures
        r == (a@ == b@),
{
    match (a, b) {
        (ContentHash::Text(x), ContentHash::Text(y)) => *x == *y,
        (ContentHash::Image(xb, xw, xh), ContentHash::Image(yb, yw, yh)) => *xw == *yw && *xh
            == *yh && bytes_eq(xb, yb),
        _ => false,
    }
}

/// A capture candidate: the payload about to be stored, with its
/// deduplication key.
pub struct CapturedItem {
    pub item: NewClipboardItem,
    pub hash: ContentHash,
}

/// One deduplication step: an unchanged key is discarded, a changed one
/// is remembered and stored.
pub open spec fn dedup_step(last: Option<HashModel>, h: HashModel) -> (Option<HashModel>, bool) {
    if last == Some(h) {
        (last, false)
    } else {
        (Some(h), true)
    }
}

/// The dedup state of one watcher: the key of the last observed capture,
/// none at process start.
pub struct Watcher {
    last_hash: Option<ContentHash>,
}

impl View for Watcher {
    type V = Option<HashModel>;

    closed spec fn view(&self) -> Option<HashModel> {
        match self.last_hash {
            Some(h) => Some(h@),
            None => None,
        }
    }
}

impl Watcher {
    /// A fresh watcher that has seen nothing yet.
    pub fn new() -> (w: Watcher)
        ensures
            w@ == None::<HashModel>,
    {
        Watcher { last_hash: None }
    }

    /// Observe one capture: true exactly when its key differs from the
    /// last observed one, so the capture must be stored; the key becomes
    /// the last observed one either way.
    pub fn observe(&mut self, h: ContentHash) -> (store: bool)
        ensures
            final(self)@ == dedup_step(old(self)@, h@).0,
            store == dedup_step(old(self)@, h@).1,
            final(self)@ == Some(h@),
            store == (old(self)@ != Some(h@)),
    {
        let duplicate = match &self.last_hash {
            Some(prev) => content_hash_eq(prev, &h),
            None => false,
        };
        if duplicate {
            return false;
        }
        self.last_hash = Some(h);
        true
    }
}

/// Two consecutive captures with the same key never store twice; two
/// whose keys differ in any way store the second time as well.
pub proof fn lemma_dedup_consecutive(last: Option<HashModel>, a: HashModel, b: HashModel)
    ensures
        ({
            let (l1, s1) = dedup_step(last, a);
            let (l2, s2) = dedup_step(l1, b);
            &&& (a == b ==> !s2)
            &&& (a != b ==> s2)
        }),
{
}

/// The candidate a non-empty text capture yields: the trimmed text, its
/// classification, and the trimmed text as deduplication key. An empty
/// (or whitespace-only) clipboard yields nothing.
pub fn candidate_from_text(text: &str, now: i64) -> (r: Option<CapturedItem>)
    ensures
        r is None <==> trim_spec(text@).len() == 0,
        r is Some ==> (r->0.item@ == NewRecordModel {
            format: classify_spec(trim_spec(text@)).format,
            category: classify_spec(trim_spec(text@)).category,
            text: Some(trim_spec(text@)),
            html: None,
            file_path: classify_spec(trim_spec(text@)).file_path,
            color: classify_spec(trim_spec(text@)).color,
            image: None,
            image_width: None,
            image_height: None,
            created_at: now as int,
        }),
        r is Some ==> r->0.hash@ == HashModel::Text(trim_spec(text@)),
{
    let trimmed = trim_str(text);
    if trimmed.is_empty() {
        return None;
    }
    let classification = classify_text(text);
    let hash = hash_text(trimmed);
    let item = NewClipboardItem {
        format: classification.format,
        category: classification.category,
        text: Some(trimmed.to_owned()),
        html: None,
        file_path: classification.file_path,
        color: classification.color,
        image: None,
        image_width: None,
        image_height: None,
        created_at: now,
    };
    Some(CapturedItem { item, hash })
}

/// The candidate an image capture yields: the raw RGBA payload with its
/// dimensions, and a key over bytes, width and height.
pub fn candidate_from_image(bytes: Vec<u8>, width: i64, height: i64, now: i64) -> (r: CapturedItem)
    ensures
        r.item@ == (NewRecordModel {
            format: "image"@,
            category: "image"@,
            text: None,
            html: None,
            file_path: None,
            color: None,
            image: Some(bytes@),
            image_width: Some(width as int),
            image_height: Some(height as int),
            created_at: now as int,
        }),
        r.hash@ == HashModel::Image(bytes@, width as int, height as int),
{
    let hash = hash_image(&bytes, width, height);
    let item = NewClipboardItem {
        format: "image".to_owned(),
        category: "image".to_owned(),
        text: None,
        html: None,
        file_path: None,
        color: None,
        image: Some(bytes),
        image_width: Some(width),
        image_height: Some(height),
        created_at: now,
    };
    CapturedItem { item, hash }
}

/// How many capture attempts one clipboard-change notification is given
/// before the watcher gives up until the next cycle.
pub const CAPTURE_ATTEMPTS: u32 = 5;

/// How long to wait between two capture attempts, in milliseconds.
pub const CAPTURE_RETRY_DELAY_MS: u64 = 60;

/// The bounded-retry decision around a capture that came up empty: after
/// `attempts_made` attempts, how long to wait before the next one, or
/// `None` once the attempts are used up. The change notification can
/// fire before the new content is committed to the clipboard, hence the
/// retry; the loop that sleeps and reads stays with the caller.
pub fn retry_delay_ms(attempts_made: u32) -> (r: Option<u64>)
    ensures
        r == (if attempts_made < CAPTURE_ATTEMPTS {
            Some(CAPTURE_RETRY_DELAY_MS)
        } else {
            None::<u64>
        }),
{
    if attempts_made < CAPTURE_ATTEMPTS {
        Some(CAPTURE_RETRY_DELAY_MS)
    } else {
        None
    }
}

/// The character of one decimal digit.
pub open spec fn digit_char(d: int) -> char {
    ((48 + d) as u8) as char
}

/// The decimal representation of a non-negative number, most significant
/// digit first.
pub open spec fn dec_rep(n: int) -> Seq<char>
    decreases n,
{
    if n < 10 {
        seq![digit_char(n)]
    } else {
        dec_rep(n / 10).push(digit_char(n % 10))
    }
}

/// One line of the watcher's log: the timestamp in decimal, one space,
/// the message, and a newline.
pub open spec fn log_line_spec(ts: int, msg: Seq<char>) -> Seq<char> {
    dec_rep(ts) + seq![' '] + msg + seq!['\n']
}

fn digit_to_char(d: u8) -> (c: char)
    requires
        d < 10,
    ensures
        c == digit_char(d as int),
{
    (48 + d) as char
}

fn decimal_string(n: u64) -> (r: String)
    ensures
        r@ == dec_rep(n as int),
    decreases n,
{
    if n < 10 {
        let mut s = String::new();
        push_char(&mut s, digit_to_char(n as u8));
        proof {
            assert(s@ =~= dec_rep(n as int));
        }
        s
    } else {
        let mut s = decimal_string(n / 10);
        push_char(&mut s, digit_to_char((n % 10) as u8));
        s
    }
}

/// Format one log line as the log sink records it: the timestamp in
/// milliseconds, a space, the message, a newline.
pub fn format_log_line(ts: i64, msg: &str) -> (r: String)
    requires
        ts >= 0,
    ensures
        r@ == log_line_spec(ts as int, msg@),
{
    let mut s = decimal_string(ts as u64);
    push_char(&mut s, ' ');
    s.append(msg);
    push_char(&mut s, '\n');
    proof {
        assert(s@ =~= log_line_spec(ts as int, msg@));
    }
    s
}

} // verus!
