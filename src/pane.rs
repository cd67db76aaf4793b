//! State of one file pane: its listing, cursor and selection, and the rules
//! for applying asynchronous directory loads and size calculations. Each
//! asynchronous result carries the path it was computed for and is applied
//! only while the pane still shows that path.

use vstd::prelude::*;
use vstd::string::{StrSliceExecFns, StringExecFns};
use crate::paths::{parent_of, path_parent};
use crate::util::{lower_of, lowercase};

verus! {

broadcast use vstd::seq_lib::group_to_multiset_ensures;

/// What the size column shows.
#[derive(Clone, Copy, PartialEq, Eq, Debug, Default, Structural)]
pub enum SizeDisplayMode {
    #[default]
    Off,
    /// File sizes as listed (like `ls`).
    Quick,
    /// Directory sizes computed recursively in the background (like `du`).
    Full,
}

pub open spec fn next_mode(m: SizeDisplayMode) -> SizeDisplayMode {
    match m {
        SizeDisplayMode::Off => SizeDisplayMode::Quick,
        SizeDisplayMode::Quick => SizeDisplayMode::Full,
        SizeDisplayMode::Full => SizeDisplayMode::Off,
    }
}

impl SizeDisplayMode {
    /// None → Quick → Full → None.
    pub fn cycle(self) -> (r: Self)
        ensures
            r == next_mode(self),
    {
        match self {
            SizeDisplayMode::Off => SizeDisplayMode::Quick,
            SizeDisplayMode::Quick => SizeDisplayMode::Full,
            SizeDisplayMode::Full => SizeDisplayMode::Off,
        }
    }
}

/// One item of a pane.
#[derive(Debug)]
pub struct Entry {
    pub name: String,
    pub path: String,
    pub is_dir: bool,
    /// Size in bytes, when the size mode shows one for this item.
    pub size: Option<u64>,
}

#[derive(Clone, Copy, PartialEq, Eq, Debug, Default, Structural)]
pub enum Pane {
    #[default]
    Left,
    Right,
}

/// Outcome of an asynchronous directory load, for the path it listed.
pub struct LoadResult {
    pub path: String,
    pub entries: Result<Vec<Entry>, String>,
}

/// Outcome of one directory's size calculation.
pub struct SizeResult {
    pub path: String,
    pub size: u64,
}

/// What polling a pending load found.
pub enum LoadPoll {
    /// Nothing has arrived yet.
    Pending,
    Ready(LoadResult),
    /// The loading thread ended without sending.
    Disconnected,
}

/// A directory load to run in the background.
pub struct LoadRequest {
    pub path: String,
    pub show_hidden: bool,
    pub size_mode: SizeDisplayMode,
}

/// Lexicographic order of texts by character code.
pub open spec fn text_le(a: Seq<char>, b: Seq<char>) -> bool
    decreases a.len(),
{
    if a.len() == 0 {
        true
    } else if b.len() == 0 {
        false
    } else if (a[0] as u32) != (b[0] as u32) {
        (a[0] as u32) < (b[0] as u32)
    } else {
        text_le(a.drop_first(), b.drop_first())
    }
}

proof fn lemma_text_le_total(a: Seq<char>, b: Seq<char>)
    ensures
        text_le(a, b) || text_le(b, a),
    decreases a.len(),
{
    if a.len() > 0 && b.len() > 0 && (a[0] as u32) == (b[0] as u32) {
        lemma_text_le_total(a.drop_first(), b.drop_first());
    }
}

proof fn lemma_text_le_trans(a: Seq<char>, b: Seq<char>, c: Seq<char>)
    requires
        text_le(a, b),
        text_le(b, c),
    ensures
        text_le(a, c),
    decreases a.len(),
{
    if a.len() > 0 && b.len() > 0 && c.len() > 0 && (a[0] as u32) == (b[0] as u32) && (b[0] as u32) == (c[0] as u32) {
        lemma_text_le_trans(a.drop_first(), b.drop_first(), c.drop_first());
    }
}

/// `x` may be listed before `y`: directories first, then by lowercase name.
pub open spec fn listed_before(x: Entry, y: Entry) -> bool {
    (x.is_dir && !y.is_dir) || (x.is_dir == y.is_dir && text_le(lower_of(x.name@), lower_of(y.name@)))
}

pub open spec fn is_hidden(name: Seq<char>) -> bool {
    name.len() > 0 && name[0] == '.'
}

/// The entries of `raw` that are shown, in their order.
pub open spec fn shown(raw: Seq<Entry>, show_hidden: bool) -> Seq<Entry>
    decreases raw.len(),
{
    if raw.len() == 0 {
        seq![]
    } else if show_hidden || !is_hidden(raw.last().name@) {
        shown(raw.drop_last(), show_hidden).push(raw.last())
    } else {
        shown(raw.drop_last(), show_hidden)
    }
}

pub open spec fn sorted_listing(s: Seq<Entry>) -> bool {
    forall|a: int, b: int| 0 <= a < b < s.len() ==> listed_before(s[a], s[b])
}

/// Number of leading items that are not directory contents: 1 for the
/// ".." entry when the directory has a parent.
pub open spec fn head_len(path: Seq<char>) -> int {
    if parent_of(path) is Some { 1 } else { 0 }
}

/// Whether `r` is how a pane lists directory `path` whose items are `raw`:
/// ".." (leading to the parent) when there is a parent, then the shown
/// items, directories first, then by lowercase name.
pub open spec fn is_listing(path: Seq<char>, raw: Seq<Entry>, show_hidden: bool, r: Seq<Entry>) -> bool {
    let h = head_len(path);
    &&& r.len() == h + shown(raw, show_hidden).len()
    &&& h == 1 ==> r[0].name@ == ".."@ && r[0].path@ == parent_of(path).unwrap() && r[0].is_dir && r[0].size is None
    &&& r.subrange(h, r.len() as int).to_multiset() == shown(raw, show_hidden).to_multiset()
    &&& sorted_listing(r.subrange(h, r.len() as int))
}

fn is_hidden_name(name: &String) -> (r: bool)
    ensures
        r == is_hidden(name@),
{
    let s = name.as_str();
    s.unicode_len() > 0 && s.get_char(0) == '.'
}

fn text_le_exec(a: &String, b: &String) -> (r: bool)
    ensures
        r == text_le(a@, b@),
{
    let sa = a.as_str();
    let sb = b.as_str();
    let la = sa.unicode_len();
    let lb = sb.unicode_len();
    let mut i: usize = 0;
    assert(a@.subrange(0, la as int) =~= a@);
    assert(b@.subrange(0, lb as int) =~= b@);
    while i < la && i < lb
        invariant
            la == a@.len(),
            lb == b@.len(),
            i <= la,
            i <= lb,
            sa@ == a@,
            sb@ == b@,
            text_le(a@, b@) == text_le(a@.subrange(i as int, la as int), b@.subrange(i as int, lb as int)),
        decreases la - i,
    {
        let ca = sa.get_char(i);
        let cb = sb.get_char(i);
        let ghost ta = a@.subrange(i as int, la as int);
        let ghost tb = b@.subrange(i as int, lb as int);
        assert(ta[0] == ca && tb[0] == cb);
        if (ca as u32) != (cb as u32) {
            return (ca as u32) < (cb as u32);
        }
        assert(ta.drop_first() =~= a@.subrange(i + 1, la as int));
        assert(tb.drop_first() =~= b@.subrange(i + 1, lb as int));
        i = i + 1;
    }
    assert(a@.subrange(i as int, la as int).len() == 0 || b@.subrange(i as int, lb as int).len() == 0);
    i == la
}

/// Arranges the items `raw` read from directory `path` the way the pane
/// lists them: a ".." entry first when `path` has a parent, hidden items
/// (names starting with '.') left out unless `show_hidden`, then
/// directories before files, each group by lowercase name; items of equal
/// rank keep their order.
pub fn arrange_entries(path: &String, raw: Vec<Entry>, show_hidden: bool) -> (r: Vec<Entry>)
    ensures
        is_listing(path@, raw@, show_hidden, r@),
{
    let ghost raw0 = raw@;
    let mut rest = raw;
    let mut out: Vec<Entry> = Vec::new();
    let mut keys: Vec<String> = Vec::new();
    let ghost mut k: int = 0;
    assert(raw0.subrange(0, 0) =~= Seq::<Entry>::empty());
    while rest.len() > 0
        invariant
            0 <= k <= raw0.len(),
            rest@ == raw0.subrange(k, raw0.len() as int),
            keys@.len() == out@.len(),
            forall|j: int| 0 <= j < out@.len() ==> #[trigger] keys@[j]@ == lower_of(out@[j].name@),
            out@.to_multiset() == shown(raw0.subrange(0, k), show_hidden).to_multiset(),
            out@.len() == shown(raw0.subrange(0, k), show_hidden).len(),
            sorted_listing(out@),
        decreases rest@.len(),
    {
        let e = rest.remove(0);
        proof {
            assert(raw0.subrange(0, k + 1).drop_last() =~= raw0.subrange(0, k));
            assert(raw0.subrange(0, k + 1).last() == e);
        }
        if show_hidden || !is_hidden_name(&e.name) {
            let key = lowercase(e.name.as_str());
            let mut p: usize = 0;
            while p < out.len() && (
                (out[p].is_dir && !e.is_dir) || (out[p].is_dir == e.is_dir && text_le_exec(&keys[p], &key)))
                invariant
                    p <= out@.len(),
                    keys@.len() == out@.len(),
                    forall|j: int| 0 <= j < out@.len() ==> #[trigger] keys@[j]@ == lower_of(out@[j].name@),
                    key@ == lower_of(e.name@),
                    forall|j: int| 0 <= j < p ==> listed_before(#[trigger] out@[j], e),
                decreases out@.len() - p,
            {
                p = p + 1;
            }
            let ghost prev = out@;
            proof {
                if p < prev.len() {
                    assert(!listed_before(prev[p as int], e));
                    lemma_text_le_total(lower_of(prev[p as int].name@), lower_of(e.name@));
                    assert(listed_before(e, prev[p as int]));
                }
                assert forall|a: int, b: int| 0 <= a < b < prev.len() + 1 implies
                    listed_before(#[trigger] prev.insert(p as int, e)[a], #[trigger] prev.insert(p as int, e)[b]) by {
                    let s = prev.insert(p as int, e);
                    if b == p {
                        assert(s[a] == prev[a]);
                    } else if a == p {
                        assert(s[b] == prev[b - 1]);
                        if b - 1 > p {
                            assert(listed_before(prev[p as int], prev[b - 1]));
                            let x = prev[p as int];
                            let y = prev[b - 1];
                            if e.is_dir == x.is_dir && x.is_dir == y.is_dir {
                                lemma_text_le_trans(lower_of(e.name@), lower_of(x.name@), lower_of(y.name@));
                            }
                        }
                    } else {
                        let a0 = if a < p { a } else { a - 1 };
                        let b0 = if b < p { b } else { b - 1 };
                        assert(s[a] == prev[a0]);
                        assert(s[b] == prev[b0]);
                    }
                }
            }
            out.insert(p, e);
            keys.insert(p, key);
            proof {
                assert(out@ == prev.insert(p as int, e));
                assert forall|j: int| 0 <= j < out@.len() implies #[trigger] keys@[j]@ == lower_of(out@[j].name@) by {
                    if j < p {
                    } else if j > p {
                        assert(out@[j] == prev[j - 1]);
                    }
                }
            }
        }
        proof {
            k = k + 1;
            assert(rest@ =~= raw0.subrange(k, raw0.len() as int));
        }
    }
    assert(raw0.subrange(0, k) =~= raw0);
    let mut r: Vec<Entry> = Vec::new();
    match path_parent(path) {
        Some(parent) => {
            proof { reveal_strlit(".."); }
            r.push(Entry { name: String::from_str(".."), path: parent, is_dir: true, size: None });
        }
        None => {}
    }
    let ghost h = r@.len();
    let ghost sorted = out@;
    r.append(&mut out);
    assert(r@.subrange(h as int, r@.len() as int) =~= sorted);
    r
}

/// The size an item shows in mode `mode`, given the length its metadata
/// reports (`None` when the metadata could not be read): none in `None`
/// mode; the length in `Quick` mode; in `Full` mode the length for files,
/// while directory sizes come from the background calculation.
pub fn listed_size(mode: SizeDisplayMode, is_dir: bool, len: Option<u64>) -> (r: Option<u64>)
    ensures
        r == match mode {
            SizeDisplayMode::Off => None,
            SizeDisplayMode::Quick => len,
            SizeDisplayMode::Full => if is_dir { None } else { len },
        },
{
    match mode {
        SizeDisplayMode::Off => None,
        SizeDisplayMode::Quick => len,
        SizeDisplayMode::Full => if is_dir { None } else { len },
    }
}

/// The message shown when a directory cannot be listed.
pub fn format_io_error(permission_denied: bool, message: &String) -> (r: String)
    ensures
        r@ == if permission_denied { "Permission denied"@ } else { "Cannot open directory: "@ + message@ },
{
    if permission_denied {
        String::from_str("Permission denied")
    } else {
        let mut s = String::from_str("Cannot open directory: ");
        s.append(message.as_str());
        s
    }
}


/// Milliseconds a load may run before the pane shows "Loading...".
pub const LOADING_INDICATOR_THRESHOLD_MS: u64 = 100;

/// One pane: the directory shown, its listing, the cursor (index of the
/// item under it) and the marked items, plus the state of its background
/// load and size calculation. Times are milliseconds on a monotonic clock.
pub struct PaneState {
    pub path: String,
    pub entries: Vec<Entry>,
    pub cursor: Option<usize>,
    /// Indices of the marked items.
    pub selected: Vec<usize>,
    pub show_hidden: bool,
    /// When the pending background load started; `None` when none is pending.
    pub loading_since: Option<u64>,
    pub size_mode: SizeDisplayMode,
    /// When the running size calculation started; `None` when none runs.
    pub size_calc_since: Option<u64>,
}

pub open spec fn is_parent_link(e: Entry) -> bool {
    e.name@ == seq!['.', '.']
}

/// Paths of the directories whose sizes a full-mode calculation computes:
/// every directory item but "..", in listing order.
pub open spec fn dir_targets(s: Seq<Entry>) -> Seq<Seq<char>>
    decreases s.len(),
{
    if s.len() == 0 {
        seq![]
    } else if s.last().is_dir && !is_parent_link(s.last()) {
        dir_targets(s.drop_last()).push(s.last().path@)
    } else {
        dir_targets(s.drop_last())
    }
}

/// The listing after a size result for `path`: the first item with that
/// path gets the size.
pub open spec fn patch_from(s: Seq<Entry>, path: Seq<char>, size: u64, start: int) -> Seq<Entry>
    decreases s.len() - start,
{
    if start < 0 || start >= s.len() {
        s
    } else if s[start].path@ == path {
        s.update(start, Entry { size: Some(size), ..s[start] })
    } else {
        patch_from(s, path, size, start + 1)
    }
}

/// The listing after the size results `rs`, in order.
pub open spec fn patched(s: Seq<Entry>, rs: Seq<SizeResult>) -> Seq<Entry>
    decreases rs.len(),
{
    if rs.len() == 0 {
        s
    } else {
        patch_from(patched(s, rs.drop_last()), rs.last().path@, rs.last().size, 0)
    }
}

/// `s` without any occurrence of `x`.
pub open spec fn without(s: Seq<usize>, x: usize) -> Seq<usize>
    decreases s.len(),
{
    if s.len() == 0 {
        seq![]
    } else if s.last() == x {
        without(s.drop_last(), x)
    } else {
        without(s.drop_last(), x).push(s.last())
    }
}

/// The entries that indices `sel` pick out of `s`, skipping indices past
/// its end.
pub open spec fn picked(s: Seq<Entry>, sel: Seq<usize>) -> Seq<Entry>
    decreases sel.len(),
{
    if sel.len() == 0 {
        seq![]
    } else if sel.last() < s.len() {
        picked(s, sel.drop_last()).push(s[sel.last() as int])
    } else {
        picked(s, sel.drop_last())
    }
}

/// The cursor after moving down one item.
pub open spec fn cursor_down(cursor: Option<usize>, len: nat) -> Option<usize> {
    match cursor {
        Some(c) => if c + 1 < len { Some((c + 1) as usize) } else { cursor },
        None => None,
    }
}

fn is_parent_name(name: &String) -> (r: bool)
    ensures
        r == (name@ == seq!['.', '.']),
{
    let s = name.as_str();
    let r = s.unicode_len() == 2 && s.get_char(0) == '.' && s.get_char(1) == '.';
    assert(r ==> name@ =~= seq!['.', '.']);
    r
}

impl PaneState {
    /// A pane on `path` showing `entries`, the cursor on the first item.
    pub fn new(path: String, entries: Vec<Entry>) -> (r: Self)
        ensures
            r.path == path,
            r.entries@ == entries@,
            r.cursor == (if entries@.len() > 0 { Some(0usize) } else { None }),
            r.selected@.len() == 0,
            !r.show_hidden,
            r.loading_since is None,
            r.size_mode == SizeDisplayMode::Off,
            r.size_calc_since is None,
    {
        let cursor = if entries.len() > 0 { Some(0) } else { None };
        PaneState {
            path,
            entries,
            cursor,
            selected: Vec::new(),
            show_hidden: false,
            loading_since: None,
            size_mode: SizeDisplayMode::Off,
            size_calc_since: None,
        }
    }

    /// Paths of the directories whose sizes a full-mode calculation computes.
    pub fn size_targets(&self) -> (r: Vec<String>)
        ensures
            r@.map_values(|p: String| p@) == dir_targets(self.entries@),
    {
        let mut r: Vec<String> = Vec::new();
        let mut i: usize = 0;
        assert(self.entries@.subrange(0, 0) =~= Seq::<Entry>::empty());
        while i < self.entries.len()
            invariant
                i <= self.entries@.len(),
                r@.map_values(|p: String| p@) == dir_targets(self.entries@.subrange(0, i as int)),
            decreases self.entries@.len() - i,
        {
            assert(self.entries@.subrange(0, i + 1).drop_last() =~= self.entries@.subrange(0, i as int));
            let e = &self.entries[i];
            if e.is_dir && !is_parent_name(&e.name) {
                let ghost before = r@;
                r.push(e.path.clone());
                assert(r@.map_values(|p: String| p@) =~= before.map_values(|p: String| p@).push(e.path@));
            }
            i = i + 1;
        }
        assert(self.entries@.subrange(0, i as int) =~= self.entries@);
        r
    }

    /// Starts a size calculation when there are directories to measure:
    /// `size_calc_since` becomes `now_ms`; the caller computes the sizes of
    /// `size_targets()` in the background.
    pub fn start_size_calculation(&mut self, now_ms: u64)
        ensures
            final(self).size_calc_since == (if dir_targets(old(self).entries@).len() > 0 { Some(now_ms) } else { old(self).size_calc_since }),
            final(self).path == old(self).path,
            final(self).entries == old(self).entries,
            final(self).cursor == old(self).cursor,
            final(self).selected == old(self).selected,
            final(self).show_hidden == old(self).show_hidden,
            final(self).loading_since == old(self).loading_since,
            final(self).size_mode == old(self).size_mode,
    {
        let targets = self.size_targets();
        if targets.len() > 0 {
            self.size_calc_since = Some(now_ms);
        }
    }

    /// Shows the listing `entries` just read for the pane's directory: the
    /// marks are cleared, any size calculation is dropped, and in full size
    /// mode a new one is started.
    pub fn load_entries(&mut self, entries: Vec<Entry>, now_ms: u64)
        ensures
            final(self).entries@ == entries@,
            final(self).selected@.len() == 0,
            final(self).size_calc_since == (if old(self).size_mode == SizeDisplayMode::Full && dir_targets(entries@).len() > 0 { Some(now_ms) } else { None }),
            final(self).path == old(self).path,
            final(self).cursor == old(self).cursor,
            final(self).show_hidden == old(self).show_hidden,
            final(self).loading_since == old(self).loading_since,
            final(self).size_mode == old(self).size_mode,
    {
        self.selected = Vec::new();
        self.size_calc_since = None;
        self.entries = entries;
        if self.size_mode == SizeDisplayMode::Full {
            self.start_size_calculation(now_ms);
        }
    }

    /// Begins a background load of the pane's directory; a size calculation
    /// in progress is dropped. The caller lists the directory as the request
    /// says and hands the outcome to `poll_load_result`.
    pub fn load_entries_async(&mut self, now_ms: u64) -> (r: LoadRequest)
        ensures
            r.path@ == old(self).path@,
            r.show_hidden == old(self).show_hidden,
            r.size_mode == old(self).size_mode,
            final(self).loading_since == Some(now_ms),
            final(self).size_calc_since is None,
            final(self).path == old(self).path,
            final(self).entries == old(self).entries,
            final(self).cursor == old(self).cursor,
            final(self).selected == old(self).selected,
            final(self).show_hidden == old(self).show_hidden,
            final(self).size_mode == old(self).size_mode,
    {
        self.size_calc_since = None;
        self.loading_since = Some(now_ms);
        LoadRequest { path: self.path.clone(), show_hidden: self.show_hidden, size_mode: self.size_mode }
    }

    /// Applies what polling the pending load found. Nothing is pending, or
    /// nothing arrived: `None`, no change. The loader vanished: the load
    /// ends with an error. A result arrived: the load ends, and the result
    /// is applied only if it was computed for the directory the pane shows
    /// now; a result for another path is discarded (`None`). An applied
    /// listing replaces the items, clears the marks, puts the cursor on the
    /// first item if it had none, and in full size mode starts a size
    /// calculation.
    pub fn poll_load_result(&mut self, poll: LoadPoll, now_ms: u64) -> (r: Option<Result<(), String>>)
        ensures
            final(self).path == old(self).path,
            final(self).show_hidden == old(self).show_hidden,
            final(self).size_mode == old(self).size_mode,
            old(self).loading_since is None || poll is Pending ==> r is None && *final(self) == *old(self),
            old(self).loading_since is Some && poll is Disconnected ==> r is Some && r->Some_0 is Err
                && r->Some_0->Err_0@ == "Loading thread disconnected"@
                && final(self).loading_since is None
                && final(self).entries == old(self).entries && final(self).selected == old(self).selected
                && final(self).cursor == old(self).cursor && final(self).size_calc_since == old(self).size_calc_since,
            old(self).loading_since is Some && poll is Ready && poll->Ready_0.path@ != old(self).path@ ==> r is None
                && final(self).loading_since is None
                && final(self).entries == old(self).entries && final(self).selected == old(self).selected
                && final(self).cursor == old(self).cursor && final(self).size_calc_since == old(self).size_calc_since,
            old(self).loading_since is Some && poll is Ready && poll->Ready_0.path@ == old(self).path@ ==>
                final(self).loading_since is None
                && match poll->Ready_0.entries {
                    Ok(es) => r == Some(Ok::<(), String>(()))
                        && final(self).entries@ == es@
                        && final(self).selected@.len() == 0
                        && final(self).cursor == (if es@.len() > 0 && old(self).cursor is None { Some(0usize) } else { old(self).cursor })
                        && final(self).size_calc_since == (if old(self).size_mode == SizeDisplayMode::Full && dir_targets(es@).len() > 0 { Some(now_ms) } else { None }),
                    Err(e) => r == Some(Err::<(), String>(e))
                        && final(self).entries == old(self).entries && final(self).selected == old(self).selected
                        && final(self).cursor == old(self).cursor && final(self).size_calc_since == old(self).size_calc_since,
                },
    {
        if self.loading_since.is_none() {
            return None;
        }
        match poll {
            LoadPoll::Pending => None,
            LoadPoll::Disconnected => {
                self.loading_since = None;
                Some(Err(String::from_str("Loading thread disconnected")))
            }
            LoadPoll::Ready(result) => {
                self.loading_since = None;
                if result.path == self.path {
                    match result.entries {
                        Ok(entries) => {
                            let had_cursor = self.cursor.is_some();
                            let nonempty = entries.len() > 0;
                            self.load_entries(entries, now_ms);
                            if nonempty && !had_cursor {
                                self.cursor = Some(0);
                            }
                            Some(Ok(()))
                        }
                        Err(e) => Some(Err(e)),
                    }
                } else {
                    None
                }
            }
        }
    }

    /// Whether a load has run for at least 100 ms, so that "Loading..." shows.
    pub fn is_loading(&self, now_ms: u64) -> (r: bool)
        ensures
            r == match self.loading_since {
                Some(t) => now_ms >= t + LOADING_INDICATOR_THRESHOLD_MS,
                None => false,
            },
    {
        match self.loading_since {
            Some(t) => now_ms >= t && now_ms - t >= LOADING_INDICATOR_THRESHOLD_MS,
            None => false,
        }
    }

    /// Whether a load is pending.
    pub fn is_loading_any(&self) -> (r: bool)
        ensures
            r == self.loading_since is Some,
    {
        self.loading_since.is_some()
    }

    /// Whether a size calculation runs.
    pub fn is_calculating_sizes(&self) -> (r: bool)
        ensures
            r == self.size_calc_since is Some,
    {
        self.size_calc_since.is_some()
    }

    fn patch_size(&mut self, path: &String, size: u64)
        ensures
            final(self).entries@ == patch_from(old(self).entries@, path@, size, 0),
            final(self).path == old(self).path,
            final(self).cursor == old(self).cursor,
            final(self).selected == old(self).selected,
            final(self).show_hidden == old(self).show_hidden,
            final(self).loading_since == old(self).loading_since,
            final(self).size_mode == old(self).size_mode,
            final(self).size_calc_since == old(self).size_calc_since,
    {
        let mut i: usize = 0;
        while i < self.entries.len()
            invariant
                i <= self.entries@.len(),
                *self == *old(self),
                patch_from(self.entries@, path@, size, 0) == patch_from(self.entries@, path@, size, i as int),
            decreases self.entries@.len() - i,
        {
            if self.entries[i].path == *path {
                let ghost before = self.entries@;
                self.entries[i].size = Some(size);
                assert(self.entries@ =~= patch_from(before, path@, size, i as int));
                return;
            }
            i = i + 1;
        }
    }

    /// Applies the size results that arrived, in order, to the items with
    /// their paths (by path, not position: the listing may have been
    /// reloaded meanwhile); `finished` says the calculation has ended. With
    /// no calculation running nothing changes.
    pub fn poll_size_results(&mut self, results: Vec<SizeResult>, finished: bool)
        ensures
            old(self).size_calc_since is None ==> *final(self) == *old(self),
            old(self).size_calc_since is Some ==> final(self).entries@ == patched(old(self).entries@, results@)
                && final(self).size_calc_since == (if finished { None } else { old(self).size_calc_since }),
            final(self).path == old(self).path,
            final(self).cursor == old(self).cursor,
            final(self).selected == old(self).selected,
            final(self).show_hidden == old(self).show_hidden,
            final(self).loading_since == old(self).loading_since,
            final(self).size_mode == old(self).size_mode,
    {
        if self.size_calc_since.is_none() {
            return;
        }
        let mut i: usize = 0;
        assert(results@.subrange(0, 0) =~= Seq::<SizeResult>::empty());
        while i < results.len()
            invariant
                i <= results@.len(),
                self.entries@ == patched(old(self).entries@, results@.subrange(0, i as int)),
                self.path == old(self).path,
                self.cursor == old(self).cursor,
                self.selected == old(self).selected,
                self.show_hidden == old(self).show_hidden,
                self.loading_since == old(self).loading_since,
                self.size_mode == old(self).size_mode,
                self.size_calc_since == old(self).size_calc_since,
            decreases results@.len() - i,
        {
            assert(results@.subrange(0, i + 1).drop_last() =~= results@.subrange(0, i as int));
            self.patch_size(&results[i].path, results[i].size);
            i = i + 1;
        }
        assert(results@.subrange(0, i as int) =~= results@);
        if finished {
            self.size_calc_since = None;
        }
    }

    /// Next size mode; a running size calculation is dropped. The caller
    /// then reloads the listing.
    pub fn cycle_size_mode(&mut self)
        ensures
            final(self).size_mode == next_mode(old(self).size_mode),
            final(self).size_calc_since is None,
            final(self).path == old(self).path,
            final(self).entries == old(self).entries,
            final(self).cursor == old(self).cursor,
            final(self).selected == old(self).selected,
            final(self).show_hidden == old(self).show_hidden,
            final(self).loading_since == old(self).loading_since,
    {
        self.size_mode = self.size_mode.cycle();
        self.size_calc_since = None;
    }

    /// Shows or hides hidden items and puts the cursor on the first item.
    /// The caller then reloads the listing.
    pub fn toggle_hidden(&mut self)
        ensures
            final(self).show_hidden == !old(self).show_hidden,
            final(self).cursor == Some(0usize),
            final(self).path == old(self).path,
            final(self).entries == old(self).entries,
            final(self).selected == old(self).selected,
            final(self).loading_since == old(self).loading_since,
            final(self).size_mode == old(self).size_mode,
            final(self).size_calc_since == old(self).size_calc_since,
    {
        self.show_hidden = !self.show_hidden;
        self.cursor = Some(0);
    }

    /// The item under the cursor.
    pub fn selected_entry(&self) -> (r: Option<&Entry>)
        ensures
            match self.cursor {
                Some(c) => if c < self.entries@.len() { r == Some(&self.entries@[c as int]) } else { r is None },
                None => r is None,
            },
    {
        match self.cursor {
            Some(c) => if c < self.entries.len() { Some(&self.entries[c]) } else { None },
            None => None,
        }
    }

    /// The directory to enter: the path of the item under the cursor when
    /// it is a directory.
    pub fn selected_dir(&self) -> (r: Option<String>)
        ensures
            match self.cursor {
                Some(c) => if c < self.entries@.len() && self.entries@[c as int].is_dir {
                    r is Some && r->Some_0@ == self.entries@[c as int].path@
                } else {
                    r is None
                },
                None => r is None,
            },
    {
        match self.selected_entry() {
            Some(e) => if e.is_dir { Some(e.path.clone()) } else { None },
            None => None,
        }
    }

    pub fn move_up(&mut self)
        ensures
            final(self).cursor == match old(self).cursor {
                Some(c) => if c > 0 { Some((c - 1) as usize) } else { old(self).cursor },
                None => None,
            },
            final(self).entries == old(self).entries,
            final(self).selected == old(self).selected,
            final(self).path == old(self).path,
    {
        match self.cursor {
            Some(c) => if c > 0 { self.cursor = Some(c - 1); },
            None => {}
        }
    }

    pub fn move_down(&mut self)
        ensures
            final(self).cursor == cursor_down(old(self).cursor, old(self).entries@.len()),
            final(self).entries == old(self).entries,
            final(self).selected == old(self).selected,
            final(self).path == old(self).path,
    {
        match self.cursor {
            Some(c) => if self.entries.len() > 0 && c < self.entries.len() - 1 { self.cursor = Some(c + 1); },
            None => {}
        }
    }

    pub fn page_up(&mut self, page_size: usize)
        ensures
            final(self).cursor == match old(self).cursor {
                Some(c) => Some(if c >= page_size { (c - page_size) as usize } else { 0usize }),
                None => None,
            },
            final(self).entries == old(self).entries,
            final(self).selected == old(self).selected,
            final(self).path == old(self).path,
    {
        match self.cursor {
            Some(c) => { self.cursor = Some(if c >= page_size { c - page_size } else { 0 }); },
            None => {}
        }
    }

    pub fn page_down(&mut self, page_size: usize)
        ensures
            final(self).cursor == match old(self).cursor {
                Some(c) => {
                    let last: int = if old(self).entries@.len() > 0 { old(self).entries@.len() - 1 } else { 0 };
                    Some((if c + page_size < last { c + page_size } else { last }) as usize)
                },
                None => None,
            },
            final(self).entries == old(self).entries,
            final(self).selected == old(self).selected,
            final(self).path == old(self).path,
    {
        match self.cursor {
            Some(c) => {
                let last = if self.entries.len() > 0 { self.entries.len() - 1 } else { 0 };
                let target = if c < last && page_size < last - c { c + page_size } else { last };
                self.cursor = Some(target);
            }
            None => {}
        }
    }

    /// Marks or unmarks the item under the cursor, then moves down. ".."
    /// at the top cannot be marked: the cursor just moves down.
    pub fn toggle_selection(&mut self)
        ensures
            final(self).cursor == cursor_down(old(self).cursor, old(self).entries@.len()),
            final(self).entries == old(self).entries,
            final(self).path == old(self).path,
            match old(self).cursor {
                Some(c) => if c == 0 && old(self).entries@.len() > 0 && is_parent_link(old(self).entries@[0]) {
                    final(self).selected == old(self).selected
                } else if old(self).selected@.contains(c) {
                    final(self).selected@ == without(old(self).selected@, c)
                } else {
                    final(self).selected@ == old(self).selected@.push(c)
                },
                None => final(self).selected == old(self).selected,
            },
    {
        match self.cursor {
            Some(c) => {
                if c == 0 && self.entries.len() > 0 && is_parent_name(&self.entries[0].name) {
                    self.move_down();
                    return;
                }
                let mut found = false;
                let mut i: usize = 0;
                while i < self.selected.len()
                    invariant
                        i <= self.selected@.len(),
                        found == self.selected@.subrange(0, i as int).contains(c),
                    decreases self.selected@.len() - i,
                {
                    assert(self.selected@.subrange(0, i + 1) =~= self.selected@.subrange(0, i as int).push(self.selected@[i as int]));
                    let ghost sub = self.selected@.subrange(0, i as int);
                    let ghost next = self.selected@.subrange(0, i + 1);
                    if self.selected[i] == c {
                        found = true;
                        assert(next[i as int] == c);
                    } else {
                        assert(next.contains(c) ==> sub.contains(c)) by {
                            if next.contains(c) {
                                let k = choose|k: int| 0 <= k < next.len() && next[k] == c;
                                assert(sub[k] == c);
                            }
                        }
                        assert(sub.contains(c) ==> next.contains(c)) by {
                            if sub.contains(c) {
                                let k = choose|k: int| 0 <= k < sub.len() && sub[k] == c;
                                assert(next[k] == c);
                            }
                        }
                    }
                    i = i + 1;
                }
                assert(self.selected@.subrange(0, i as int) =~= self.selected@);
                if found {
                    let mut kept: Vec<usize> = Vec::new();
                    let mut j: usize = 0;
                    assert(self.selected@.subrange(0, 0) =~= Seq::<usize>::empty());
                    while j < self.selected.len()
                        invariant
                            j <= self.selected@.len(),
                            kept@ == without(self.selected@.subrange(0, j as int), c),
                        decreases self.selected@.len() - j,
                    {
                        assert(self.selected@.subrange(0, j + 1).drop_last() =~= self.selected@.subrange(0, j as int));
                        if self.selected[j] != c {
                            kept.push(self.selected[j]);
                        }
                        j = j + 1;
                    }
                    assert(self.selected@.subrange(0, j as int) =~= self.selected@);
                    self.selected = kept;
                } else {
                    self.selected.push(c);
                }
                self.move_down();
            }
            None => {}
        }
    }

    /// Marks every item but a leading "..".
    pub fn select_all(&mut self)
        ensures
            ({
                let start: int = if old(self).entries@.len() > 0 && is_parent_link(old(self).entries@[0]) { 1 } else { 0 };
                final(self).selected@ == Seq::new((old(self).entries@.len() - start) as nat, |k: int| (k + start) as usize)
            }),
            final(self).entries == old(self).entries,
            final(self).cursor == old(self).cursor,
            final(self).path == old(self).path,
    {
        let start: usize = if self.entries.len() > 0 && is_parent_name(&self.entries[0].name) { 1 } else { 0 };
        let mut sel: Vec<usize> = Vec::new();
        let mut i: usize = start;
        while i < self.entries.len()
            invariant
                start <= i <= self.entries@.len(),
                start <= 1,
                sel@ == Seq::new((i - start) as nat, |k: int| (k + start) as usize),
            decreases self.entries@.len() - i,
        {
            sel.push(i);
            i = i + 1;
            assert(sel@ =~= Seq::new((i - start) as nat, |k: int| (k + start) as usize));
        }
        self.selected = sel;
    }

    /// The marked items (in marking order), or the item under the cursor
    /// when none is marked.
    pub fn selected_entries(&self) -> (r: Vec<&Entry>)
        ensures
            self.selected@.len() == 0 ==> r@ == match self.cursor {
                Some(c) => if c < self.entries@.len() { seq![&self.entries@[c as int]] } else { seq![] },
                None => seq![],
            },
            self.selected@.len() > 0 ==> r@.len() == picked(self.entries@, self.selected@).len()
                && forall|k: int| 0 <= k < r@.len() ==> *r@[k] == picked(self.entries@, self.selected@)[k],
    {
        let mut r: Vec<&Entry> = Vec::new();
        if self.selected.len() == 0 {
            match self.selected_entry() {
                Some(e) => r.push(e),
                None => {}
            }
            assert(r@ =~= match self.cursor {
                Some(c) => if c < self.entries@.len() { seq![&self.entries@[c as int]] } else { seq![] },
                None => seq![],
            });
            return r;
        }
        let mut i: usize = 0;
        assert(self.selected@.subrange(0, 0) =~= Seq::<usize>::empty());
        while i < self.selected.len()
            invariant
                i <= self.selected@.len(),
                r@.len() == picked(self.entries@, self.selected@.subrange(0, i as int)).len(),
                forall|k: int| 0 <= k < r@.len() ==> *r@[k] == picked(self.entries@, self.selected@.subrange(0, i as int))[k],
            decreases self.selected@.len() - i,
        {
            assert(self.selected@.subrange(0, i + 1).drop_last() =~= self.selected@.subrange(0, i as int));
            let k = self.selected[i];
            if k < self.entries.len() {
                r.push(&self.entries[k]);
            }
            i = i + 1;
        }
        assert(self.selected@.subrange(0, i as int) =~= self.selected@);
        r
    }

    /// Enters directory `new_path` (the canonical form of `selected_dir()`)
    /// whose listing was just read: on success the pane shows it with the
    /// cursor on the first item (in full size mode a size calculation
    /// starts); on a listing error the pane is left as it was and the
    /// error is returned.
    pub fn enter_selected(&mut self, new_path: String, listing: Result<Vec<Entry>, String>, now_ms: u64) -> (r: Result<(), String>)
        ensures
            match listing {
                Ok(es) => r is Ok && final(self).path == new_path && final(self).entries@ == es@
                    && final(self).cursor == Some(0usize) && final(self).selected@.len() == 0
                    && final(self).size_calc_since == (if old(self).size_mode == SizeDisplayMode::Full && dir_targets(es@).len() > 0 { Some(now_ms) } else { None })
                    && final(self).size_mode == old(self).size_mode
                    && final(self).show_hidden == old(self).show_hidden,
                Err(e) => r == Err::<(), String>(e) && *final(self) == *old(self),
            },
    {
        match listing {
            Ok(entries) => {
                self.path = new_path;
                self.load_entries(entries, now_ms);
                self.cursor = Some(0);
                Ok(())
            }
            Err(e) => Err(e),
        }
    }
}


/// `q` occurs in `s` as a contiguous part.
pub open spec fn contains_text(s: Seq<char>, q: Seq<char>) -> bool {
    exists|i: int| 0 <= i <= s.len() - q.len() && #[trigger] s.subrange(i, i + q.len()) == q
}

/// The item's name contains the query, ignoring case.
pub open spec fn name_matches(e: Entry, q: Seq<char>) -> bool {
    contains_text(lower_of(e.name@), lower_of(q))
}

/// The first index in `lo..hi` whose item matches `q`.
pub open spec fn first_match(s: Seq<Entry>, q: Seq<char>, lo: int, hi: int) -> Option<int>
    decreases hi - lo,
{
    if lo >= hi || lo < 0 || hi > s.len() {
        None
    } else if name_matches(s[lo], q) {
        Some(lo)
    } else {
        first_match(s, q, lo + 1, hi)
    }
}

/// Where a search for `q` puts the cursor: the first match in `from..len`,
/// else the first in `0..wrap_end`; `None` when nothing matches.
pub open spec fn search_target(s: Seq<Entry>, q: Seq<char>, from: int, wrap_end: int) -> Option<int> {
    match first_match(s, q, from, s.len() as int) {
        Some(i) => Some(i),
        None => first_match(s, q, 0, wrap_end),
    }
}

fn contains_exec(s: &str, q: &str) -> (r: bool)
    ensures
        r == contains_text(s@, q@),
{
    let ls = s.unicode_len();
    let lq = q.unicode_len();
    if lq > ls {
        assert forall|i: int| 0 <= i <= s@.len() - q@.len() implies #[trigger] s@.subrange(i, i + q@.len()) != q@ by {}
        return false;
    }
    let mut i: usize = 0;
    while i <= ls - lq
        invariant
            ls == s@.len(),
            lq == q@.len(),
            lq <= ls,
            i <= ls - lq + 1,
            forall|k: int| 0 <= k < i ==> #[trigger] s@.subrange(k, k + q@.len()) != q@,
        decreases ls - lq + 1 - i,
    {
        let mut j: usize = 0;
        while j < lq && s.get_char(i + j) == q.get_char(j)
            invariant
                ls == s@.len(),
                lq == q@.len(),
                i + lq <= ls,
                j <= lq,
                forall|m: int| 0 <= m < j ==> s@[i + m] == q@[m],
            decreases lq - j,
        {
            j = j + 1;
        }
        if j == lq {
            assert(s@.subrange(i as int, i + q@.len()) =~= q@);
            return true;
        }
        assert(s@.subrange(i as int, i + q@.len())[j as int] != q@[j as int]);
        i = i + 1;
    }
    false
}

impl PaneState {
    fn first_match_exec(&self, q: &String, lo: usize, hi: usize) -> (r: Option<usize>)
        requires
            hi <= self.entries@.len(),
        ensures
            match first_match(self.entries@, q@, lo as int, hi as int) {
                Some(i) => r == Some(i as usize),
                None => r is None,
            },
    {
        let ql = lowercase(q.as_str());
        let mut i = lo;
        while i < hi
            invariant
                lo <= i,
                hi <= self.entries@.len(),
                ql@ == lower_of(q@),
                first_match(self.entries@, q@, lo as int, hi as int)
                    == first_match(self.entries@, q@, i as int, hi as int),
            decreases hi - i,
        {
            let name = lowercase(self.entries[i].name.as_str());
            if contains_exec(name.as_str(), ql.as_str()) {
                return Some(i);
            }
            i = i + 1;
        }
        None
    }

    /// Moves the cursor to the first item at or after it whose name
    /// contains `query` (ignoring case), wrapping around to the top; the
    /// cursor stays when nothing matches.
    pub fn search_jump(&mut self, query: &String)
        ensures
            ({
                let from: int = match old(self).cursor { Some(c) => c as int, None => 0 };
                let from = if from > old(self).entries@.len() { old(self).entries@.len() as int } else { from };
                match search_target(old(self).entries@, query@, from, from) {
                    Some(i) => final(self).cursor == Some(i as usize),
                    None => final(self).cursor == old(self).cursor,
                }
            }),
            final(self).entries == old(self).entries,
            final(self).selected == old(self).selected,
            final(self).path == old(self).path,
    {
        let len = self.entries.len();
        let cur = match self.cursor { Some(c) => c, None => 0 };
        let from = if cur > len { len } else { cur };
        let found = match self.first_match_exec(query, from, len) {
            Some(i) => Some(i),
            None => self.first_match_exec(query, 0, from),
        };
        match found {
            Some(i) => self.cursor = Some(i),
            None => {}
        }
    }

    /// Moves the cursor to the next item after it whose name contains
    /// `query` (ignoring case), wrapping around up to and including the
    /// cursor's own item; the cursor stays when nothing matches.
    pub fn search_next(&mut self, query: &String)
        ensures
            ({
                let len = old(self).entries@.len() as int;
                let cur: int = match old(self).cursor { Some(c) => c as int, None => 0 };
                let from = if cur + 1 > len { len } else { cur + 1 };
                match search_target(old(self).entries@, query@, from, from) {
                    Some(i) => final(self).cursor == Some(i as usize),
                    None => final(self).cursor == old(self).cursor,
                }
            }),
            final(self).entries == old(self).entries,
            final(self).selected == old(self).selected,
            final(self).path == old(self).path,
    {
        let len = self.entries.len();
        let cur = match self.cursor { Some(c) => c, None => 0 };
        let from = if cur >= len { len } else { cur + 1 };
        let found = match self.first_match_exec(query, from, len) {
            Some(i) => Some(i),
            None => self.first_match_exec(query, 0, from),
        };
        match found {
            Some(i) => self.cursor = Some(i),
            None => {}
        }
    }

    /// The directory above the pane's, if any.
    pub fn parent_dir(&self) -> (r: Option<String>)
        ensures
            match parent_of(self.path@) {
                Some(p) => r is Some && r->Some_0@ == p,
                None => r is None,
            },
    {
        path_parent(&self.path)
    }

    /// Goes up to the parent directory, whose listing was just read: on
    /// success the pane shows it with the cursor on the first item; on a
    /// listing error, or at a root, the pane is left as it was.
    pub fn navigate_to_parent(&mut self, listing: Result<Vec<Entry>, String>, now_ms: u64) -> (r: Result<(), String>)
        ensures
            parent_of(old(self).path@) is None ==> r is Ok && *final(self) == *old(self),
            parent_of(old(self).path@) is Some ==> match listing {
                Ok(es) => r is Ok && final(self).path@ == parent_of(old(self).path@)->Some_0 && final(self).entries@ == es@
                    && final(self).cursor == Some(0usize) && final(self).selected@.len() == 0
                    && final(self).size_calc_since == (if old(self).size_mode == SizeDisplayMode::Full && dir_targets(es@).len() > 0 { Some(now_ms) } else { None })
                    && final(self).size_mode == old(self).size_mode
                    && final(self).show_hidden == old(self).show_hidden,
                Err(e) => r == Err::<(), String>(e) && *final(self) == *old(self),
            },
    {
        match self.parent_dir() {
            Some(p) => self.enter_selected(p, listing, now_ms),
            None => Ok(()),
        }
    }
}

} // verus!
