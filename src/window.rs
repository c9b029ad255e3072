use vstd::prelude::*;
use crate::geometry::{extent, rect_size, Rect};
use crate::text::{buffer_text, contains, contains_text, decode_buffer, same_text, string_of, trim, trimmed};

verus! {

/// One top-level window found by an enumeration.
#[derive(Debug, Clone)]
pub struct WindowInfo {
    /// Platform window handle.
    pub handle: isize,
    /// Window title.
    pub title: String,
    /// Outer width, `right - left`.
    pub width: i32,
    /// Outer height, `bottom - top`.
    pub height: i32,
    /// Left edge.
    pub x: i32,
    /// Top edge.
    pub y: i32,
    /// Lower-case executable name of the owning process, when it could be read.
    pub process_name: Option<String>,
}

/// The value a `WindowInfo` stands for.
pub struct WindowView {
    pub handle: isize,
    pub title: Seq<char>,
    pub width: i32,
    pub height: i32,
    pub x: i32,
    pub y: i32,
    pub process_name: Option<Seq<char>>,
}

pub open spec fn opt_text(s: Option<String>) -> Option<Seq<char>> {
    match s {
        Some(t) => Some(t@),
        None => None,
    }
}

impl View for WindowInfo {
    type V = WindowView;

    open spec fn view(&self) -> WindowView {
        WindowView {
            handle: self.handle,
            title: self.title@,
            width: self.width,
            height: self.height,
            x: self.x,
            y: self.y,
            process_name: opt_text(self.process_name),
        }
    }
}

/// What one visit of the window enumeration read of a top-level window.
pub struct VisitedWindow {
    pub handle: isize,
    /// Whether the window system reports the window visible.
    pub visible: bool,
    /// The title buffer as the window system filled it.
    pub title: Vec<u16>,
    /// Identifier of the owning process.
    pub process_id: u32,
    /// The class-name buffer as the window system filled it.
    pub class_name: Vec<u16>,
    /// Outer window rectangle.
    pub rect: Rect,
    /// Executable name of the owning process, when resolved.
    pub process_name: Option<String>,
}

/// Class name of the taskbar.
pub open spec fn tray_class() -> Seq<char> {
    seq!['S', 'h', 'e', 'l', 'l', '_', 'T', 'r', 'a', 'y', 'W', 'n', 'd']
}

/// Class name of the notification-area overflow window.
pub open spec fn overflow_class() -> Seq<char> {
    seq![
        'N', 'o', 't', 'i', 'f', 'y', 'I', 'c', 'o', 'n', 'O', 'v', 'e', 'r', 'f', 'l', 'o', 'w',
        'W', 'i', 'n', 'd', 'o', 'w',
    ]
}

/// Title of the desktop shell's root window.
pub open spec fn desktop_title() -> Seq<char> {
    seq!['P', 'r', 'o', 'g', 'r', 'a', 'm', ' ', 'M', 'a', 'n', 'a', 'g', 'e', 'r']
}

fn tray_class_chars() -> (r: Vec<char>)
    ensures
        r@ == tray_class(),
{
    let r = vec!['S', 'h', 'e', 'l', 'l', '_', 'T', 'r', 'a', 'y', 'W', 'n', 'd'];
    assert(r@ =~= tray_class());
    r
}

fn overflow_class_chars() -> (r: Vec<char>)
    ensures
        r@ == overflow_class(),
{
    let r = vec![
        'N', 'o', 't', 'i', 'f', 'y', 'I', 'c', 'o', 'n', 'O', 'v', 'e', 'r', 'f', 'l', 'o', 'w',
        'W', 'i', 'n', 'd', 'o', 'w',
    ];
    assert(r@ =~= overflow_class());
    r
}

fn desktop_title_chars() -> (r: Vec<char>)
    ensures
        r@ == desktop_title(),
{
    let r = vec!['P', 'r', 'o', 'g', 'r', 'a', 'm', ' ', 'M', 'a', 'n', 'a', 'g', 'e', 'r'];
    assert(r@ =~= desktop_title());
    r
}

/// Process identifiers that the platform reserves for itself.
pub const RESERVED_PROCESS_ID_MAX: u32 = 4;

/// Whether a visited window is user content that an enumeration reports: it is
/// visible, has a title that is not blank, belongs to neither a reserved process
/// nor the caller's own process `own_pid`, is not shell chrome, and is not the
/// desktop shell's root window.
pub open spec fn is_relevant(w: VisitedWindow, own_pid: u32) -> bool {
    let title = trimmed(buffer_text(w.title@));
    let class = buffer_text(w.class_name@);
    &&& w.visible
    &&& title.len() > 0
    &&& w.process_id > RESERVED_PROCESS_ID_MAX
    &&& w.process_id != own_pid
    &&& !contains(class, tray_class())
    &&& !contains(class, overflow_class())
    &&& title != desktop_title()
}

/// The record reported for a visited window.
pub open spec fn record_of(w: VisitedWindow) -> WindowView {
    WindowView {
        handle: w.handle,
        title: buffer_text(w.title@),
        width: extent(w.rect.left, w.rect.right),
        height: extent(w.rect.top, w.rect.bottom),
        x: w.rect.left,
        y: w.rect.top,
        process_name: opt_text(w.process_name),
    }
}

/// Decides whether a visited window is reported by an enumeration made by the
/// process `own_pid`.
pub fn is_relevant_window(w: &VisitedWindow, own_pid: u32) -> (r: bool)
    ensures
        r == is_relevant(*w, own_pid),
{
    if !w.visible {
        return false;
    }
    let title = trim(&decode_buffer(w.title.as_slice()));
    if title.len() == 0 {
        return false;
    }
    if w.process_id <= RESERVED_PROCESS_ID_MAX || w.process_id == own_pid {
        return false;
    }
    let class = decode_buffer(w.class_name.as_slice());
    if contains_text(&class, &tray_class_chars()) || contains_text(&class, &overflow_class_chars()) {
        return false;
    }
    !same_text(&title, &desktop_title_chars())
}

/// Builds the record reported for a visited window.
pub fn window_record(w: &VisitedWindow) -> (r: WindowInfo)
    ensures
        r@ == record_of(*w),
{
    let (width, height) = rect_size(&w.rect);
    let title = string_of(&decode_buffer(w.title.as_slice()));
    let process_name = match &w.process_name {
        Some(name) => Some(name.clone()),
        None => None,
    };
    WindowInfo { handle: w.handle, title, width, height, x: w.rect.left, y: w.rect.top, process_name }
}

/// The records of an enumeration that visited `seen`, in the order visited.
pub open spec fn scan_result(seen: Seq<VisitedWindow>, own_pid: u32) -> Seq<WindowView>
    decreases seen.len(),
{
    if seen.len() == 0 {
        Seq::empty()
    } else {
        let before = scan_result(seen.drop_last(), own_pid);
        if is_relevant(seen.last(), own_pid) {
            before.push(record_of(seen.last()))
        } else {
            before
        }
    }
}

/// Turns what an enumeration made by process `own_pid` visited into the records it
/// reports: one for each relevant window, in the order visited.
pub fn scan_windows(seen: &Vec<VisitedWindow>, own_pid: u32) -> (r: Vec<WindowInfo>)
    ensures
        r@.map_values(|w: WindowInfo| w@) == scan_result(seen@, own_pid),
{
    let mut out: Vec<WindowInfo> = Vec::new();
    let mut i: usize = 0;
    while i < seen.len()
        invariant
            i <= seen@.len(),
            out@.map_values(|w: WindowInfo| w@) == scan_result(seen@.take(i as int), own_pid),
        decreases seen@.len() - i,
    {
        assert(seen@.take(i + 1).drop_last() =~= seen@.take(i as int));
        if is_relevant_window(&seen[i], own_pid) {
            out.push(window_record(&seen[i]));
        }
        i = i + 1;
        assert(out@.map_values(|w: WindowInfo| w@) =~= scan_result(seen@.take(i as int), own_pid));
    }
    assert(seen@.take(seen@.len() as int) =~= seen@);
    out
}

/// A record belongs to the result of an enumeration exactly when some relevant
/// window that it visited gives that record.
pub proof fn lemma_scan_members(seen: Seq<VisitedWindow>, own_pid: u32, v: WindowView)
    ensures
        scan_result(seen, own_pid).contains(v) <==> exists|j: int|
            0 <= j < seen.len() && is_relevant(#[trigger] seen[j], own_pid) && record_of(seen[j])
                == v,
    decreases seen.len(),
{
    if seen.len() > 0 {
        let before = seen.drop_last();
        lemma_scan_members(before, own_pid, v);
        let r = scan_result(seen, own_pid);
        if r.contains(v) {
            if scan_result(before, own_pid).contains(v) {
                let j = choose|j: int|
                    0 <= j < before.len() && is_relevant(#[trigger] before[j], own_pid)
                        && record_of(before[j]) == v;
                assert(seen[j] == before[j]);
            } else {
                let k = choose|k: int| 0 <= k < r.len() && r[k] == v;
                assert(k == r.len() - 1);
                assert(is_relevant(seen[seen.len() - 1], own_pid));
            }
        }
        if exists|j: int|
            0 <= j < seen.len() && is_relevant(#[trigger] seen[j], own_pid) && record_of(seen[j])
                == v {
            let j = choose|j: int|
                0 <= j < seen.len() && is_relevant(#[trigger] seen[j], own_pid)
                    && record_of(seen[j]) == v;
            if j < seen.len() - 1 {
                assert(before[j] == seen[j]);
                let b = scan_result(before, own_pid);
                let k = choose|k: int| 0 <= k < b.len() && b[k] == v;
                if is_relevant(seen.last(), own_pid) {
                    assert(r[k] == v);
                }
            } else {
                assert(r[r.len() - 1] == v);
            }
        }
    }
}

/// Every record an enumeration reports comes from a visited window that is visible,
/// has a title that is not blank once trimmed, belongs to neither a reserved process
/// nor the enumerating process, has neither shell-chrome class, and is not the
/// desktop shell's root window; the record carries that window's title.
pub proof fn lemma_scan_records_relevant(seen: Seq<VisitedWindow>, own_pid: u32, k: int)
    requires
        0 <= k < scan_result(seen, own_pid).len(),
    ensures
        trimmed(scan_result(seen, own_pid)[k].title).len() > 0,
        trimmed(scan_result(seen, own_pid)[k].title) != desktop_title(),
        exists|j: int|
            0 <= j < seen.len() && #[trigger] record_of(seen[j]) == scan_result(seen, own_pid)[k] && {
                let w = seen[j];
                &&& w.visible
                &&& w.process_id != own_pid
                &&& w.process_id > RESERVED_PROCESS_ID_MAX
                &&& !contains(buffer_text(w.class_name@), tray_class())
                &&& !contains(buffer_text(w.class_name@), overflow_class())
                &&& trimmed(buffer_text(w.title@)).len() > 0
            },
{
    let v = scan_result(seen, own_pid)[k];
    lemma_scan_members(seen, own_pid, v);
    let j = choose|j: int|
        0 <= j < seen.len() && is_relevant(#[trigger] seen[j], own_pid) && record_of(seen[j]) == v;
    assert(record_of(seen[j]) == v);
}

/// Two enumerations that visited the same set of windows, in any order, report the
/// same set of records.
pub proof fn lemma_scan_order_independent(a: Seq<VisitedWindow>, b: Seq<VisitedWindow>, own_pid: u32)
    requires
        a.to_set() == b.to_set(),
    ensures
        scan_result(a, own_pid).to_set() == scan_result(b, own_pid).to_set(),
{
    assert forall|v: WindowView|
        scan_result(a, own_pid).to_set().contains(v) implies scan_result(b, own_pid).to_set().contains(v) by {
        lemma_scan_members(a, own_pid, v);
        lemma_scan_members(b, own_pid, v);
        let j = choose|j: int|
            0 <= j < a.len() && is_relevant(#[trigger] a[j], own_pid) && record_of(a[j]) == v;
        assert(a.to_set().contains(a[j]));
        assert(b.to_set().contains(a[j]));
        let i = choose|i: int| 0 <= i < b.len() && b[i] == a[j];
        assert(is_relevant(b[i], own_pid));
    }
    assert forall|v: WindowView|
        scan_result(b, own_pid).to_set().contains(v) implies scan_result(a, own_pid).to_set().contains(v) by {
        lemma_scan_members(a, own_pid, v);
        lemma_scan_members(b, own_pid, v);
        let j = choose|j: int|
            0 <= j < b.len() && is_relevant(#[trigger] b[j], own_pid) && record_of(b[j]) == v;
        assert(b.to_set().contains(b[j]));
        assert(a.to_set().contains(b[j]));
        let i = choose|i: int| 0 <= i < a.len() && a[i] == b[j];
        assert(is_relevant(a[i], own_pid));
    }
    assert(scan_result(a, own_pid).to_set() =~= scan_result(b, own_pid).to_set());
}

/// No two of `seen` have the same handle.
pub open spec fn handles_distinct(seen: Seq<VisitedWindow>) -> bool {
    forall|i: int, j: int|
        0 <= i < seen.len() && 0 <= j < seen.len() && i != j ==> #[trigger] seen[i].handle
            != #[trigger] seen[j].handle
}

/// No two of `records` have the same handle.
pub open spec fn record_handles_distinct(records: Seq<WindowView>) -> bool {
    forall|i: int, j: int|
        0 <= i < records.len() && 0 <= j < records.len() && i != j ==> #[trigger] records[i].handle
            != #[trigger] records[j].handle
}

/// An enumeration that visited each window once reports each handle at most once.
pub proof fn lemma_scan_handles_distinct(seen: Seq<VisitedWindow>, own_pid: u32)
    requires
        handles_distinct(seen),
    ensures
        record_handles_distinct(scan_result(seen, own_pid)),
    decreases seen.len(),
{
    if seen.len() > 0 {
        let before = seen.drop_last();
        assert(handles_distinct(before)) by {
            assert forall|i: int, j: int|
                0 <= i < before.len() && 0 <= j < before.len() && i != j implies #[trigger] before[i].handle
                    != #[trigger] before[j].handle by {
                assert(before[i] == seen[i] && before[j] == seen[j]);
            }
        }
        lemma_scan_handles_distinct(before, own_pid);
        let b = scan_result(before, own_pid);
        let last = seen.last();
        if is_relevant(last, own_pid) {
            let r = scan_result(seen, own_pid);
            assert forall|k: int| 0 <= k < b.len() implies #[trigger] b[k].handle != last.handle by {
                lemma_scan_members(before, own_pid, b[k]);
                assert(b.contains(b[k]));
                let j = choose|j: int|
                    0 <= j < before.len() && is_relevant(#[trigger] before[j], own_pid)
                        && record_of(before[j]) == b[k];
                assert(before[j] == seen[j]);
                assert(seen[j].handle != seen[seen.len() - 1].handle);
            }
            assert forall|i: int, j: int|
                0 <= i < r.len() && 0 <= j < r.len() && i != j implies #[trigger] r[i].handle
                    != #[trigger] r[j].handle by {
                if i < b.len() && j < b.len() {
                    assert(r[i] == b[i] && r[j] == b[j]);
                } else if i < b.len() {
                    assert(r[i] == b[i]);
                } else {
                    assert(r[j] == b[j]);
                }
            }
        }
    }
}

} // verus!
