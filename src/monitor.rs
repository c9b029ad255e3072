use vstd::prelude::*;
use crate::geometry::{extent, rect_size, Rect};
use crate::text::{buffer_text, decode_buffer, string_of};

verus! {

/// The platform's reference pixel density: a monitor at this effective DPI has
/// a scale of exactly one.
pub const REFERENCE_DPI: u32 = 96;

/// Bit of the monitor flags that marks the primary monitor.
pub const PRIMARY_MONITOR_FLAG: u32 = 1;

/// One active display monitor found by an enumeration.
#[derive(Debug, Clone)]
pub struct MonitorInfo {
    /// Device name.
    pub name: String,
    /// Full width, `right - left`.
    pub width: i32,
    /// Full height, `bottom - top`.
    pub height: i32,
    /// Left edge.
    pub x: i32,
    /// Top edge.
    pub y: i32,
    /// Whether this is the primary monitor.
    pub is_primary: bool,
    /// Width of the work area (without the taskbar and other reserved chrome).
    pub work_width: i32,
    /// Height of the work area.
    pub work_height: i32,
    /// Left edge of the work area.
    pub work_x: i32,
    /// Top edge of the work area.
    pub work_y: i32,
    /// Effective horizontal DPI; the scale is this over `REFERENCE_DPI`, and it is
    /// 0 when the DPI could not be read.
    pub effective_dpi: u32,
}

/// The value a `MonitorInfo` stands for.
pub struct MonitorView {
    pub name: Seq<char>,
    pub width: i32,
    pub height: i32,
    pub x: i32,
    pub y: i32,
    pub is_primary: bool,
    pub work_width: i32,
    pub work_height: i32,
    pub work_x: i32,
    pub work_y: i32,
    pub effective_dpi: u32,
}

impl View for MonitorInfo {
    type V = MonitorView;

    open spec fn view(&self) -> MonitorView {
        MonitorView {
            name: self.name@,
            width: self.width,
            height: self.height,
            x: self.x,
            y: self.y,
            is_primary: self.is_primary,
            work_width: self.work_width,
            work_height: self.work_height,
            work_x: self.work_x,
            work_y: self.work_y,
            effective_dpi: self.effective_dpi,
        }
    }
}

/// What one visit of the monitor enumeration read of a monitor.
pub struct VisitedMonitor {
    /// Whether the monitor's basic information could be read; the other fields
    /// mean nothing when it could not.
    pub info_read: bool,
    /// The device-name buffer as the platform filled it.
    pub device: Vec<u16>,
    /// Full monitor rectangle.
    pub monitor: Rect,
    /// Work-area rectangle.
    pub work: Rect,
    /// Monitor flags.
    pub flags: u32,
    /// Effective horizontal DPI; 0 when the query failed.
    pub dpi_x: u32,
}

/// The record reported for a visited monitor.
pub open spec fn monitor_record_of(m: VisitedMonitor) -> MonitorView {
    MonitorView {
        name: buffer_text(m.device@),
        width: extent(m.monitor.left, m.monitor.right),
        height: extent(m.monitor.top, m.monitor.bottom),
        x: m.monitor.left,
        y: m.monitor.top,
        is_primary: m.flags & PRIMARY_MONITOR_FLAG != 0,
        work_width: extent(m.work.left, m.work.right),
        work_height: extent(m.work.top, m.work.bottom),
        work_x: m.work.left,
        work_y: m.work.top,
        effective_dpi: m.dpi_x,
    }
}

/// Builds the record reported for a visited monitor.
pub fn monitor_record(m: &VisitedMonitor) -> (r: MonitorInfo)
    ensures
        r@ == monitor_record_of(*m),
{
    let (width, height) = rect_size(&m.monitor);
    let (work_width, work_height) = rect_size(&m.work);
    MonitorInfo {
        name: string_of(&decode_buffer(m.device.as_slice())),
        width,
        height,
        x: m.monitor.left,
        y: m.monitor.top,
        is_primary: m.flags & PRIMARY_MONITOR_FLAG != 0,
        work_width,
        work_height,
        work_x: m.work.left,
        work_y: m.work.top,
        effective_dpi: m.dpi_x,
    }
}

/// The records of a monitor enumeration that visited `seen`, in the order visited.
pub open spec fn monitor_scan_result(seen: Seq<VisitedMonitor>) -> Seq<MonitorView>
    decreases seen.len(),
{
    if seen.len() == 0 {
        Seq::empty()
    } else {
        let before = monitor_scan_result(seen.drop_last());
        if seen.last().info_read {
            before.push(monitor_record_of(seen.last()))
        } else {
            before
        }
    }
}

/// Turns what a monitor enumeration visited into the records it reports: one for
/// each monitor whose information could be read, in the order visited.
pub fn get_monitor_info(seen: &Vec<VisitedMonitor>) -> (r: Vec<MonitorInfo>)
    ensures
        r@.map_values(|m: MonitorInfo| m@) == monitor_scan_result(seen@),
{
    let mut out: Vec<MonitorInfo> = Vec::new();
    let mut i: usize = 0;
    while i < seen.len()
        invariant
            i <= seen@.len(),
            out@.map_values(|m: MonitorInfo| m@) == monitor_scan_result(seen@.take(i as int)),
        decreases seen@.len() - i,
    {
        assert(seen@.take(i + 1).drop_last() =~= seen@.take(i as int));
        if seen[i].info_read {
            out.push(monitor_record(&seen[i]));
        }
        i = i + 1;
        assert(out@.map_values(|m: MonitorInfo| m@) =~= monitor_scan_result(seen@.take(i as int)));
    }
    assert(seen@.take(seen@.len() as int) =~= seen@);
    out
}

/// A record belongs to the result of a monitor enumeration exactly when some
/// visited monitor whose information was read gives that record.
pub proof fn lemma_monitor_scan_members(seen: Seq<VisitedMonitor>, v: MonitorView)
    ensures
        monitor_scan_result(seen).contains(v) <==> exists|j: int|
            0 <= j < seen.len() && (#[trigger] seen[j]).info_read && monitor_record_of(seen[j]) == v,
    decreases seen.len(),
{
    if seen.len() > 0 {
        let before = seen.drop_last();
        lemma_monitor_scan_members(before, v);
        let r = monitor_scan_result(seen);
        if r.contains(v) {
            if monitor_scan_result(before).contains(v) {
                let j = choose|j: int|
                    0 <= j < before.len() && (#[trigger] before[j]).info_read
                        && monitor_record_of(before[j]) == v;
                assert(seen[j] == before[j]);
            } else {
                let k = choose|k: int| 0 <= k < r.len() && r[k] == v;
                assert(k == r.len() - 1);
                assert(seen[seen.len() - 1].info_read);
            }
        }
        if exists|j: int|
            0 <= j < seen.len() && (#[trigger] seen[j]).info_read && monitor_record_of(seen[j]) == v {
            let j = choose|j: int|
                0 <= j < seen.len() && (#[trigger] seen[j]).info_read && monitor_record_of(seen[j])
                    == v;
            if j < seen.len() - 1 {
                assert(before[j] == seen[j]);
                let b = monitor_scan_result(before);
                let k = choose|k: int| 0 <= k < b.len() && b[k] == v;
                if seen.last().info_read {
                    assert(r[k] == v);
                }
            } else {
                assert(r[r.len() - 1] == v);
            }
        }
    }
}

/// Two monitor enumerations that visited the same set of monitors, in any order,
/// report the same set of records.
pub proof fn lemma_monitor_scan_order_independent(a: Seq<VisitedMonitor>, b: Seq<VisitedMonitor>)
    requires
        a.to_set() == b.to_set(),
    ensures
        monitor_scan_result(a).to_set() == monitor_scan_result(b).to_set(),
{
    assert forall|v: MonitorView|
        monitor_scan_result(a).to_set().contains(v) implies monitor_scan_result(b).to_set().contains(v) by {
        lemma_monitor_scan_members(a, v);
        lemma_monitor_scan_members(b, v);
        let j = choose|j: int|
            0 <= j < a.len() && (#[trigger] a[j]).info_read && monitor_record_of(a[j]) == v;
        assert(a.to_set().contains(a[j]));
        assert(b.to_set().contains(a[j]));
        let i = choose|i: int| 0 <= i < b.len() && b[i] == a[j];
        assert(b[i].info_read);
    }
    assert forall|v: MonitorView|
        monitor_scan_result(b).to_set().contains(v) implies monitor_scan_result(a).to_set().contains(v) by {
        lemma_monitor_scan_members(a, v);
        lemma_monitor_scan_members(b, v);
        let j = choose|j: int|
            0 <= j < b.len() && (#[trigger] b[j]).info_read && monitor_record_of(b[j]) == v;
        assert(b.to_set().contains(b[j]));
        assert(a.to_set().contains(b[j]));
        let i = choose|i: int| 0 <= i < a.len() && a[i] == b[j];
        assert(a[i].info_read);
    }
    assert(monitor_scan_result(a).to_set() =~= monitor_scan_result(b).to_set());
}

} // verus!
