use window_layout_mcp::geometry::{rect_size, Rect};
use window_layout_mcp::monitor::{get_monitor_info, monitor_record, VisitedMonitor, REFERENCE_DPI};
use window_layout_mcp::process::get_process_name;

fn wide(s: &str, size: usize) -> Vec<u16> {
    let mut v: Vec<u16> = s.encode_utf16().collect();
    while v.len() < size {
        v.push(0);
    }
    v
}

fn monitor(name: &str, flags: u32, dpi: u32) -> VisitedMonitor {
    VisitedMonitor {
        info_read: true,
        device: wide(name, 32),
        monitor: Rect { left: 0, top: 0, right: 2560, bottom: 1440 },
        work: Rect { left: 0, top: 0, right: 2560, bottom: 1392 },
        flags,
        dpi_x: dpi,
    }
}

fn scale(dpi: u32) -> f64 {
    dpi as f64 / REFERENCE_DPI as f64
}

#[test]
fn monitor_record_fields() {
    let r = monitor_record(&monitor("\\\\.\\DISPLAY1", 1, 144));
    assert_eq!(r.name, "\\\\.\\DISPLAY1");
    assert_eq!((r.x, r.y, r.width, r.height), (0, 0, 2560, 1440));
    assert_eq!((r.work_x, r.work_y, r.work_width, r.work_height), (0, 0, 2560, 1392));
    assert!(r.is_primary);
    assert_eq!(r.effective_dpi, 144);
}

#[test]
fn dpi_scale_at_reference_and_one_and_a_half() {
    let at_96 = monitor_record(&monitor("A", 1, 96));
    let at_144 = monitor_record(&monitor("B", 0, 144));
    assert_eq!(scale(at_96.effective_dpi), 1.0);
    assert_eq!(scale(at_144.effective_dpi), 1.5);
}

#[test]
fn failed_dpi_query_gives_zero() {
    let r = monitor_record(&monitor("A", 1, 0));
    assert_eq!(r.effective_dpi, 0);
    assert_eq!(scale(r.effective_dpi), 0.0);
}

#[test]
fn primary_flag_is_bit_zero() {
    assert!(!monitor_record(&monitor("A", 0, 96)).is_primary);
    assert!(!monitor_record(&monitor("A", 2, 96)).is_primary);
    assert!(monitor_record(&monitor("A", 3, 96)).is_primary);
}

#[test]
fn device_name_empty_when_buffer_starts_with_nul() {
    let mut m = monitor("A", 1, 96);
    m.device = vec![0, 65, 66];
    assert_eq!(monitor_record(&m).name, "");
}

#[test]
fn unreadable_monitors_are_dropped() {
    let mut bad = monitor("BAD", 0, 96);
    bad.info_read = false;
    let seen = vec![monitor("ONE", 1, 96), bad, monitor("TWO", 0, 120)];
    let r = get_monitor_info(&seen);
    let names: Vec<String> = r.iter().map(|m| m.name.clone()).collect();
    assert_eq!(names, vec!["ONE".to_string(), "TWO".to_string()]);
}

#[test]
fn scanning_monitors_twice_gives_the_same_records() {
    let seen = vec![monitor("ONE", 1, 96), monitor("TWO", 0, 144)];
    let a: Vec<String> = get_monitor_info(&seen).iter().map(|m| m.name.clone()).collect();
    let b: Vec<String> = get_monitor_info(&seen).iter().map(|m| m.name.clone()).collect();
    assert_eq!(a, b);
    let reordered = vec![monitor("TWO", 0, 144), monitor("ONE", 1, 96)];
    let mut c: Vec<String> = get_monitor_info(&reordered).iter().map(|m| m.name.clone()).collect();
    let mut a2 = a.clone();
    a2.sort();
    c.sort();
    assert_eq!(a2, c);
}

#[test]
fn rect_size_wraps_like_platform_arithmetic() {
    assert_eq!(rect_size(&Rect { left: -100, top: -50, right: 100, bottom: 50 }), (200, 100));
    assert_eq!(rect_size(&Rect { left: i32::MIN, top: 0, right: i32::MAX, bottom: 0 }), (-1, 0));
}

#[test]
fn process_name_is_lowercased_file_name() {
    let path = wide("C:\\Windows\\Explorer.EXE", 260);
    let len = "C:\\Windows\\Explorer.EXE".len() as u32;
    assert_eq!(get_process_name(&path, len), Some("explorer.exe".to_string()));
}

#[test]
fn process_name_without_separator() {
    let path = wide("NOTEPAD.EXE", 260);
    assert_eq!(get_process_name(&path, 11), Some("notepad.exe".to_string()));
}

#[test]
fn process_name_uses_reported_length_only() {
    let path = wide("C:\\a\\b.exeXYZ", 260);
    assert_eq!(get_process_name(&path, 10), Some("b.exe".to_string()));
}

#[test]
fn process_name_fails_on_empty_read() {
    let path = wide("C:\\a.exe", 260);
    assert_eq!(get_process_name(&path, 0), None);
}

#[test]
fn process_name_fails_on_length_past_buffer() {
    let path = wide("C:\\a.exe", 8);
    assert_eq!(get_process_name(&path, 9), None);
}
