use window_layout_mcp::geometry::Rect;
use window_layout_mcp::window::{is_relevant_window, scan_windows, window_record, VisitedWindow, WindowInfo};

const OWN_PID: u32 = 4242;

fn wide(s: &str, size: usize) -> Vec<u16> {
    let mut v: Vec<u16> = s.encode_utf16().collect();
    while v.len() < size {
        v.push(0);
    }
    v
}

fn visited(handle: isize, title: &str, pid: u32, class: &str) -> VisitedWindow {
    VisitedWindow {
        handle,
        visible: true,
        title: wide(title, 512),
        process_id: pid,
        class_name: wide(class, 512),
        rect: Rect { left: 10, top: 20, right: 810, bottom: 620 },
        process_name: Some("notepad.exe".to_string()),
    }
}

fn titles(r: &[WindowInfo]) -> Vec<String> {
    r.iter().map(|w| w.title.clone()).collect()
}

#[test]
fn relevant_window_becomes_record() {
    let seen = vec![visited(7, "Untitled - Notepad", 1000, "Notepad")];
    let r = scan_windows(&seen, OWN_PID);
    assert_eq!(r.len(), 1);
    assert_eq!(r[0].handle, 7);
    assert_eq!(r[0].title, "Untitled - Notepad");
    assert_eq!((r[0].x, r[0].y, r[0].width, r[0].height), (10, 20, 800, 600));
    assert_eq!(r[0].process_name.as_deref(), Some("notepad.exe"));
}

#[test]
fn blank_titles_are_excluded() {
    let seen = vec![
        visited(1, "", 1000, "A"),
        visited(2, "   \t ", 1000, "A"),
        visited(3, "\u{3000}", 1000, "A"),
        visited(4, " x ", 1000, "A"),
    ];
    let r = scan_windows(&seen, OWN_PID);
    assert_eq!(titles(&r), vec![" x ".to_string()]);
    for w in &r {
        assert!(!w.title.trim().is_empty());
    }
}

#[test]
fn own_and_reserved_processes_are_excluded() {
    let seen = vec![
        visited(1, "mine", OWN_PID, "A"),
        visited(2, "system", 4, "A"),
        visited(3, "idle", 0, "A"),
        visited(4, "first user pid", 5, "A"),
    ];
    let r = scan_windows(&seen, OWN_PID);
    assert_eq!(titles(&r), vec!["first user pid".to_string()]);
}

#[test]
fn shell_chrome_and_desktop_root_are_excluded() {
    let seen = vec![
        visited(1, "Taskbar", 1000, "Shell_TrayWnd"),
        visited(2, "Secondary", 1000, "Shell_SecondaryTrayWnd_Shell_TrayWnd"),
        visited(3, "Overflow", 1000, "NotifyIconOverflowWindow"),
        visited(4, "  Program Manager ", 1000, "Progman"),
        visited(5, "Program Manager - notes", 1000, "Notepad"),
        visited(6, "Shell_TrayWnd", 1000, "Notepad"),
    ];
    let r = scan_windows(&seen, OWN_PID);
    assert_eq!(
        titles(&r),
        vec!["Program Manager - notes".to_string(), "Shell_TrayWnd".to_string()]
    );
}

#[test]
fn invisible_windows_are_excluded() {
    let mut w = visited(1, "hidden", 1000, "A");
    w.visible = false;
    assert!(!is_relevant_window(&w, OWN_PID));
    assert!(scan_windows(&vec![w], OWN_PID).is_empty());
}

#[test]
fn enumeration_order_is_kept() {
    let seen = vec![
        visited(3, "c", 1000, "A"),
        visited(1, "a", 1000, "A"),
        visited(2, "b", 1000, "A"),
    ];
    let r = scan_windows(&seen, OWN_PID);
    let handles: Vec<isize> = r.iter().map(|w| w.handle).collect();
    assert_eq!(handles, vec![3, 1, 2]);
}

#[test]
fn title_stops_at_first_nul() {
    let mut w = visited(1, "", 1000, "A");
    w.title = vec![72, 105, 0, 88, 88];
    assert_eq!(window_record(&w).title, "Hi");
}

#[test]
fn title_without_nul_uses_whole_buffer() {
    let mut w = visited(1, "", 1000, "A");
    w.title = vec![72, 105, 33];
    assert_eq!(window_record(&w).title, "Hi!");
}

#[test]
fn title_decodes_lossily() {
    let mut w = visited(1, "", 1000, "A");
    w.title = vec![0x41, 0xD800, 0x42, 0];
    assert_eq!(window_record(&w).title, "A\u{FFFD}B");
}

#[test]
fn degenerate_rectangles_are_not_clamped() {
    let mut w = visited(1, "t", 1000, "A");
    w.rect = Rect { left: 50, top: 60, right: 40, bottom: 60 };
    let r = window_record(&w);
    assert_eq!((r.x, r.y, r.width, r.height), (50, 60, -10, 0));
}

#[test]
fn missing_process_name_is_kept_as_none() {
    let mut w = visited(1, "t", 1000, "A");
    w.process_name = None;
    let r = scan_windows(&vec![w], OWN_PID);
    assert_eq!(r.len(), 1);
    assert!(r[0].process_name.is_none());
}

#[test]
fn scanning_twice_gives_the_same_records() {
    let seen = vec![
        visited(1, "a", 1000, "A"),
        visited(2, "", 1000, "A"),
        visited(3, "c", 1000, "B"),
    ];
    let first = scan_windows(&seen, OWN_PID);
    let second = scan_windows(&seen, OWN_PID);
    assert_eq!(titles(&first), titles(&second));
    let reordered = vec![
        visited(3, "c", 1000, "B"),
        visited(1, "a", 1000, "A"),
        visited(2, "", 1000, "A"),
    ];
    let third = scan_windows(&reordered, OWN_PID);
    let mut a = titles(&first);
    let mut b = titles(&third);
    a.sort();
    b.sort();
    assert_eq!(a, b);
}
