use bitconf::hit::{hit_list_row, hit_tab, Rect};
use bitconf::probe::{parse_pid, probe_status, resolve_pid_path, ProbeStatus};

#[test]
fn list_press_inside_interior_selects_row() {
    let region = Rect { x: 2, y: 5, width: 20, height: 10 };
    // first interior row is y = 6, addressing row 0
    assert_eq!(hit_list_row(region, 3, 6, 0, 8), Some(0));
    // two rows further down, with a scroll offset of 4
    assert_eq!(hit_list_row(region, 3, 8, 4, 8), Some(6));
}

#[test]
fn list_press_on_border_or_outside_misses() {
    let region = Rect { x: 2, y: 5, width: 20, height: 10 };
    // the one-cell border does not address a row
    assert_eq!(hit_list_row(region, 2, 6, 0, 8), None);
    assert_eq!(hit_list_row(region, 3, 5, 0, 8), None);
    assert_eq!(hit_list_row(region, 21, 6, 0, 8), None);
    assert_eq!(hit_list_row(region, 3, 14, 0, 8), None);
    // outside entirely
    assert_eq!(hit_list_row(region, 40, 40, 0, 8), None);
}

#[test]
fn list_press_beyond_length_misses() {
    let region = Rect { x: 0, y: 0, width: 10, height: 10 };
    assert_eq!(hit_list_row(region, 1, 8, 0, 3), None);
    assert_eq!(hit_list_row(region, 1, 3, 1, 3), None);
}

#[test]
fn tab_press_selects_by_accumulated_width() {
    // three tabs of rendered widths 6, 4, 9
    let widths = vec![6usize, 4, 9];
    assert_eq!(hit_tab(&widths, 0), Some(0));
    assert_eq!(hit_tab(&widths, 5), Some(0));
    assert_eq!(hit_tab(&widths, 6), Some(1));
    assert_eq!(hit_tab(&widths, 9), Some(1));
    assert_eq!(hit_tab(&widths, 10), Some(2));
    assert_eq!(hit_tab(&widths, 18), Some(2));
    assert_eq!(hit_tab(&widths, 19), None);
}

#[test]
fn resolve_pid_path_cases() {
    assert_eq!(resolve_pid_path("/home/user/.bitcoin", ""), None);
    assert_eq!(
        resolve_pid_path("/home/user/.bitcoin", "/run/bitcoind.pid").as_deref(),
        Some("/run/bitcoind.pid")
    );
    assert_eq!(
        resolve_pid_path("/home/user/.bitcoin", "bitcoind.pid").as_deref(),
        Some("/home/user/.bitcoin/bitcoind.pid")
    );
}

#[test]
fn parse_pid_reads_trimmed_digits() {
    assert_eq!(parse_pid("12345\n"), Some(12345));
    assert_eq!(parse_pid("  42  "), Some(42));
    assert_eq!(parse_pid(""), None);
    assert_eq!(parse_pid("12a4"), None);
    assert_eq!(parse_pid("-5"), None);
    // beyond the largest representable process id
    assert_eq!(parse_pid("99999999999999999999999999"), None);
    assert_eq!(parse_pid("18446744073709551615"), Some(u64::MAX));
}

#[test]
fn probe_status_tri_state() {
    assert_eq!(probe_status(None, false), ProbeStatus::Unknown);
    assert_eq!(probe_status(None, true), ProbeStatus::Unknown);
    assert_eq!(probe_status(Some(7), true), ProbeStatus::Running);
    assert_eq!(probe_status(Some(7), false), ProbeStatus::Stopped);
}
