use leanbar::text::{parse_trimmed_u32, parse_u32, parse_u8};
use leanbar::workspace::{
    parse_active_workspace, parse_event, parse_workspace_list, WorkspaceAction, WorkspaceEvent,
};
use leanbar::StateBus;

fn ev(action: WorkspaceAction, workspace: u8) -> Option<WorkspaceEvent> {
    Some(WorkspaceEvent { action, workspace })
}

#[test]
fn events_of_the_grammar() {
    assert_eq!(parse_event("workspace>>3"), ev(WorkspaceAction::Focus, 3));
    assert_eq!(parse_event("createworkspace>>10"), ev(WorkspaceAction::Create, 10));
    assert_eq!(parse_event("destroyworkspace>>1"), ev(WorkspaceAction::Destroy, 1));
    assert_eq!(parse_event("  workspace>>7\r\n"), ev(WorkspaceAction::Focus, 7));
    assert_eq!(parse_event("workspace>>+4"), ev(WorkspaceAction::Focus, 4));
}

#[test]
fn events_out_of_range_or_malformed_are_ignored() {
    assert_eq!(parse_event("workspace>>0"), None);
    assert_eq!(parse_event("workspace>>11"), None);
    assert_eq!(parse_event("createworkspace>>256"), None);
    assert_eq!(parse_event("workspace>>"), None);
    assert_eq!(parse_event("workspace>>3x"), None);
    assert_eq!(parse_event("workspacev2>>3,3"), None);
    assert_eq!(parse_event("activewindow>>kitty,~"), None);
    assert_eq!(parse_event(""), None);
}

#[test]
fn decimal_u8() {
    assert_eq!(parse_u8(b"0"), Some(0));
    assert_eq!(parse_u8(b"255"), Some(255));
    assert_eq!(parse_u8(b"0255"), Some(255));
    assert_eq!(parse_u8(b"256"), None);
    assert_eq!(parse_u8(b"99999999999"), None);
    assert_eq!(parse_u8(b"+"), None);
    assert_eq!(parse_u8(b"-1"), None);
    assert_eq!(parse_u8(b""), None);
}

#[test]
fn active_workspace_from_query() {
    let out = "workspace ID 4 (4) on monitor DP-1:\n\tmonitorID: 0\n\twindows: 2\n";
    assert_eq!(parse_active_workspace(out), Some(4));
    assert_eq!(parse_active_workspace("workspace ID 12 (12) on monitor X:"), None);
    assert_eq!(parse_active_workspace("no workspace here"), None);
    assert_eq!(parse_active_workspace("xx workspace ID  9 rest"), Some(9));
    assert_eq!(parse_active_workspace("workspace ID \u{a0}7\u{2003}(7)"), Some(7));
    assert_eq!(parse_active_workspace("workspace ID \n7"), None);
}

#[test]
fn workspace_list_from_query() {
    let out = "workspace ID 1 (1) on monitor DP-1:\n\twindows: 1\n\nworkspace ID 3 (3) on monitor DP-1:\n\nworkspace ID -98 (special) on monitor DP-1:\nworkspace ID 10 (10) on monitor DP-1:\n  workspace ID 5 (5)\n";
    let flags = parse_workspace_list(out);
    let mut expected = [false; 10];
    expected[0] = true;
    expected[2] = true;
    expected[9] = true;
    assert_eq!(flags, expected);
    assert_eq!(parse_workspace_list(""), [false; 10]);
}

#[test]
fn bus_applies_workspace_events() {
    let bus = StateBus::new();
    let s = bus.snapshot();
    assert_eq!(s.active_workspace, 1);
    assert_eq!(s.occupied, [false; 10]);
    bus.apply_workspace_event(parse_event("workspace>>3").unwrap());
    bus.apply_workspace_event(parse_event("createworkspace>>10").unwrap());
    bus.apply_workspace_event(parse_event("createworkspace>>5").unwrap());
    bus.apply_workspace_event(parse_event("destroyworkspace>>5").unwrap());
    let s = bus.snapshot();
    assert_eq!(s.active_workspace, 3);
    let mut expected = [false; 10];
    expected[2] = true;
    expected[9] = true;
    assert_eq!(s.occupied, expected);
}

#[test]
fn decimal_u32() {
    assert_eq!(parse_u32(b"4294967295"), Some(u32::MAX));
    assert_eq!(parse_u32(b"4294967296"), None);
    assert_eq!(parse_u32(b"+17"), Some(17));
    assert_eq!(parse_u32(b"1 2"), None);
    assert_eq!(parse_trimmed_u32(" 52000\n"), Some(52000));
    assert_eq!(parse_trimmed_u32("\n"), None);
    assert_eq!(parse_trimmed_u32("abc"), None);
}

#[test]
fn unicode_whitespace_is_trimmed() {
    assert_eq!(parse_event("\u{a0}workspace>>2\u{3000}"), ev(WorkspaceAction::Focus, 2));
    assert_eq!(parse_event("\u{2009}\u{85} workspace>>6\u{2029}\t"), ev(WorkspaceAction::Focus, 6));
    assert_eq!(parse_event("\u{200b}workspace>>6"), None);
    assert_eq!(parse_trimmed_u32("\u{1680}42\u{205f}\u{202f}"), Some(42));
    assert_eq!(parse_trimmed_u32("\u{2000}\u{200a}7\u{2028}"), Some(7));
}
