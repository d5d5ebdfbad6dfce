use hypr_panel::hyprland_listener::get_workspace_info;
use hypr_panel::hyprland_listener::is_workspace_event;
use hypr_panel::hyprland_listener::parse_active_window;
use hypr_panel::hyprland_listener::socket_path;
use hypr_panel::hyprland_listener::workspace_state;
use hypr_panel::hyprland_listener::ActiveWindowClass;
use hypr_panel::hyprland_listener::WorkspaceState;
use hypr_panel::hyprland_listener::INSTANCE_VAR;
use hypr_panel::hyprland_listener::MIN_WORKSPACES;
use hypr_panel::hyprland_listener::RUNTIME_DIR_VAR;

fn class(name: &str) -> Option<ActiveWindowClass> {
    Some(ActiveWindowClass { class_name: name.to_string() })
}

fn list(ids: &[i64]) -> String {
    let items: Vec<String> = ids
        .iter()
        .map(|id| format!("{{\"id\": {}, \"name\": \"{}\", \"windows\": 1}}", id, id))
        .collect();
    format!("[{}]", items.join(", "))
}

fn state(active: &str, all: &str) -> Option<WorkspaceState> {
    get_workspace_info(Some(active.as_bytes()), Some(all.as_bytes()))
}

fn shown(active: i32, max: i32) -> Option<WorkspaceState> {
    Some(WorkspaceState { active, max })
}

#[test]
fn socket_path_is_built_from_directory_and_instance() {
    assert_eq!(
        socket_path("/run/user/1000", "abc_123"),
        "/run/user/1000/hypr/abc_123/.socket2.sock"
    );
    assert_eq!(socket_path("", ""), "/hypr//.socket2.sock");
    assert_eq!(RUNTIME_DIR_VAR, "XDG_RUNTIME_DIR");
    assert_eq!(INSTANCE_VAR, "HYPRLAND_INSTANCE_SIGNATURE");
}

#[test]
fn empty_class_is_the_desktop() {
    assert_eq!(parse_active_window("activewindow>>,"), class("Desktop"));
    assert_eq!(parse_active_window("activewindow>>,some title"), class("Desktop"));
}

#[test]
fn class_is_the_first_field_of_the_payload() {
    assert_eq!(parse_active_window("activewindow>>firefox,Mozilla Firefox"), class("firefox"));
    assert_eq!(parse_active_window("activewindow>>kitty,a,b,c"), class("kitty"));
    assert_eq!(parse_active_window("activewindow>>org.gnome.Nautilus,"), class("org.gnome.Nautilus"));
    assert_eq!(parse_active_window("activewindow>>éditeur,titre"), class("éditeur"));
    assert_eq!(parse_active_window("activewindow>> ,x"), class(" "));
}

#[test]
fn payload_without_comma_is_the_class() {
    assert_eq!(parse_active_window("activewindow>>kitty"), class("kitty"));
    assert_eq!(parse_active_window("activewindow>>firefox"), class("firefox"));
    assert_eq!(parse_active_window("activewindow>>org.gnome.Nautilus"), class("org.gnome.Nautilus"));
    assert_eq!(parse_active_window("activewindow>>"), class("Desktop"));
}

#[test]
fn other_lines_report_no_focus() {
    assert_eq!(parse_active_window(""), None);
    assert_eq!(parse_active_window("activewindow"), None);
    assert_eq!(parse_active_window("activewindowv2>>55d0b2c0fa30"), None);
    assert_eq!(parse_active_window("activewindowv2>>a,b"), None);
    assert_eq!(parse_active_window("activewindow>firefox,title"), None);
    assert_eq!(parse_active_window(" activewindow>>firefox,title"), None);
    assert_eq!(parse_active_window("workspace>>2"), None);
    assert_eq!(parse_active_window("ActiveWindow>>firefox,title"), None);
}

#[test]
fn focus_lines_are_all_delivered_in_order() {
    let lines = [
        "workspace>>2",
        "activewindow>>kitty,zsh",
        "activewindowv2>>55d0b2c0fa30",
        "activewindow>>,",
        "activewindow>>firefox",
        "createworkspace>>4",
        "activewindow>>kitty,zsh",
        "activewindow>>",
    ];
    let delivered: Vec<String> = lines
        .iter()
        .filter_map(|line| parse_active_window(line))
        .map(|class| class.class_name)
        .collect();
    assert_eq!(delivered, vec!["kitty", "Desktop", "firefox", "kitty", "Desktop"]);
}

#[test]
fn every_focus_line_is_forwarded() {
    let line = "activewindow>>firefox,Mozilla Firefox";
    assert_eq!(parse_active_window(line), class("firefox"));
    assert_eq!(parse_active_window(line), class("firefox"));
    assert_eq!(parse_active_window(line), class("firefox"));
}

#[test]
fn workspace_events_are_three() {
    assert!(is_workspace_event("workspace>>3"));
    assert!(is_workspace_event("createworkspace>>7"));
    assert!(is_workspace_event("destroyworkspace>>7"));
    assert!(is_workspace_event("workspace>>"));
    assert!(!is_workspace_event("workspacev2>>3,3"));
    assert!(!is_workspace_event("createworkspacev2>>7,7"));
    assert!(!is_workspace_event("moveworkspace>>3,DP-1"));
    assert!(!is_workspace_event("focusedmon>>DP-1,3"));
    assert!(!is_workspace_event("activewindow>>firefox,title"));
    assert!(!is_workspace_event("workspace>"));
    assert!(!is_workspace_event(" workspace>>3"));
    assert!(!is_workspace_event(""));
}

#[test]
fn few_workspaces_are_floored_at_five() {
    assert_eq!(state("{\"id\": 2}", &list(&[1, 2, 3])), shown(2, 5));
    assert_eq!(
        workspace_state(2, &vec![Some(1), Some(2), Some(3)]),
        WorkspaceState { active: 2, max: 5 }
    );
}

#[test]
fn many_workspaces_show_the_largest() {
    assert_eq!(
        state("{\"id\": 7, \"name\": \"7\"}", &list(&[1, 2, 3, 4, 5, 6, 7])),
        shown(7, 7)
    );
    assert_eq!(state("{\"id\": 1}", &list(&[9, 3, 12, 4])), shown(1, 12));
    assert_eq!(state("{\"id\": 5}", &list(&[5])), shown(5, 5));
    assert_eq!(state("{\"id\": 6}", &list(&[6])), shown(6, 6));
    assert_eq!(MIN_WORKSPACES, 5);
}

#[test]
fn empty_list_shows_the_smallest_row() {
    assert_eq!(state("{\"id\": 3}", "[]"), shown(3, 5));
    assert_eq!(workspace_state(3, &vec![]), WorkspaceState { active: 3, max: 5 });
}

#[test]
fn failed_workspace_query_skips_the_cycle() {
    let active = "{\"id\": 2}".as_bytes();
    let all = list(&[1, 2, 3]);
    assert_eq!(get_workspace_info(None, None), None);
    assert_eq!(get_workspace_info(Some(active), None), None);
    assert_eq!(get_workspace_info(None, Some(all.as_bytes())), None);
    assert_eq!(get_workspace_info(Some(active), Some(all.as_bytes())), shown(2, 5));
}

#[test]
fn unreadable_workspace_answer_skips_the_cycle() {
    let all = list(&[1, 2, 3]);
    assert_eq!(state("", &all), None);
    assert_eq!(state("not json", &all), None);
    assert_eq!(state("{\"name\": \"x\"}", &all), None);
    assert_eq!(state("[1, 2]", &all), None);
    assert_eq!(state("{\"id\": \"3\"}", &all), None);
    assert_eq!(state("{\"id\": 3.5}", &all), None);
    assert_eq!(state("{\"id\": 3} trailing", &all), None);
    assert_eq!(state("{\"id\": 9223372036854775808}", &all), None);
    assert_eq!(state("{\"id\": 2}", ""), None);
    assert_eq!(state("{\"id\": 2}", "not json"), None);
    assert_eq!(state("{\"id\": 2}", "{\"id\": 9}"), None);
    assert_eq!(state("{\"id\": 2}", "[{\"id\": 9}"), None);
    let bad: Vec<u8> = vec![b'{', b'"', b'i', b'd', b'"', b':', b'3', b'}', 0xff];
    assert_eq!(get_workspace_info(Some(&bad), Some(all.as_bytes())), None);
    let bad_list: Vec<u8> = vec![b'[', b']', 0xff];
    assert_eq!(get_workspace_info(Some("{\"id\": 2}".as_bytes()), Some(&bad_list)), None);
}

#[test]
fn entries_without_a_number_do_not_count() {
    let all = "[{\"id\": 2}, {\"name\": \"x\"}, 17, {\"id\": \"40\"}, {\"id\": 9}, null]";
    assert_eq!(state("{\"id\": 2}", all), shown(2, 9));
    assert_eq!(state("{\"id\": 2}", "[{\"id\": \"9\"}, {\"id\": 9.5}]"), shown(2, 5));
    assert_eq!(
        workspace_state(2, &vec![None, Some(9), None]),
        WorkspaceState { active: 2, max: 9 }
    );
}

#[test]
fn negative_numbers_stay_below_the_floor() {
    assert_eq!(state("{\"id\": -99}", &list(&[-99, 1, 2])), shown(-99, 5));
    assert_eq!(state("{\"id\": 0}", &list(&[-98])), shown(0, 5));
}

#[test]
fn numbers_keep_their_low_32_bits() {
    assert_eq!(workspace_state(i32::MAX as i64, &vec![]).active, i32::MAX);
    assert_eq!(workspace_state(i32::MIN as i64, &vec![]).active, i32::MIN);
    assert_eq!(workspace_state(4294967298, &vec![]).active, 2);
    assert_eq!(workspace_state(2147483648, &vec![]).active, i32::MIN);
    assert_eq!(workspace_state(-1, &vec![]).active, -1);
    assert_eq!(workspace_state(1, &vec![Some(4294967303)]).max, 7);
    assert_eq!(workspace_state(1, &vec![Some(2147483648)]).max, 5);
    assert_eq!(state("{\"id\": 4294967298}", "[{\"id\": 4294967303}]"), shown(2, 7));
    assert_eq!(state("{\"id\": 2}", "[{\"id\": 9223372036854775808}]"), shown(2, 5));
}

#[test]
fn workspace_state_is_computed_anew_each_time() {
    let first = state("{\"id\": 2}", &list(&[1, 2, 3]));
    let second = state("{\"id\": 2}", &list(&[1, 2, 3]));
    assert_eq!(first, second);
    assert_eq!(second, shown(2, 5));
}
