use hypr_panel::battery_listener::read_battery_info;
use hypr_panel::bluetooth_listener::adapter_powered;
use hypr_panel::bluetooth_listener::connected_device_names;
use hypr_panel::bluetooth_listener::is_change_line;
use hypr_panel::decode::line_of;
use hypr_panel::hyprland_listener::is_workspace_event;
use hypr_panel::hyprland_listener::parse_active_window;
use hypr_panel::text::Text;
use hypr_panel::wifi_listener::is_transition_line;
use hypr_panel::wifi_listener::parse_wifi_line;
use hypr_panel::wifi_listener::wifi_info_from_text;

/// Every string of at most `max` characters over `alphabet`, each after
/// `prefix`.
fn strings(prefix: &str, alphabet: &[char], max: usize) -> Vec<String> {
    let mut all = vec![prefix.to_string()];
    let mut last = vec![prefix.to_string()];
    for _ in 0..max {
        let mut next = Vec::new();
        for s in &last {
            for c in alphabet {
                let mut longer = s.clone();
                longer.push(*c);
                next.push(longer);
            }
        }
        all.extend(next.iter().cloned());
        last = next;
    }
    all
}

fn percent(s: &str) -> Option<u8> {
    s.parse::<u8>().ok().filter(|n| *n <= 100)
}

fn wifi_line_by_std(line: &str) -> Option<(Option<String>, Option<u8>)> {
    let parts: Vec<&str> = line.splitn(3, ':').collect();
    if parts.len() >= 2 && parts[0] == "yes" {
        let ssid = if parts[1].is_empty() { None } else { Some(parts[1].to_string()) };
        let signal = parts.get(2).and_then(|s| percent(s));
        Some((ssid, signal))
    } else {
        None
    }
}

#[test]
fn wifi_lines_over_a_small_alphabet() {
    for line in strings("", &['y', 'e', 's', ':', '7', 'a'], 6) {
        let got = parse_wifi_line(&line).map(|info| {
            assert!(info.connected);
            (info.ssid, info.signal)
        });
        assert_eq!(got, wifi_line_by_std(&line), "{:?}", line);
    }
    for line in strings("yes:n:", &['0', '1', '9', '+', '-', ':', ' '], 5) {
        let got = parse_wifi_line(&line).map(|info| (info.ssid, info.signal));
        assert_eq!(got, wifi_line_by_std(&line), "{:?}", line);
    }
}

#[test]
fn wifi_tables_over_a_small_alphabet() {
    for table in strings("", &['y', 'e', 's', ':', '\n', '\r', '5'], 6) {
        let expected = table.lines().find_map(wifi_line_by_std);
        let got = wifi_info_from_text(&table);
        match expected {
            Some((ssid, signal)) => {
                assert!(got.connected, "{:?}", table);
                assert_eq!((got.ssid, got.signal), (ssid, signal), "{:?}", table);
            }
            None => {
                assert!(!got.connected, "{:?}", table);
                assert_eq!((got.ssid, got.signal), (None, None), "{:?}", table);
            }
        }
    }
}

#[test]
fn device_lists_over_a_small_alphabet() {
    for text in strings("", &['D', ' ', 'x', '\n', '\r'], 7) {
        let expected: Vec<String> = text
            .lines()
            .filter_map(|l| {
                let mut parts = l.splitn(3, ' ');
                parts.next();
                parts.next();
                parts.next().map(|name| name.to_string())
            })
            .collect();
        assert_eq!(connected_device_names(&text), expected, "{:?}", text);
    }
}

#[test]
fn powered_lines_over_a_small_alphabet() {
    for tail in strings("", &[' ', '\t', '\n', '\r', 's', '\u{a0}'], 4) {
        for head in ["", " ", "\t", "x", "\n", "no\n \t"] {
            for body in ["Powered: yes", "Powered: ye", "Powered:  yes", "Powered: no"] {
                let text = format!("{}{}{}", head, body, tail);
                let expected = text.lines().any(|l| l.trim() == "Powered: yes");
                assert_eq!(adapter_powered(&text), expected, "{:?}", text);
            }
        }
    }
}

#[test]
fn battery_files_over_a_small_alphabet() {
    for capacity in strings("", &['0', '1', '9', '+', ' ', '\n', '-'], 5) {
        let expected = percent(capacity.trim());
        let got = read_battery_info(Some(&capacity), Some(" Full\n")).map(|info| {
            assert_eq!(info.status, "Full");
            info.capacity
        });
        assert_eq!(got, expected, "{:?}", capacity);
    }
    for status in strings("", &['F', ' ', '\n', '\t', '\u{2003}'], 5) {
        let got = read_battery_info(Some("50"), Some(&status)).map(|info| info.status);
        assert_eq!(got, Some(status.trim().to_string()), "{:?}", status);
    }
}

#[test]
fn focus_lines_over_a_small_alphabet() {
    for payload in strings("", &['a', ',', '>', ' ', 'é'], 5) {
        for head in ["activewindow>>", "activewindow>", "activewindowv2>>", "", "xactivewindow>>"] {
            let line = format!("{}{}", head, payload);
            let expected = line.strip_prefix("activewindow>>").map(|payload| {
                let class = payload.split(',').next().unwrap_or("");
                if class.is_empty() {
                    "Desktop".to_string()
                } else {
                    class.to_string()
                }
            });
            let got = parse_active_window(&line).map(|class| class.class_name);
            assert_eq!(got, expected, "{:?}", line);
        }
    }
}

#[test]
fn event_lines_over_a_small_alphabet() {
    let heads = ["", "create", "destroy", "move", "createcreate", " "];
    for tail in strings("", &['w', 'o', '>', '2', 'v'], 4) {
        for head in heads {
            for stem in ["workspace>>", "workspace>", "workspac"] {
                let line = format!("{}{}{}", head, stem, tail);
                let expected = line.starts_with("workspace>>")
                    || line.starts_with("destroyworkspace>>")
                    || line.starts_with("createworkspace>>");
                assert_eq!(is_workspace_event(&line), expected, "{:?}", line);
            }
        }
    }
}

#[test]
fn monitor_lines_over_a_small_alphabet() {
    for tail in strings("", &['c', 'o', 'n', 'e', 't', 'd', ' '], 4) {
        for stem in ["connected", "disconnected", "connecte", "[CHG] Connected", "Powered[CHG]", "[CHG]"] {
            for line in [format!("{}{}", stem, tail), format!("{}{}", tail, stem)] {
                assert_eq!(
                    is_transition_line(&line),
                    line.contains("connected") || line.contains("disconnected"),
                    "{:?}",
                    line
                );
                assert_eq!(
                    is_change_line(&line),
                    line.contains("[CHG]")
                        && (line.contains("Connected") || line.contains("Powered")),
                    "{:?}",
                    line
                );
            }
        }
    }
}

#[test]
fn lines_and_trims_over_a_small_alphabet() {
    for s in strings("", &['a', ' ', '\n', '\r', '\u{3000}'], 6) {
        let text = Text::new(&s);
        let mut got: Vec<String> = Vec::new();
        let mut pos = 0;
        while pos < text.len() {
            let (end, next) = text.next_line(pos);
            got.push(text.substring(pos, end));
            pos = next;
        }
        let expected: Vec<String> = s.lines().map(|l| l.to_string()).collect();
        assert_eq!(got, expected, "{:?}", s);
        let (from, to) = text.trim_range(0, text.len());
        assert_eq!(text.substring(from, to), s.trim(), "{:?}", s);
        if !s.strip_suffix('\n').unwrap_or(&s).contains('\n') {
            let expected = s.lines().next().unwrap_or("").to_string();
            assert_eq!(line_of(s.as_bytes()), Some(expected), "{:?}", s);
        }
    }
}
