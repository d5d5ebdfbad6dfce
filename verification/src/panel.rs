//! What the panel shows for a snapshot: the texts of its labels, the markup
//! of the workspace row and the look of the battery.

use crate::battery_listener::{BatteryInfo, BatteryInfoView};
use crate::bluetooth_listener::{BluetoothInfo, BluetoothInfoView};
use crate::hyprland_listener::{MIN_WORKSPACES, WorkspaceState};
use crate::text::{lemma_whole_range, Text};
use crate::views::texts;
use crate::wifi_listener::{WifiInfo, WifiInfoView};
use vstd::prelude::*;

verus! {

/// Charge, in percent, up to which a battery that is not charging is
/// critical.
pub const CRITICAL_CHARGE: u8 = 15;

/// Charge, in percent, up to which a battery that is not charging is low.
pub const LOW_CHARGE: u8 = 30;

/// The decimal digit for `d`.
pub open spec fn digit_char(d: int) -> char {
    if d == 0 {
        '0'
    } else if d == 1 {
        '1'
    } else if d == 2 {
        '2'
    } else if d == 3 {
        '3'
    } else if d == 4 {
        '4'
    } else if d == 5 {
        '5'
    } else if d == 6 {
        '6'
    } else if d == 7 {
        '7'
    } else if d == 8 {
        '8'
    } else {
        '9'
    }
}

/// The decimal digits that write `n`, without leading zeros.
pub open spec fn decimal(n: nat) -> Seq<char>
    decreases n,
{
    if n < 10 {
        seq![digit_char(n as int)]
    } else {
        decimal(n / 10).push(digit_char((n % 10) as int))
    }
}

/// The digit `d` as a string.
fn digit_str(d: u32) -> (s: &'static str)
    requires
        d < 10,
    ensures
        s@ == seq![digit_char(d as int)],
{
    proof {
        reveal_strlit("0");
        reveal_strlit("1");
        reveal_strlit("2");
        reveal_strlit("3");
        reveal_strlit("4");
        reveal_strlit("5");
        reveal_strlit("6");
        reveal_strlit("7");
        reveal_strlit("8");
        reveal_strlit("9");
    }
    let s = if d == 0 {
        "0"
    } else if d == 1 {
        "1"
    } else if d == 2 {
        "2"
    } else if d == 3 {
        "3"
    } else if d == 4 {
        "4"
    } else if d == 5 {
        "5"
    } else if d == 6 {
        "6"
    } else if d == 7 {
        "7"
    } else if d == 8 {
        "8"
    } else {
        "9"
    };
    assert(s@ =~= seq![digit_char(d as int)]);
    s
}

/// Appends the decimal digits of `n` to `out`.
pub fn push_decimal(out: &mut String, n: u32)
    ensures
        final(out)@ == old(out)@ + decimal(n as nat),
    decreases n,
{
    if n >= 10 {
        push_decimal(out, n / 10);
    }
    out.append(digit_str(n % 10));
    proof {
        if n >= 10 {
            assert(old(out)@ + decimal((n / 10) as nat) + seq![digit_char((n % 10) as int)]
                =~= old(out)@ + decimal(n as nat));
        }
    }
}

/// The text of the Wi-Fi label: the name of the network and, where known,
/// the signal in percent; `Connected` for an association without a name;
/// `Disconnected` without association.
pub open spec fn wifi_label_text(info: WifiInfoView) -> Seq<char> {
    if info.connected {
        match (info.ssid, info.signal) {
            (Some(name), Some(n)) => "  "@ + name + " "@ + decimal(n as nat) + "%"@,
            (Some(name), None) => "  "@ + name,
            _ => "Connected"@,
        }
    } else {
        "Disconnected"@
    }
}

/// Builds the text of the Wi-Fi label.
pub fn wifi_label(info: &WifiInfo) -> (label: String)
    ensures
        label@ == wifi_label_text(info@),
{
    if !info.connected {
        return String::from_str("Disconnected");
    }
    match &info.ssid {
        Some(name) => {
            let mut label = String::from_str("  ");
            label.append(name.as_str());
            match info.signal {
                Some(n) => {
                    label.append(" ");
                    push_decimal(&mut label, n as u32);
                    label.append("%");
                },
                None => {},
            }
            label
        },
        None => String::from_str("Connected"),
    }
}

/// The names with `separator` between each two of them.
pub open spec fn joined(names: Seq<Seq<char>>, separator: Seq<char>) -> Seq<char>
    decreases names.len(),
{
    if names.len() == 0 {
        Seq::empty()
    } else if names.len() == 1 {
        names[0]
    } else {
        joined(names.drop_last(), separator) + separator + names.last()
    }
}

/// The text of the Bluetooth label: `Off` for an adapter that is powered
/// off, `On` for one without connected devices, otherwise the names of the
/// connected devices, separated by a comma and a space.
pub open spec fn bluetooth_label_text(info: BluetoothInfoView) -> Seq<char> {
    if !info.enabled {
        "Off"@
    } else if info.connected_devices.len() == 0 {
        "On"@
    } else {
        joined(info.connected_devices, ", "@)
    }
}

/// Builds the text of the Bluetooth label.
pub fn bluetooth_label(info: &BluetoothInfo) -> (label: String)
    ensures
        label@ == bluetooth_label_text(info@),
{
    if !info.enabled {
        return String::from_str("Off");
    }
    let names = &info.connected_devices;
    if names.len() == 0 {
        return String::from_str("On");
    }
    let mut label = String::from_str(names[0].as_str());
    let mut i: usize = 1;
    proof {
        assert(texts(names@).take(1) =~= seq![names@[0]@]);
    }
    while i < names.len()
        invariant
            1 <= i <= names.len(),
            label@ == joined(texts(names@).take(i as int), ", "@),
        decreases names.len() - i,
    {
        label.append(", ");
        label.append(names[i].as_str());
        proof {
            let longer = texts(names@).take(i + 1);
            assert(longer.drop_last() =~= texts(names@).take(i as int));
            assert(longer.last() == names@[i as int]@);
        }
        i += 1;
    }
    proof {
        assert(texts(names@).take(names.len() as int) =~= texts(names@));
    }
    label
}

/// The number of workspaces in the row: the largest workspace number, and
/// at least the smallest number shown.
pub open spec fn workspace_count(state: WorkspaceState) -> int {
    if state.max < MIN_WORKSPACES {
        MIN_WORKSPACES as int
    } else {
        state.max as int
    }
}

/// The markup of workspace `i`: larger and bold for the active workspace.
pub open spec fn workspace_span(i: int, active: int) -> Seq<char> {
    if i == active {
        "<span size=\"11264\" weight=\"bold\">"@ + decimal(i as nat) + "</span>"@
    } else {
        "<span size=\"10240\">"@ + decimal(i as nat) + "</span>"@
    }
}

/// The markup of the workspaces from 1 to `count`, separated by spaces.
pub open spec fn workspace_spans(count: nat, active: int) -> Seq<char>
    decreases count,
{
    if count == 0 {
        Seq::empty()
    } else if count == 1 {
        workspace_span(1, active)
    } else {
        workspace_spans((count - 1) as nat, active) + " "@ + workspace_span(count as int, active)
    }
}

/// The markup of the workspace row.
pub open spec fn workspace_markup_text(state: WorkspaceState) -> Seq<char> {
    workspace_spans(workspace_count(state) as nat, state.active as int)
}

/// Appends the markup of workspace `i`.
fn push_workspace_span(out: &mut String, i: i32, active: i32)
    requires
        i >= 1,
    ensures
        final(out)@ == old(out)@ + workspace_span(i as int, active as int),
{
    if i == active {
        out.append("<span size=\"11264\" weight=\"bold\">");
    } else {
        out.append("<span size=\"10240\">");
    }
    push_decimal(out, i as u32);
    out.append("</span>");
    proof {
        let open = if i == active {
            "<span size=\"11264\" weight=\"bold\">"@
        } else {
            "<span size=\"10240\">"@
        };
        assert(old(out)@ + open + decimal(i as nat) + "</span>"@ =~= old(out)@ + (open + decimal(
            i as nat,
        ) + "</span>"@));
    }
}

/// Builds the markup of the workspace row.
pub fn workspace_markup(state: WorkspaceState) -> (markup: String)
    ensures
        markup@ == workspace_markup_text(state),
{
    let count: i32 = if state.max < MIN_WORKSPACES {
        MIN_WORKSPACES
    } else {
        state.max
    };
    let active = state.active;
    let mut markup = String::new();
    push_workspace_span(&mut markup, 1, active);
    let mut i: i32 = 1;
    proof {
        assert(markup@ =~= workspace_span(1, active as int));
    }
    while i < count
        invariant
            1 <= i <= count,
            markup@ == workspace_spans(i as nat, active as int),
        decreases count - i,
    {
        i += 1;
        markup.append(" ");
        let ghost before = markup@;
        push_workspace_span(&mut markup, i, active);
        proof {
            assert(markup@ == before + workspace_span(i as int, active as int));
        }
    }
    markup
}

/// How the battery is drawn.
#[derive(Debug, Clone, Copy, PartialEq, Eq, Structural)]
pub struct BatteryLook {
    /// Charge in percent.
    pub capacity: u8,
    /// The battery is charging or full.
    pub charging: bool,
    /// The battery is not charging and its charge is critical.
    pub critical: bool,
    /// The battery is not charging and its charge is low but not critical.
    pub low: bool,
}

/// Whether a status counts as charging: it is `Charging` or `Full`.
pub open spec fn is_charging(status: Seq<char>) -> bool {
    status == "Charging"@ || status == "Full"@
}

/// How a battery with the given charge and status is drawn.
pub open spec fn battery_look_of(info: BatteryInfoView) -> BatteryLook {
    let charging = is_charging(info.status);
    BatteryLook {
        capacity: info.capacity,
        charging,
        critical: !charging && info.capacity <= CRITICAL_CHARGE,
        low: !charging && CRITICAL_CHARGE < info.capacity <= LOW_CHARGE,
    }
}

/// Decides how the battery is drawn.
pub fn battery_look(info: &BatteryInfo) -> (look: BatteryLook)
    ensures
        look == battery_look_of(info@),
{
    let status = Text::new(info.status.as_str());
    proof {
        lemma_whole_range(status@);
    }
    let charging = status.range_is(0, status.len(), "Charging") || status.range_is(
        0,
        status.len(),
        "Full",
    );
    BatteryLook {
        capacity: info.capacity,
        charging,
        critical: !charging && info.capacity <= CRITICAL_CHARGE,
        low: !charging && info.capacity > CRITICAL_CHARGE && info.capacity <= LOW_CHARGE,
    }
}

} // verus!
