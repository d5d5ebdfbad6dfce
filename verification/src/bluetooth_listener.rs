//! The Bluetooth listener: what the one-shot queries report and which lines
//! of the interactive subprocess call for new queries.
//!
//! The state is queried in two steps. The status query tells whether the
//! adapter is powered; only if it is, the device query lists the connected
//! devices, one per line, as the word `Device`, the address and the display
//! name, separated by single spaces.

use crate::decode::{decode_lossy, lossy_text};
use crate::snapshot::Snapshot;
use crate::text::{after_first, contains, has_char, lemma_split_range, lines, Text, trim};
use crate::views::{texts, view_of};
use vstd::prelude::*;

verus! {

/// What is written to the interactive subprocess to keep its session alive.
pub const KEEPALIVE_INPUT: &'static str = "\n";

/// The line of the status query that reports a powered adapter.
pub const POWERED_LINE: &'static str = "Powered: yes";

/// Power and connections of the Bluetooth adapter at one moment.
#[derive(Debug)]
pub struct BluetoothInfo {
    /// Whether the adapter is powered.
    pub enabled: bool,
    /// Display names of the connected devices, in the order reported.
    pub connected_devices: Vec<String>,
}

/// The value of a `BluetoothInfo`.
pub struct BluetoothInfoView {
    pub enabled: bool,
    pub connected_devices: Seq<Seq<char>>,
}

impl View for BluetoothInfo {
    type V = BluetoothInfoView;

    open spec fn view(&self) -> BluetoothInfoView {
        BluetoothInfoView {
            enabled: self.enabled,
            connected_devices: texts(self.connected_devices@),
        }
    }
}

impl BluetoothInfoView {
    /// The value of an adapter that is powered off.
    pub open spec fn disabled() -> BluetoothInfoView {
        BluetoothInfoView { enabled: false, connected_devices: Seq::empty() }
    }

    /// An adapter that is powered off has no connected devices.
    pub open spec fn wf(self) -> bool {
        !self.enabled ==> self.connected_devices.len() == 0
    }
}

/// Whether two lists hold the same names in the same order.
fn same_names(a: &Vec<String>, b: &Vec<String>) -> (r: bool)
    ensures
        r == (texts(a@) == texts(b@)),
{
    if a.len() != b.len() {
        proof {
            assert(texts(a@).len() != texts(b@).len());
        }
        return false;
    }
    let mut i: usize = 0;
    while i < a.len()
        invariant
            a.len() == b.len(),
            0 <= i <= a.len(),
            forall|j: int| 0 <= j < i ==> a@[j]@ == b@[j]@,
        decreases a.len() - i,
    {
        if a[i] != b[i] {
            proof {
                assert(texts(a@)[i as int] != texts(b@)[i as int]);
            }
            return false;
        }
        i += 1;
    }
    proof {
        assert(texts(a@) =~= texts(b@));
    }
    true
}

/// A second list of the same names.
fn copy_names(names: &Vec<String>) -> (r: Vec<String>)
    ensures
        texts(r@) == texts(names@),
{
    let mut out: Vec<String> = Vec::new();
    let mut i: usize = 0;
    while i < names.len()
        invariant
            0 <= i <= names.len(),
            out.len() == i,
            forall|j: int| 0 <= j < i ==> out@[j]@ == names@[j]@,
        decreases names.len() - i,
    {
        out.push(names[i].clone());
        i += 1;
    }
    proof {
        assert(texts(out@) =~= texts(names@));
    }
    out
}

impl Clone for BluetoothInfo {
    fn clone(&self) -> (r: Self)
        ensures
            r@ == self@,
    {
        BluetoothInfo {
            enabled: self.enabled,
            connected_devices: copy_names(&self.connected_devices),
        }
    }
}

impl PartialEq for BluetoothInfo {
    fn eq(&self, other: &Self) -> (r: bool) {
        self.enabled == other.enabled && same_names(
            &self.connected_devices,
            &other.connected_devices,
        )
    }
}

impl vstd::std_specs::cmp::PartialEqSpecImpl for BluetoothInfo {
    open spec fn obeys_eq_spec() -> bool {
        true
    }

    open spec fn eq_spec(&self, other: &Self) -> bool {
        self@ == other@
    }
}

impl Snapshot for BluetoothInfo {
    fn same(&self, other: &Self) -> (r: bool) {
        *self == *other
    }

    fn duplicate(&self) -> (r: Self) {
        self.clone()
    }
}

impl BluetoothInfo {
    /// The snapshot of an adapter that is powered off.
    pub fn disabled() -> (r: BluetoothInfo)
        ensures
            r@ == BluetoothInfoView::disabled(),
    {
        let r = BluetoothInfo { enabled: false, connected_devices: Vec::new() };
        proof {
            assert(texts(r.connected_devices@) =~= Seq::<Seq<char>>::empty());
        }
        r
    }
}

/// Whether some line, trimmed, is the line that reports a powered adapter.
pub open spec fn any_powered(lines: Seq<Seq<char>>) -> bool {
    exists|i: int| 0 <= i < lines.len() && trim(#[trigger] lines[i]) == POWERED_LINE@
}

/// Whether the text of the status query reports a powered adapter.
pub open spec fn reports_powered(text: Seq<char>) -> bool {
    any_powered(lines(text))
}

/// The display name that one line of the device query gives: what follows
/// its second space, if it has two.
pub open spec fn device_name(line: Seq<char>) -> Option<Seq<char>> {
    if has_char(line, ' ') && has_char(after_first(line, ' '), ' ') {
        Some(after_first(after_first(line, ' '), ' '))
    } else {
        None
    }
}

/// The display names that the lines give, in the order of the lines.
pub open spec fn device_names(lines: Seq<Seq<char>>) -> Seq<Seq<char>>
    decreases lines.len(),
{
    if lines.len() == 0 {
        Seq::empty()
    } else {
        let rest = device_names(lines.drop_first());
        match device_name(lines[0]) {
            Some(name) => seq![name] + rest,
            None => rest,
        }
    }
}

/// The display names that the text of the device query lists.
pub open spec fn listed_devices(text: Seq<char>) -> Seq<Seq<char>> {
    device_names(lines(text))
}

/// Whether the text of the status query reports a powered adapter.
pub fn adapter_powered(show_text: &str) -> (r: bool)
    ensures
        r == reports_powered(show_text@),
{
    let chars = Text::new(show_text);
    let len = chars.len();
    let mut pos: usize = 0;
    proof {
        assert(chars@.skip(0) =~= chars@);
    }
    while pos < len
        invariant
            chars@ == show_text@,
            len == chars@.len(),
            0 <= pos <= len,
            reports_powered(show_text@) == any_powered(lines(chars@.skip(pos as int))),
        decreases len - pos,
    {
        let (end, next) = chars.next_line(pos);
        let (from, to) = chars.trim_range(pos, end);
        let ghost all = lines(chars@.skip(pos as int));
        let ghost rest = lines(chars@.skip(next as int));
        proof {
            assert(all[0] == chars@.subrange(pos as int, end as int));
            assert(all.drop_first() =~= rest);
        }
        if chars.range_is(from, to, POWERED_LINE) {
            proof {
                assert(trim(all[0]) == POWERED_LINE@);
            }
            return true;
        }
        proof {
            if any_powered(all) {
                let i = choose|i: int|
                    0 <= i < all.len() && trim(#[trigger] all[i]) == POWERED_LINE@;
                assert(i > 0);
                assert(rest[i - 1] == all[i]);
            }
            if any_powered(rest) {
                let i = choose|i: int|
                    0 <= i < rest.len() && trim(#[trigger] rest[i]) == POWERED_LINE@;
                assert(all[i + 1] == rest[i]);
            }
        }
        pos = next;
    }
    proof {
        assert(chars@.skip(len as int) =~= Seq::<char>::empty());
    }
    false
}

/// The display name that the line between `from` and `to` gives.
fn device_name_in(text: &Text, from: usize, to: usize) -> (r: Option<String>)
    requires
        from <= to <= text@.len(),
    ensures
        view_of(r) == device_name(text@.subrange(from as int, to as int)),
{
    let first = text.find(from, to, ' ');
    proof {
        lemma_split_range(text@, from as int, to as int, ' ', first as int);
    }
    if first == to {
        return None;
    }
    let second = text.find(first + 1, to, ' ');
    proof {
        lemma_split_range(text@, first + 1, to as int, ' ', second as int);
    }
    if second == to {
        return None;
    }
    Some(text.substring(second + 1, to))
}

/// The display names that the text of the device query lists.
pub fn connected_device_names(devices_text: &str) -> (r: Vec<String>)
    ensures
        texts(r@) == listed_devices(devices_text@),
{
    let chars = Text::new(devices_text);
    let len = chars.len();
    let mut names: Vec<String> = Vec::new();
    let mut pos: usize = 0;
    proof {
        assert(chars@.skip(0) =~= chars@);
        assert(texts(names@) =~= Seq::<Seq<char>>::empty());
    }
    while pos < len
        invariant
            chars@ == devices_text@,
            len == chars@.len(),
            0 <= pos <= len,
            listed_devices(devices_text@) == texts(names@) + device_names(
                lines(chars@.skip(pos as int)),
            ),
        decreases len - pos,
    {
        let (end, next) = chars.next_line(pos);
        let ghost all = lines(chars@.skip(pos as int));
        let ghost before = texts(names@);
        proof {
            assert(all[0] == chars@.subrange(pos as int, end as int));
            assert(all.drop_first() =~= lines(chars@.skip(next as int)));
        }
        match device_name_in(&chars, pos, end) {
            Some(name) => {
                let ghost text = name@;
                names.push(name);
                proof {
                    assert(texts(names@) =~= before + seq![text]);
                    assert(before + (seq![text] + device_names(all.drop_first())) =~= (before
                        + seq![text]) + device_names(all.drop_first()));
                }
            },
            None => {},
        }
        pos = next;
    }
    proof {
        assert(chars@.skip(len as int) =~= Seq::<char>::empty());
        assert(texts(names@) + Seq::<Seq<char>>::empty() =~= texts(names@));
    }
    names
}

/// What to do once the status query has been made.
#[derive(Debug)]
pub enum StatusOutcome {
    /// The adapter is powered: the device query is to be made.
    QueryDevices,
    /// The adapter is powered off: this is the snapshot, and the device
    /// query is skipped.
    Done(BluetoothInfo),
    /// The status query could not be run: there is no snapshot, and the
    /// cycle is skipped.
    Skip,
}

/// Whether the output of the status query reports a powered adapter, `None`
/// standing for a query that could not be run, of which nothing is known.
pub open spec fn status_powered(show_output: Option<Seq<u8>>) -> Option<bool> {
    match show_output {
        Some(bytes) => Some(reports_powered(lossy_text(bytes))),
        None => None,
    }
}

/// The snapshot of a powered adapter, given the output of the device query,
/// `None` standing for a query that could not be run, which yields nothing.
pub open spec fn powered_report(devices_output: Option<Seq<u8>>) -> Option<BluetoothInfoView> {
    match devices_output {
        Some(bytes) => Some(
            BluetoothInfoView {
                enabled: true,
                connected_devices: listed_devices(lossy_text(bytes)),
            },
        ),
        None => None,
    }
}

/// The snapshot that the outputs of the two queries give: nothing if the
/// status query could not be run; the snapshot of an adapter that is powered
/// off if that is what it reports, whatever the device query lists; otherwise
/// what the device query reports.
pub open spec fn bluetooth_report(
    show_output: Option<Seq<u8>>,
    devices_output: Option<Seq<u8>>,
) -> Option<BluetoothInfoView> {
    match status_powered(show_output) {
        Some(true) => powered_report(devices_output),
        Some(false) => Some(BluetoothInfoView::disabled()),
        None => None,
    }
}

/// Decides from the output of the status query whether the device query is
/// to be made.
pub fn after_status_query(show_output: Option<&[u8]>) -> (r: StatusOutcome)
    ensures
        r is QueryDevices <==> status_powered(view_of(show_output)) == Some(true),
        r is Done <==> status_powered(view_of(show_output)) == Some(false),
        r is Skip <==> status_powered(view_of(show_output)) is None,
        r matches StatusOutcome::Done(info) ==> info@ == BluetoothInfoView::disabled(),
{
    match show_output {
        Some(bytes) => {
            let text = decode_lossy(bytes);
            if adapter_powered(text.as_str()) {
                StatusOutcome::QueryDevices
            } else {
                StatusOutcome::Done(BluetoothInfo::disabled())
            }
        },
        None => StatusOutcome::Skip,
    }
}

/// Builds the snapshot of a powered adapter from the output of the device
/// query. A query that could not be run yields nothing, and the cycle is
/// skipped.
pub fn after_device_query(devices_output: Option<&[u8]>) -> (r: Option<BluetoothInfo>)
    ensures
        view_of(r) == powered_report(view_of(devices_output)),
{
    match devices_output {
        Some(bytes) => {
            let text = decode_lossy(bytes);
            let connected_devices = connected_device_names(text.as_str());
            Some(BluetoothInfo { enabled: true, connected_devices })
        },
        None => None,
    }
}

/// Builds the snapshot from the outputs of both queries.
pub fn get_bluetooth_info(show_output: Option<&[u8]>, devices_output: Option<&[u8]>) -> (r:
    Option<BluetoothInfo>)
    ensures
        view_of(r) == bluetooth_report(view_of(show_output), view_of(devices_output)),
        r matches Some(info) ==> info@.wf(),
{
    match after_status_query(show_output) {
        StatusOutcome::Done(info) => Some(info),
        StatusOutcome::QueryDevices => after_device_query(devices_output),
        StatusOutcome::Skip => None,
    }
}

/// Whether a line of the interactive subprocess tells of a change of power
/// or of a connection: it holds the change marker `[CHG]` together with
/// `Connected` or `Powered`.
pub open spec fn is_change(line: Seq<char>) -> bool {
    contains(line, "[CHG]"@) && (contains(line, "Connected"@) || contains(line, "Powered"@))
}

/// Whether a line of the interactive subprocess calls for new queries.
pub fn is_change_line(line: &str) -> (r: bool)
    ensures
        r == is_change(line@),
{
    let text = Text::new(line);
    text.contains("[CHG]") && (text.contains("Connected") || text.contains("Powered"))
}

} // verus!
