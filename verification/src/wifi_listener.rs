//! The Wi-Fi listener: what the one-shot query reports and which lines of
//! the monitoring subprocess call for a new query.
//!
//! The query tool prints one line per wireless network, with the fields
//! active flag, network name and signal strength separated by colons.

use crate::snapshot::Snapshot;
use crate::text::{
    after_first, before_first, contains, has_char, lemma_split_range, lemma_whole_range, lines,
    occurs_at, parse_percent, Text,
};
use crate::views::view_of;
use vstd::utf8::{decode_utf8, valid_utf8};
use vstd::prelude::*;

verus! {

/// Association of the wireless interface at one moment.
#[derive(Debug)]
pub struct WifiInfo {
    /// Whether the interface is associated with a network.
    pub connected: bool,
    /// Name of the network, if it has one.
    pub ssid: Option<String>,
    /// Signal strength in percent, from 0 to 100, if it is known.
    pub signal: Option<u8>,
}

/// The value of a `WifiInfo`.
pub struct WifiInfoView {
    pub connected: bool,
    pub ssid: Option<Seq<char>>,
    pub signal: Option<u8>,
}

impl View for WifiInfo {
    type V = WifiInfoView;

    open spec fn view(&self) -> WifiInfoView {
        WifiInfoView { connected: self.connected, ssid: view_of(self.ssid), signal: self.signal }
    }
}

impl WifiInfoView {
    /// The value that stands for no association.
    pub open spec fn disconnected() -> WifiInfoView {
        WifiInfoView { connected: false, ssid: None, signal: None }
    }

    /// Without association there is neither a name nor a signal, and a
    /// signal is a percentage.
    pub open spec fn wf(self) -> bool {
        &&& !self.connected ==> self.ssid is None && self.signal is None
        &&& self.signal matches Some(n) ==> n <= 100
    }
}

impl Clone for WifiInfo {
    fn clone(&self) -> (r: Self)
        ensures
            r@ == self@,
    {
        let ssid = match &self.ssid {
            Some(name) => Some(name.clone()),
            None => None,
        };
        WifiInfo { connected: self.connected, ssid, signal: self.signal }
    }
}

impl PartialEq for WifiInfo {
    fn eq(&self, other: &Self) -> (r: bool) {
        let same_ssid = match (&self.ssid, &other.ssid) {
            (Some(a), Some(b)) => *a == *b,
            (None, None) => true,
            _ => false,
        };
        let same_signal = match (self.signal, other.signal) {
            (Some(a), Some(b)) => a == b,
            (None, None) => true,
            _ => false,
        };
        self.connected == other.connected && same_ssid && same_signal
    }
}

impl vstd::std_specs::cmp::PartialEqSpecImpl for WifiInfo {
    open spec fn obeys_eq_spec() -> bool {
        true
    }

    open spec fn eq_spec(&self, other: &Self) -> bool {
        self@ == other@
    }
}

impl Snapshot for WifiInfo {
    fn same(&self, other: &Self) -> (r: bool) {
        *self == *other
    }

    fn duplicate(&self) -> (r: Self) {
        self.clone()
    }
}

impl WifiInfo {
    /// The snapshot that stands for no association.
    pub fn disconnected() -> (r: WifiInfo)
        ensures
            r@ == WifiInfoView::disconnected(),
    {
        WifiInfo { connected: false, ssid: None, signal: None }
    }
}

/// What one line of the query reports: an association if the line has at
/// least two fields and the first is `yes`, nothing otherwise. The second
/// field is the name of the network, absent if empty; the remainder after the
/// second colon is the signal, absent unless it writes a percentage.
pub open spec fn wifi_line(line: Seq<char>) -> Option<WifiInfoView> {
    if has_char(line, ':') && before_first(line, ':') == "yes"@ {
        let rest = after_first(line, ':');
        let name = before_first(rest, ':');
        Some(
            WifiInfoView {
                connected: true,
                ssid: if name.len() == 0 {
                    None
                } else {
                    Some(name)
                },
                signal: if has_char(rest, ':') {
                    parse_percent(after_first(rest, ':'))
                } else {
                    None
                },
            },
        )
    } else {
        None
    }
}

/// What the first line that reports an association reports; no association
/// if no line does.
pub open spec fn first_association(lines: Seq<Seq<char>>) -> WifiInfoView
    decreases lines.len(),
{
    if lines.len() == 0 {
        WifiInfoView::disconnected()
    } else {
        match wifi_line(lines[0]) {
            Some(info) => info,
            None => first_association(lines.drop_first()),
        }
    }
}

/// What the text of a query reports.
pub open spec fn wifi_reading(text: Seq<char>) -> WifiInfoView {
    first_association(lines(text))
}

/// What the output of a query reports, `None` standing for a query that
/// could not be run: nothing unless the query ran and its output is
/// well-formed UTF-8.
pub open spec fn wifi_report(output: Option<Seq<u8>>) -> Option<WifiInfoView> {
    match output {
        Some(bytes) if valid_utf8(bytes) => Some(wifi_reading(decode_utf8(bytes))),
        _ => None,
    }
}

/// Every report is well-formed.
pub proof fn lemma_wifi_line_wf(line: Seq<char>)
    ensures
        wifi_line(line) matches Some(info) ==> info.wf() && info.connected,
{
}

/// Every reading is well-formed.
pub proof fn lemma_first_association_wf(lines: Seq<Seq<char>>)
    ensures
        first_association(lines).wf(),
    decreases lines.len(),
{
    if lines.len() > 0 {
        lemma_wifi_line_wf(lines[0]);
        lemma_first_association_wf(lines.drop_first());
    }
}

/// Reads the line that stands between `from` and `to`.
fn parse_wifi_range(text: &Text, from: usize, to: usize) -> (r: Option<WifiInfo>)
    requires
        from <= to <= text@.len(),
    ensures
        view_of(r) == wifi_line(text@.subrange(from as int, to as int)),
{
    let first = text.find(from, to, ':');
    proof {
        lemma_split_range(text@, from as int, to as int, ':', first as int);
    }
    if first == to || !text.range_is(from, first, "yes") {
        return None;
    }
    let second = text.find(first + 1, to, ':');
    proof {
        lemma_split_range(text@, first + 1, to as int, ':', second as int);
    }
    let ssid = if second == first + 1 {
        None
    } else {
        Some(text.substring(first + 1, second))
    };
    let signal = if second < to {
        text.parse_percent(second + 1, to)
    } else {
        None
    };
    Some(WifiInfo { connected: true, ssid, signal })
}

/// Reads one line of the query.
pub fn parse_wifi_line(line: &str) -> (r: Option<WifiInfo>)
    ensures
        view_of(r) == wifi_line(line@),
{
    let text = Text::new(line);
    proof {
        lemma_whole_range(text@);
    }
    parse_wifi_range(&text, 0, text.len())
}

/// Reads the text of a query.
pub fn wifi_info_from_text(text: &str) -> (r: WifiInfo)
    ensures
        r@ == wifi_reading(text@),
        r@.wf(),
{
    let chars = Text::new(text);
    let len = chars.len();
    let mut pos: usize = 0;
    proof {
        assert(chars@.skip(0) =~= chars@);
        lemma_first_association_wf(lines(chars@));
    }
    while pos < len
        invariant
            chars@ == text@,
            len == chars@.len(),
            0 <= pos <= len,
            wifi_reading(text@) == first_association(lines(chars@.skip(pos as int))),
            wifi_reading(text@).wf(),
        decreases len - pos,
    {
        let (end, next) = chars.next_line(pos);
        proof {
            let all = lines(chars@.skip(pos as int));
            assert(all[0] == chars@.subrange(pos as int, end as int));
            assert(all.drop_first() =~= lines(chars@.skip(next as int)));
        }
        match parse_wifi_range(&chars, pos, end) {
            Some(info) => {
                return info;
            },
            None => {},
        }
        pos = next;
    }
    proof {
        assert(chars@.skip(len as int) =~= Seq::<char>::empty());
    }
    WifiInfo::disconnected()
}

/// Builds the snapshot from the output of the query tool, `None` standing
/// for a query that could not be run. A query that could not be run or whose
/// output cannot be read yields nothing, and the cycle is skipped.
pub fn get_wifi_info(output: Option<&[u8]>) -> (r: Option<WifiInfo>)
    ensures
        view_of(r) == wifi_report(view_of(output)),
        r matches Some(info) ==> info@.wf(),
{
    match output {
        Some(bytes) => match core::str::from_utf8(bytes) {
            Ok(text) => Some(wifi_info_from_text(text)),
            Err(_) => None,
        },
        None => None,
    }
}

/// Whether a line of the monitoring subprocess tells of a connectivity
/// transition: it holds `connected` or `disconnected`.
pub open spec fn is_transition(line: Seq<char>) -> bool {
    contains(line, "connected"@) || contains(line, "disconnected"@)
}

/// A line that holds `disconnected` holds `connected` too: a line tells of
/// a transition exactly if it holds `connected`.
pub proof fn lemma_transition_holds_connected(line: Seq<char>)
    ensures
        is_transition(line) == contains(line, "connected"@),
{
    reveal_strlit("connected");
    reveal_strlit("disconnected");
    if contains(line, "disconnected"@) {
        let i = choose|i: int| occurs_at(line, "disconnected"@, i);
        assert(line.subrange(i + 3, i + 12) =~= "disconnected"@.subrange(3, 12));
        assert("disconnected"@.subrange(3, 12) =~= "connected"@);
        assert(occurs_at(line, "connected"@, i + 3));
    }
}

/// Whether a line of the monitoring subprocess calls for a new query.
pub fn is_transition_line(line: &str) -> (r: bool)
    ensures
        r == is_transition(line@),
{
    let text = Text::new(line);
    text.contains("connected") || text.contains("disconnected")
}

} // verus!
