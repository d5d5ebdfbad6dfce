//! The window-manager listeners: the class of the focused window and the
//! state of the workspaces.
//!
//! Both listeners read the compositor's event socket, whose lines have the
//! form of an event name, `>>` and a payload. The workspace listener answers
//! each event that changes the workspaces with two queries, one for the
//! active workspace and one for the list of all workspaces, both answered in
//! JSON.

use crate::decode::{json_integer, json_integers, read_integer, read_integers};
use crate::text::{before_first, chars_of, lemma_split_range, starts_with, Text};
use crate::views::view_of;
use vstd::utf8::{decode_utf8, valid_utf8};
use vstd::prelude::*;

verus! {

/// Environment variable that names the runtime directory.
pub const RUNTIME_DIR_VAR: &'static str = "XDG_RUNTIME_DIR";

/// Environment variable that names the running compositor instance.
pub const INSTANCE_VAR: &'static str = "HYPRLAND_INSTANCE_SIGNATURE";

/// Beginning of the line that reports a change of focus.
pub const ACTIVE_WINDOW_EVENT: &'static str = "activewindow>>";

/// Beginning of the line that reports a change of the active workspace.
pub const WORKSPACE_EVENT: &'static str = "workspace>>";

/// Beginning of the line that reports a new workspace.
pub const CREATE_WORKSPACE_EVENT: &'static str = "createworkspace>>";

/// Beginning of the line that reports the end of a workspace.
pub const DESTROY_WORKSPACE_EVENT: &'static str = "destroyworkspace>>";

/// Key under which a workspace's identifier stands in the answers to the
/// workspace queries.
pub const ID_KEY: &'static str = "id";

/// Class shown while the focused window has none.
pub const DESKTOP_CLASS: &'static str = "Desktop";

/// Smallest number of workspaces shown.
pub const MIN_WORKSPACES: i32 = 5;

/// The path of the event socket of the compositor instance `instance` under
/// the runtime directory `runtime_dir`.
pub open spec fn socket_path_of(runtime_dir: Seq<char>, instance: Seq<char>) -> Seq<char> {
    runtime_dir + "/hypr/"@ + instance + "/.socket2.sock"@
}

/// Builds the path of the event socket.
pub fn socket_path(runtime_dir: &str, instance: &str) -> (path: String)
    ensures
        path@ == socket_path_of(runtime_dir@, instance@),
{
    let mut path = String::from_str(runtime_dir);
    path.append("/hypr/");
    path.append(instance);
    path.append("/.socket2.sock");
    path
}

/// The class of the focused window.
#[derive(Debug)]
pub struct ActiveWindowClass {
    /// Class of the window, or `Desktop` where the window has none.
    pub class_name: String,
}

impl View for ActiveWindowClass {
    type V = Seq<char>;

    open spec fn view(&self) -> Seq<char> {
        self.class_name@
    }
}

impl Clone for ActiveWindowClass {
    fn clone(&self) -> (r: Self)
        ensures
            r@ == self@,
    {
        ActiveWindowClass { class_name: self.class_name.clone() }
    }
}

impl PartialEq for ActiveWindowClass {
    fn eq(&self, other: &Self) -> (r: bool) {
        self.class_name == other.class_name
    }
}

impl vstd::std_specs::cmp::PartialEqSpecImpl for ActiveWindowClass {
    open spec fn obeys_eq_spec() -> bool {
        true
    }

    open spec fn eq_spec(&self, other: &Self) -> bool {
        self@ == other@
    }
}

/// The class that an event line reports, if it reports a change of focus,
/// that is, if it begins with the name of the focus event. The class is the
/// first field of the payload: what stands before its first comma, or all of
/// it if it holds no comma. Where nothing stands there the class is
/// `Desktop`.
pub open spec fn focused_class(line: Seq<char>) -> Option<Seq<char>> {
    if starts_with(line, ACTIVE_WINDOW_EVENT@) {
        let payload = line.skip(ACTIVE_WINDOW_EVENT@.len() as int);
        let class = before_first(payload, ',');
        if class.len() == 0 {
            Some(DESKTOP_CLASS@)
        } else {
            Some(class)
        }
    } else {
        None
    }
}

/// Reads one line of the event socket for the focus listener. Every line
/// that reports a change of focus yields a class; unchanged classes are not
/// suppressed.
pub fn parse_active_window(line: &str) -> (r: Option<ActiveWindowClass>)
    ensures
        view_of(r) == focused_class(line@),
        r is Some <==> starts_with(line@, ACTIVE_WINDOW_EVENT@),
{
    let text = Text::new(line);
    let event = chars_of(ACTIVE_WINDOW_EVENT);
    if !text.matches_at(0, &event) {
        return None;
    }
    let start = event.len();
    let len = text.len();
    let comma = text.find(start, len, ',');
    proof {
        assert(text@.skip(start as int) =~= text@.subrange(start as int, len as int));
        lemma_split_range(text@, start as int, len as int, ',', comma as int);
    }
    let class_name = if comma == start {
        String::from_str(DESKTOP_CLASS)
    } else {
        text.substring(start, comma)
    };
    Some(ActiveWindowClass { class_name })
}

/// The classes that a run of event lines reports, in the order of the
/// lines: one for each line that reports a change of focus.
pub open spec fn focused_classes(lines: Seq<Seq<char>>) -> Seq<Seq<char>>
    decreases lines.len(),
{
    if lines.len() == 0 {
        Seq::empty()
    } else {
        let before = focused_classes(lines.drop_last());
        match focused_class(lines.last()) {
            Some(class) => before.push(class),
            None => before,
        }
    }
}

/// Every line that reports a change of focus yields exactly one class and
/// no other line yields any: as many classes are reported as there are lines
/// that begin with the name of the focus event.
pub proof fn lemma_every_focus_line_counts(lines: Seq<Seq<char>>)
    ensures
        focused_classes(lines).len() == lines.filter(
            |line: Seq<char>| starts_with(line, ACTIVE_WINDOW_EVENT@),
        ).len(),
    decreases lines.len(),
{
    reveal(Seq::filter);
    if lines.len() > 0 {
        lemma_every_focus_line_counts(lines.drop_last());
    }
}

/// Whether an event line reports a change of the workspaces: it begins with
/// the name of one of the three workspace events.
pub open spec fn is_workspace_change(line: Seq<char>) -> bool {
    ||| starts_with(line, WORKSPACE_EVENT@)
    ||| starts_with(line, DESTROY_WORKSPACE_EVENT@)
    ||| starts_with(line, CREATE_WORKSPACE_EVENT@)
}

/// Whether a line of the event socket calls for new workspace queries.
pub fn is_workspace_event(line: &str) -> (r: bool)
    ensures
        r == is_workspace_change(line@),
{
    let text = Text::new(line);
    text.starts_with(WORKSPACE_EVENT) || text.starts_with(DESTROY_WORKSPACE_EVENT)
        || text.starts_with(CREATE_WORKSPACE_EVENT)
}

/// The active workspace and the number of workspaces to show.
#[derive(Debug, Clone, Copy, PartialEq, Eq, Structural)]
pub struct WorkspaceState {
    /// Number of the active workspace.
    pub active: i32,
    /// Largest workspace number, and at least the smallest number shown.
    pub max: i32,
}

impl WorkspaceState {
    /// At least the smallest number of workspaces is shown.
    pub open spec fn wf(self) -> bool {
        self.max >= MIN_WORKSPACES
    }
}

/// The workspace number for an identifier: its low 32 bits.
pub open spec fn workspace_number(id: i64) -> i32 {
    id as i32
}

/// An identifier that fits 32 bits with a sign is its own workspace number.
pub proof fn lemma_workspace_number_fits(id: i64)
    requires
        i32::MIN <= id <= i32::MAX,
    ensures
        workspace_number(id) == id,
{
}

/// The largest of the workspace numbers of `ids` and the smallest number of
/// workspaces shown. Entries without an identifier do not count.
pub open spec fn largest_workspace(ids: Seq<Option<i64>>) -> i32
    decreases ids.len(),
{
    if ids.len() == 0 {
        MIN_WORKSPACES
    } else {
        let before = largest_workspace(ids.drop_last());
        match ids.last() {
            Some(id) if workspace_number(id) > before => workspace_number(id),
            _ => before,
        }
    }
}

/// `largest_workspace` is at least the smallest number shown and at least
/// every workspace number of the list, and it is one of these.
pub proof fn lemma_largest_workspace(ids: Seq<Option<i64>>)
    ensures
        largest_workspace(ids) >= MIN_WORKSPACES,
        forall|i: int|
            0 <= i < ids.len() && ids[i] is Some ==> largest_workspace(ids) >= workspace_number(
                #[trigger] ids[i]->0,
            ),
        largest_workspace(ids) == MIN_WORKSPACES || exists|i: int|
            0 <= i < ids.len() && ids[i] is Some && largest_workspace(ids) == workspace_number(
                #[trigger] ids[i]->0,
            ),
    decreases ids.len(),
{
    if ids.len() > 0 {
        let before = ids.drop_last();
        lemma_largest_workspace(before);
        assert forall|i: int| 0 <= i < ids.len() && ids[i] is Some implies largest_workspace(ids)
            >= workspace_number(#[trigger] ids[i]->0) by {
            if i < before.len() {
                assert(before[i] == ids[i]);
            }
        }
        if largest_workspace(ids) != MIN_WORKSPACES {
            if largest_workspace(ids) == largest_workspace(before) {
                let i = choose|i: int|
                    0 <= i < before.len() && before[i] is Some && largest_workspace(before)
                        == workspace_number(#[trigger] before[i]->0);
                assert(before[i] == ids[i]);
            } else {
                assert(ids[ids.len() - 1] == ids.last());
            }
        }
    }
}

/// The workspace state for the identifier of the active workspace and the
/// identifiers of all workspaces.
pub open spec fn workspace_state_of(active_id: i64, ids: Seq<Option<i64>>) -> WorkspaceState {
    WorkspaceState { active: workspace_number(active_id), max: largest_workspace(ids) }
}

/// Computes the workspace state from what the two queries gave: the
/// identifier of the active workspace and the identifiers of all workspaces.
/// The state is computed anew for every event and is not compared with the
/// one before.
pub fn workspace_state(active_id: i64, ids: &Vec<Option<i64>>) -> (r: WorkspaceState)
    ensures
        r == workspace_state_of(active_id, ids@),
        r.wf(),
{
    let active = #[verifier::truncate]
    (active_id as i32);
    let mut max = MIN_WORKSPACES;
    let mut i: usize = 0;
    while i < ids.len()
        invariant
            0 <= i <= ids.len(),
            max == largest_workspace(ids@.take(i as int)),
        decreases ids.len() - i,
    {
        proof {
            assert(ids@.take(i + 1).drop_last() =~= ids@.take(i as int));
        }
        match ids[i] {
            Some(id) => {
                let number = #[verifier::truncate]
                (id as i32);
                if number > max {
                    max = number;
                }
            },
            None => {},
        }
        i += 1;
    }
    proof {
        assert(ids@.take(ids.len() as int) =~= ids@);
        lemma_largest_workspace(ids@);
    }
    WorkspaceState { active, max }
}

/// The text of a command's output, `None` standing for a command that could
/// not be run: none unless the output is well-formed UTF-8.
pub open spec fn output_text(output: Option<Seq<u8>>) -> Option<Seq<char>> {
    match output {
        Some(bytes) if valid_utf8(bytes) => Some(decode_utf8(bytes)),
        _ => None,
    }
}

/// The identifier of the active workspace that the output of the query
/// gives.
pub open spec fn reported_active_id(output: Option<Seq<u8>>) -> Option<i64> {
    match output_text(output) {
        Some(text) => json_integer(text, ID_KEY@),
        None => None,
    }
}

/// The identifiers of all workspaces that the output of the query gives.
pub open spec fn reported_ids(output: Option<Seq<u8>>) -> Option<Seq<Option<i64>>> {
    match output_text(output) {
        Some(text) => json_integers(text, ID_KEY@),
        None => None,
    }
}

/// Builds the workspace state from the outputs of the query for the active
/// workspace and of the query for all workspaces. Where either query could
/// not be run or did not give what was asked for, there is no state and the
/// cycle is skipped.
pub fn get_workspace_info(active_output: Option<&[u8]>, list_output: Option<&[u8]>) -> (r:
    Option<WorkspaceState>)
    ensures
        r is Some <==> reported_active_id(view_of(active_output)) is Some && reported_ids(
            view_of(list_output),
        ) is Some,
        r matches Some(s) ==> s.active == workspace_number(
            reported_active_id(view_of(active_output))->0,
        ) && s.max == largest_workspace(reported_ids(view_of(list_output))->0) && s.wf(),
{
    let active_id = match active_output {
        Some(bytes) => match core::str::from_utf8(bytes) {
            Ok(text) => read_integer(text, ID_KEY),
            Err(_) => None,
        },
        None => None,
    };
    let ids = match list_output {
        Some(bytes) => match core::str::from_utf8(bytes) {
            Ok(text) => read_integers(text, ID_KEY),
            Err(_) => None,
        },
        None => None,
    };
    match (active_id, ids) {
        (Some(active_id), Some(ids)) => Some(workspace_state(active_id, &ids)),
        _ => None,
    }
}

} // verus!
