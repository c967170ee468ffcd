//! Window systems: which one to talk to, and what the library learns about
//! the focused window from each compositor's JSON replies.
//!
//! Running `swaymsg`, `hyprctl`, `journalctl` or connecting to the X server
//! is the caller's part; the library receives the parsed replies.

use vstd::prelude::*;
use crate::json::{
    JsonValue, get_key, lookup, as_i64, as_u64, as_bool, as_str, as_array, member_of, opt,
    member, value_as_i64, value_as_u64, value_as_bool, value_as_str, value_as_array,
    json_of, json_of_bytes, parse_json, parse_json_bytes,
};
use crate::text::{owned, concat, to_lowercase, lowercase, str_eq, chars_of, lines_of, lines, string_from_chars};

verus! {

/// Display-session kind.
#[derive(Debug, Clone, Copy, PartialEq, Eq, Structural)]
pub enum WindowSystemType {
    X11,
    Wayland,
}

/// What the tool needs to know about the focused window.
pub trait WindowSystem {
    fn window_system_name(&self) -> &str;

    fn focused_window_extents(&self) -> (i32, i32, i32, i32);

    fn focused_window_pid(&self) -> u32;

    fn focused_application_name(&self) -> &str;

    fn window_system_type(&self) -> WindowSystemType;
}

/// Failure to select a window system.
#[derive(Debug)]
pub struct WindowSystemError {
    pub message: String,
}

impl WindowSystemError {
    /// The text `Display` shows for this error.
    pub fn to_string(&self) -> (r: String)
        ensures
            r@ == "WindowSystemError: "@ + self.message@,
    {
        concat("WindowSystemError: ", self.message.as_str())
    }
}

// ---------------------------------------------------------------------------
// Choosing a window system
// ---------------------------------------------------------------------------

/// Which window-system implementation to construct.
#[derive(Debug, Clone, Copy, PartialEq, Eq, Structural)]
pub enum WindowSystemChoice {
    X11,
    Sway,
    Hyprland,
    Plasmashell,
    Gnome,
    /// Probe the running session (see [`detect`]).
    Detect,
}

/// The implementation named by an already-lowercased name, if any.
pub open spec fn choice_for_lowercase(name: Seq<char>) -> Option<WindowSystemChoice> {
    if name == "x11"@ {
        Some(WindowSystemChoice::X11)
    } else if name == "sway"@ {
        Some(WindowSystemChoice::Sway)
    } else if name == "hyprland"@ {
        Some(WindowSystemChoice::Hyprland)
    } else if name == "plasmashell"@ {
        Some(WindowSystemChoice::Plasmashell)
    } else if name == "gnome-shell"@ || name == "gnome"@ {
        Some(WindowSystemChoice::Gnome)
    } else {
        None
    }
}

/// The implementation an already-lowercased name selects (see
/// [`choice_for_lowercase`]).
pub fn choice_for_name(lower: &str) -> (r: Option<WindowSystemChoice>)
    ensures
        r == choice_for_lowercase(lower@),
{
    if str_eq(lower, "x11") {
        Some(WindowSystemChoice::X11)
    } else if str_eq(lower, "sway") {
        Some(WindowSystemChoice::Sway)
    } else if str_eq(lower, "hyprland") {
        Some(WindowSystemChoice::Hyprland)
    } else if str_eq(lower, "plasmashell") {
        Some(WindowSystemChoice::Plasmashell)
    } else if str_eq(lower, "gnome-shell") || str_eq(lower, "gnome") {
        Some(WindowSystemChoice::Gnome)
    } else {
        None
    }
}

/// The window system to use. A configured override is matched
/// case-insensitively (by its Unicode lowercase form) against `x11`, `sway`,
/// `hyprland`, `plasmashell`, `gnome-shell` and `gnome`; any other override
/// is an error naming it. Without an override the session is probed.
pub fn get_window_system(override_ws: Option<&str>) -> (r: Result<
    WindowSystemChoice,
    WindowSystemError,
>)
    ensures
        match override_ws {
            None => r == Ok::<WindowSystemChoice, WindowSystemError>(WindowSystemChoice::Detect),
            Some(ws) => match choice_for_lowercase(lowercase(ws@)) {
                Some(c) => r == Ok::<WindowSystemChoice, WindowSystemError>(c),
                None => r is Err && r->Err_0.message@ == "Unknown window system: "@ + ws@,
            },
        },
{
    match override_ws {
        Some(ws) => {
            let lower = to_lowercase(ws);
            match choice_for_name(lower.as_str()) {
                Some(c) => Ok(c),
                None => Err(WindowSystemError { message: concat("Unknown window system: ", ws) }),
            }
        },
        None => Ok(WindowSystemChoice::Detect),
    }
}

/// The implementation for a compositor process name; anything unknown falls
/// back to X11.
pub fn create_window_system(name: &str) -> (r: WindowSystemChoice)
    ensures
        r == match choice_for_lowercase(lowercase(name@)) {
            Some(c) => c,
            None => WindowSystemChoice::X11,
        },
{
    let lower = to_lowercase(name);
    match choice_for_name(lower.as_str()) {
        Some(c) => c,
        None => WindowSystemChoice::X11,
    }
}

/// The compositors probed for, in the order they are tried.
pub open spec fn supported_wms() -> Seq<Seq<char>> {
    seq!["sway"@, "Hyprland"@, "plasmashell"@, "gnome-shell"@]
}

/// The implementation [`create_window_system`] picks for a name.
pub open spec fn created_for(name: Seq<char>) -> WindowSystemChoice {
    match choice_for_lowercase(lowercase(name)) {
        Some(c) => c,
        None => WindowSystemChoice::X11,
    }
}

/// The first supported compositor whose name equals the process name,
/// both lowercased.
pub open spec fn wm_for_process(process: Seq<char>) -> Option<Seq<char>> {
    let wms = supported_wms();
    if lowercase(process) == lowercase(wms[0]) {
        Some(wms[0])
    } else if lowercase(process) == lowercase(wms[1]) {
        Some(wms[1])
    } else if lowercase(process) == lowercase(wms[2]) {
        Some(wms[2])
    } else if lowercase(process) == lowercase(wms[3]) {
        Some(wms[3])
    } else {
        None
    }
}

/// The implementation chosen from a list of process names: that of the
/// first process that is a supported compositor, else X11.
pub open spec fn detect_in(processes: Seq<Seq<char>>) -> WindowSystemChoice
    decreases processes.len(),
{
    if processes.len() == 0 {
        WindowSystemChoice::X11
    } else {
        match wm_for_process(processes[0]) {
            Some(wm) => created_for(wm),
            None => detect_in(processes.drop_first()),
        }
    }
}

proof fn lemma_detect_in_skip(processes: Seq<Seq<char>>, i: int)
    requires
        0 <= i <= processes.len(),
        forall|j: int| 0 <= j < i ==> wm_for_process(#[trigger] processes[j]) is None,
    ensures
        detect_in(processes) == detect_in(processes.skip(i)),
    decreases i,
{
    if i > 0 {
        assert(processes.skip(1) =~= processes.drop_first());
        assert forall|j: int| 0 <= j < i - 1 implies wm_for_process(
            #[trigger] processes.drop_first()[j],
        ) is None by {
            assert(processes.drop_first()[j] == processes[j + 1]);
        }
        lemma_detect_in_skip(processes.drop_first(), i - 1);
        assert(processes.drop_first().skip(i - 1) =~= processes.skip(i));
    } else {
        assert(processes.skip(0) =~= processes);
    }
}

/// The first supported compositor whose lowercased name equals an
/// already-lowercased process name.
pub fn wm_for(process_lower: &str) -> (r: Option<&'static str>)
    ensures
        match r {
            Some(w) => exists|k: int|
                0 <= k < 4 && w@ == supported_wms()[k] && process_lower@ == lowercase(
                    supported_wms()[k],
                ) && forall|m: int| 0 <= m < k ==> process_lower@ != lowercase(supported_wms()[m]),
            None => forall|k: int| 0 <= k < 4 ==> process_lower@ != lowercase(supported_wms()[k]),
        },
{
    let w0 = to_lowercase("sway");
    if str_eq(process_lower, w0.as_str()) {
        assert(0 < 4 && "sway"@ == supported_wms()[0]);
        return Some("sway");
    }
    let w1 = to_lowercase("Hyprland");
    if str_eq(process_lower, w1.as_str()) {
        assert("Hyprland"@ == supported_wms()[1]);
        return Some("Hyprland");
    }
    let w2 = to_lowercase("plasmashell");
    if str_eq(process_lower, w2.as_str()) {
        assert("plasmashell"@ == supported_wms()[2]);
        return Some("plasmashell");
    }
    let w3 = to_lowercase("gnome-shell");
    if str_eq(process_lower, w3.as_str()) {
        assert("gnome-shell"@ == supported_wms()[3]);
        return Some("gnome-shell");
    }
    None
}

/// The window system of the running session: on a Wayland session
/// (`XDG_SESSION_TYPE` is `wayland`), the first line of the process list
/// (`ps -e -o comm`) naming a supported compositor decides; otherwise X11.
pub fn detect(session_type: &str, processes: &str) -> (r: WindowSystemChoice)
    ensures
        r == if session_type@ == "wayland"@ {
            detect_in(lines(processes@))
        } else {
            WindowSystemChoice::X11
        },
{
    if !str_eq(session_type, "wayland") {
        return WindowSystemChoice::X11;
    }
    let text = chars_of(processes);
    let all = lines_of(&text);
    let ghost ls = all@.map_values(|l: Vec<char>| l@);
    let mut i: usize = 0;
    while i < all.len()
        invariant
            i <= all@.len(),
            ls == all@.map_values(|l: Vec<char>| l@),
            ls == lines(processes@),
            session_type@ == "wayland"@,
            forall|j: int| 0 <= j < i ==> wm_for_process(#[trigger] ls[j]) is None,
        decreases all@.len() - i,
    {
        let process = string_from_chars(all[i].as_slice());
        let process_lower = to_lowercase(process.as_str());
        assert(process@ == ls[i as int]);
        match wm_for(process_lower.as_str()) {
            Some(wm) => {
                proof {
                    lemma_detect_in_skip(ls, i as int);
                    let rest = ls.skip(i as int);
                    assert(rest[0] == ls[i as int]);
                    assert(rest.len() > 0);
                    assert(wm_for_process(rest[0]) == Some(wm@));
                    assert(detect_in(rest) == created_for(wm@));
                    assert(detect_in(ls) == created_for(wm@));
                }
                return create_window_system(wm);
            },
            None => {
                assert(wm_for_process(ls[i as int]) is None);
            },
        }
        i += 1;
    }
    proof {
        lemma_detect_in_skip(ls, i as int);
        assert(ls.skip(i as int).len() == 0);
    }
    WindowSystemChoice::X11
}

// ---------------------------------------------------------------------------
// Sway
// ---------------------------------------------------------------------------

/// The elements of the array stored under key `k`, or none.
pub open spec fn children_under(entries: Seq<(String, JsonValue)>, k: Seq<char>) -> Seq<JsonValue> {
    match lookup(entries, k) {
        Some(JsonValue::Array(items)) => items@,
        _ => Seq::empty(),
    }
}

/// Whether a tree node says `"focused": true`.
pub open spec fn node_is_focused(v: JsonValue) -> bool {
    as_bool(get_key(v, "focused"@)) == Some(true)
}

/// A value found by key is the value of some member.
pub proof fn lemma_lookup_member(entries: Seq<(String, JsonValue)>, k: Seq<char>)
    ensures
        lookup(entries, k) matches Some(x) ==> exists|j: int|
            0 <= j < entries.len() && entries[j].1 == x,
    decreases entries.len(),
{
    if entries.len() > 0 && entries[0].0@ != k {
        lemma_lookup_member(entries.drop_first(), k);
        if lookup(entries, k) is Some {
            let x = lookup(entries, k)->0;
            let j = choose|j: int| 0 <= j < entries.drop_first().len() && entries.drop_first()[j].1 == x;
            assert(entries[j + 1].1 == x);
        }
    }
}

/// The children stored under a key of an object are smaller than it.
pub proof fn lemma_children_smaller(v: JsonValue, k: Seq<char>)
    requires
        v is Object,
    ensures
        children_under(v->Object_0@, k).len() > 0 ==> decreases_to!(v => children_under(v->Object_0@, k)),
{
    let entries = v->Object_0;
    lemma_lookup_member(entries@, k);
    match lookup(entries@, k) {
        Some(JsonValue::Array(items)) => {
            let j = choose|j: int| 0 <= j < entries@.len() && entries@[j].1 == JsonValue::Array(items);
            assert(decreases_to!(v => entries));
            assert(decreases_to!(entries => entries@));
            assert(decreases_to!(entries@ => entries@[j]));
            assert(decreases_to!(entries@[j] => entries@[j].1));
            assert(decreases_to!(JsonValue::Array(items) => items));
            assert(decreases_to!(items => items@));
        },
        _ => {},
    }
}

/// The focused node of a sway tree: the node itself when focused, else the
/// first focused node found depth-first among its `nodes`, then among its
/// `floating_nodes`.
pub open spec fn find_focused(v: JsonValue) -> Option<JsonValue>
    decreases v, 1nat,
{
    if node_is_focused(v) {
        Some(v)
    } else {
        match v {
            JsonValue::Object(entries) => {
                proof {
                    lemma_children_smaller(v, "nodes"@);
                    lemma_children_smaller(v, "floating_nodes"@);
                }
                let nodes = children_under(entries@, "nodes"@);
                let floating = children_under(entries@, "floating_nodes"@);
                let in_nodes = if nodes.len() > 0 {
                    find_first(nodes)
                } else {
                    None
                };
                match in_nodes {
                    Some(x) => Some(x),
                    None => if floating.len() > 0 {
                        find_first(floating)
                    } else {
                        None
                    },
                }
            },
            _ => None,
        }
    }
}

/// The first focused node found in a list of subtrees.
pub open spec fn find_first(items: Seq<JsonValue>) -> Option<JsonValue>
    decreases items, 0nat,
{
    if items.len() == 0 {
        None
    } else {
        match find_focused(items[0]) {
            Some(x) => Some(x),
            None => find_first(items.drop_first()),
        }
    }
}

proof fn lemma_find_first_skip(items: Seq<JsonValue>, i: int)
    requires
        0 <= i <= items.len(),
        forall|j: int| 0 <= j < i ==> find_focused(#[trigger] items[j]) is None,
    ensures
        find_first(items) == find_first(items.skip(i)),
    decreases i,
{
    if i > 0 {
        assert(items.skip(1) =~= items.drop_first());
        assert forall|j: int| 0 <= j < i - 1 implies find_focused(
            #[trigger] items.drop_first()[j],
        ) is None by {
            assert(items.drop_first()[j] == items[j + 1]);
        }
        lemma_find_first_skip(items.drop_first(), i - 1);
        assert(items.drop_first().skip(i - 1) =~= items.skip(i));
    } else {
        assert(items.skip(0) =~= items);
    }
}

/// The node reached from `v` by following `path`: each step picks a child
/// by its index, from the node's `floating_nodes` where the step's flag is
/// set and from its `nodes` otherwise.
pub open spec fn node_at(v: JsonValue, path: Seq<(bool, int)>) -> Option<JsonValue>
    decreases path.len(),
{
    if path.len() == 0 {
        Some(v)
    } else {
        match v {
            JsonValue::Object(entries) => {
                let children = children_under(
                    entries@,
                    if path[0].0 {
                        "floating_nodes"@
                    } else {
                        "nodes"@
                    },
                );
                if 0 <= path[0].1 < children.len() {
                    node_at(children[path[0].1], path.drop_first())
                } else {
                    None
                }
            },
            _ => None,
        }
    }
}

proof fn lemma_found_in_list(items: Seq<JsonValue>, i: int)
    requires
        0 <= i < items.len(),
        find_focused(items[i]) is Some,
    ensures
        find_first(items) is Some,
    decreases i,
{
    if i > 0 && find_focused(items[0]) is None {
        assert(items.drop_first()[i - 1] == items[i]);
        lemma_found_in_list(items.drop_first(), i - 1);
    }
}

/// The sway search misses no focused node: when some node of the tree, at
/// any depth below the root through `nodes` or `floating_nodes`, is
/// focused, the search finds a node, and the node it finds is focused.
pub proof fn focused_nodes_are_found(v: JsonValue, path: Seq<(bool, int)>)
    requires
        node_at(v, path) matches Some(n) && node_is_focused(n),
    ensures
        find_focused(v) matches Some(x) && node_is_focused(x),
    decreases path.len(),
{
    found_node_is_focused(v);
    if path.len() > 0 && !node_is_focused(v) {
        let entries = v->Object_0;
        let key = if path[0].0 {
            "floating_nodes"@
        } else {
            "nodes"@
        };
        let children = children_under(entries@, key);
        let i = path[0].1;
        focused_nodes_are_found(children[i], path.drop_first());
        lemma_found_in_list(children, i);
    }
}

/// Searches a list of subtrees for the first focused node.
fn find_in_children<'a>(parent: &'a JsonValue, items: &'a Vec<JsonValue>, key: &str) -> (r: Option<
    &'a JsonValue,
>)
    requires
        parent is Object,
        items@ == children_under(parent->Object_0@, key@),
        items@.len() > 0,
    ensures
        opt(r) == find_first(items@),
    decreases parent, 0nat,
{
    let mut i: usize = 0;
    while i < items.len()
        invariant
            i <= items@.len(),
            parent is Object,
            items@ == children_under(parent->Object_0@, key@),
            items@.len() > 0,
            forall|j: int| 0 <= j < i ==> find_focused(#[trigger] items@[j]) is None,
        decreases items@.len() - i,
    {
        proof {
            lemma_children_smaller(*parent, key@);
            assert(decreases_to!(items@ => items@[i as int]));
        }
        let found = find_focused_node(&items[i]);
        if found.is_some() {
            proof {
                lemma_find_first_skip(items@, i as int);
                assert(items@.skip(i as int)[0] == items@[i as int]);
            }
            return found;
        }
        i += 1;
    }
    proof {
        lemma_find_first_skip(items@, i as int);
    }
    None
}

/// The focused node of a sway tree (see [`find_focused`]).
pub fn find_focused_node(node: &JsonValue) -> (r: Option<&JsonValue>)
    ensures
        opt(r) == find_focused(*node),
        (exists|path: Seq<(bool, int)>|
            (#[trigger] node_at(*node, path) matches Some(n) && node_is_focused(n))) ==> (r matches Some(
            f,
        ) && node_is_focused(*f)),
    decreases node, 1nat,
{
    proof {
        if exists|path: Seq<(bool, int)>|
            (#[trigger] node_at(*node, path) matches Some(n) && node_is_focused(n)) {
            let path = choose|path: Seq<(bool, int)>|
                (#[trigger] node_at(*node, path) matches Some(n) && node_is_focused(n));
            focused_nodes_are_found(*node, path);
        }
    }
    if value_as_bool(node.get_key("focused")) == Some(true) {
        return Some(node);
    }
    match node {
        JsonValue::Object(_) => {
            match value_as_array(node.get_key("nodes")) {
                Some(items) => {
                    if items.len() > 0 {
                        let found = find_in_children(node, items, "nodes");
                        if found.is_some() {
                            return found;
                        }
                    }
                },
                None => {},
            }
            match value_as_array(node.get_key("floating_nodes")) {
                Some(items) => {
                    if items.len() > 0 {
                        return find_in_children(node, items, "floating_nodes");
                    }
                },
                None => {},
            }
            None
        },
        _ => None,
    }
}

/// `value.as_i64().unwrap_or(0)`.
pub open spec fn int_or_zero(v: Option<JsonValue>) -> i64 {
    match as_i64(v) {
        Some(n) => n,
        None => 0,
    }
}

/// `value.as_u64().unwrap_or(0)`.
pub open spec fn uint_or_zero(v: Option<JsonValue>) -> u64 {
    match as_u64(v) {
        Some(n) => n,
        None => 0,
    }
}

/// `value.as_str().unwrap_or("")`.
pub open spec fn str_or_empty(v: Option<JsonValue>) -> Seq<char> {
    match as_str(v) {
        Some(s) => s,
        None => Seq::empty(),
    }
}

fn int_or_zero_of(v: Option<&JsonValue>) -> (r: i64)
    ensures
        r == int_or_zero(opt(v)),
{
    match value_as_i64(v) {
        Some(n) => n,
        None => 0,
    }
}

fn uint_or_zero_of(v: Option<&JsonValue>) -> (r: u64)
    ensures
        r == uint_or_zero(opt(v)),
{
    match value_as_u64(v) {
        Some(n) => n,
        None => 0,
    }
}

fn str_or_empty_of(v: Option<&JsonValue>) -> (r: String)
    ensures
        r@ == str_or_empty(opt(v)),
{
    match value_as_str(v) {
        Some(s) => s.clone(),
        None => String::new(),
    }
}

/// The focused window as sway reports it.
#[derive(Debug)]
pub struct SwayWindow {
    pub x: i32,
    pub y: i32,
    pub width: i32,
    pub height: i32,
    pub pid: u32,
    pub app_id: String,
}

/// The window system of a sway session.
#[derive(Debug)]
pub struct SwayImpl {
    pub focused_window: SwayWindow,
}

/// The window sway reports for its focused node (absent fields read as
/// zero or empty; integers truncated to 32 bits).
pub open spec fn sway_window_matches(w: SwayWindow, focused: Option<JsonValue>) -> bool {
    let rect = member_of(focused, "rect"@);
    &&& w.x == int_or_zero(member_of(rect, "x"@)) as i32
    &&& w.y == int_or_zero(member_of(rect, "y"@)) as i32
    &&& w.width == int_or_zero(member_of(rect, "width"@)) as i32
    &&& w.height == int_or_zero(member_of(rect, "height"@)) as i32
    &&& w.pid == uint_or_zero(member_of(focused, "pid"@)) as u32
    &&& w.app_id@ == str_or_empty(member_of(focused, "app_id"@))
}

impl SwayImpl {
    /// Reads the focused window out of `swaymsg -t get_tree`'s reply.
    pub fn new(tree: &JsonValue) -> (r: SwayImpl)
        ensures
            sway_window_matches(r.focused_window, find_focused(*tree)),
            (exists|path: Seq<(bool, int)>|
                (#[trigger] node_at(*tree, path) matches Some(n) && node_is_focused(n))) ==> (find_focused(
                *tree,
            ) matches Some(f) && node_is_focused(f) && sway_window_matches(r.focused_window, Some(f))),
    {
        let focused = find_focused_node(tree);
        let rect = member(focused, "rect");
        SwayImpl {
            focused_window: SwayWindow {
                x: int_or_zero_of(member(rect, "x")) as i32,
                y: int_or_zero_of(member(rect, "y")) as i32,
                width: int_or_zero_of(member(rect, "width")) as i32,
                height: int_or_zero_of(member(rect, "height")) as i32,
                pid: uint_or_zero_of(member(focused, "pid")) as u32,
                app_id: str_or_empty_of(member(focused, "app_id")),
            },
        }
    }
}

impl SwayImpl {
    /// Reads the focused window out of the raw reply of `swaymsg -t
    /// get_tree`: nothing where the reply is not JSON.
    pub fn from_reply(reply: &[u8]) -> (r: Option<SwayImpl>)
        ensures
            match json_of_bytes(reply@) {
                None => r is None,
                Some(tree) => r matches Some(s) && sway_window_matches(s.focused_window, find_focused(tree)),
            },
    {
        match parse_json_bytes(reply) {
            Some(tree) => Some(SwayImpl::new(&tree)),
            None => None,
        }
    }
}

impl WindowSystem for SwayImpl {
    fn window_system_name(&self) -> (r: &str)
        ensures
            r@ == "sway"@,
    {
        "sway"
    }

    fn focused_window_extents(&self) -> (r: (i32, i32, i32, i32))
        ensures
            r == (
                self.focused_window.x,
                self.focused_window.y,
                self.focused_window.width,
                self.focused_window.height,
            ),
    {
        (
            self.focused_window.x,
            self.focused_window.y,
            self.focused_window.width,
            self.focused_window.height,
        )
    }

    fn focused_window_pid(&self) -> (r: u32)
        ensures
            r == self.focused_window.pid,
    {
        self.focused_window.pid
    }

    fn focused_application_name(&self) -> (r: &str)
        ensures
            r@ == self.focused_window.app_id@,
    {
        self.focused_window.app_id.as_str()
    }

    fn window_system_type(&self) -> (r: WindowSystemType)
        ensures
            r == WindowSystemType::Wayland,
    {
        WindowSystemType::Wayland
    }
}

// ---------------------------------------------------------------------------
// Hyprland
// ---------------------------------------------------------------------------

/// The focused window as Hyprland reports it.
#[derive(Debug)]
pub struct HyprlandWindow {
    pub at: (i32, i32),
    pub size: (i32, i32),
    pub pid: u32,
    pub class: String,
}

/// The window system of a Hyprland session.
#[derive(Debug)]
pub struct HyprlandImpl {
    pub focused_window: HyprlandWindow,
}

/// A pair read from a two-element array (`(0, 0)` when not an array).
pub open spec fn pair_of(v: Option<JsonValue>) -> (i32, i32) {
    match as_array(v) {
        Some(items) => (
            int_or_zero(Some(items[0])) as i32,
            int_or_zero(Some(items[1])) as i32,
        ),
        None => (0, 0),
    }
}

/// Whether a value is either not an array or an array of at least two
/// elements (indexing a shorter one panics).
pub open spec fn pair_readable(v: Option<JsonValue>) -> bool {
    match as_array(v) {
        Some(items) => items.len() >= 2,
        None => true,
    }
}

fn pair_from(v: Option<&JsonValue>) -> (r: (i32, i32))
    requires
        pair_readable(opt(v)),
    ensures
        r == pair_of(opt(v)),
{
    match value_as_array(v) {
        Some(items) => (
            int_or_zero_of(Some(&items[0])) as i32,
            int_or_zero_of(Some(&items[1])) as i32,
        ),
        None => (0, 0),
    }
}

impl HyprlandImpl {
    /// Reads the focused window out of `hyprctl activewindow -j`'s reply.
    pub fn new(json: &JsonValue) -> (r: HyprlandImpl)
        requires
            pair_readable(get_key(*json, "at"@)),
            pair_readable(get_key(*json, "size"@)),
        ensures
            r.focused_window.at == pair_of(get_key(*json, "at"@)),
            r.focused_window.size == pair_of(get_key(*json, "size"@)),
            r.focused_window.pid == uint_or_zero(get_key(*json, "pid"@)) as u32,
            r.focused_window.class@ == str_or_empty(get_key(*json, "class"@)),
    {
        HyprlandImpl {
            focused_window: HyprlandWindow {
                at: pair_from(json.get_key("at")),
                size: pair_from(json.get_key("size")),
                pid: uint_or_zero_of(json.get_key("pid")) as u32,
                class: str_or_empty_of(json.get_key("class")),
            },
        }
    }
}

/// Whether a possibly absent value can be read as a pair (see
/// [`pair_readable`]).
pub fn pair_readable_value(v: Option<&JsonValue>) -> (r: bool)
    ensures
        r == pair_readable(opt(v)),
{
    match value_as_array(v) {
        Some(items) => items.len() >= 2,
        None => true,
    }
}

impl HyprlandImpl {
    /// Reads the focused window out of the raw reply of `hyprctl
    /// activewindow -j`: nothing where the reply is not JSON, or where `at`
    /// or `size` is an array of fewer than two elements.
    pub fn from_reply(reply: &[u8]) -> (r: Option<HyprlandImpl>)
        ensures
            match json_of_bytes(reply@) {
                None => r is None,
                Some(json) => if pair_readable(get_key(json, "at"@)) && pair_readable(
                    get_key(json, "size"@),
                ) {
                    r matches Some(h) && h.focused_window.at == pair_of(get_key(json, "at"@))
                        && h.focused_window.size == pair_of(get_key(json, "size"@))
                        && h.focused_window.pid == uint_or_zero(get_key(json, "pid"@)) as u32
                        && h.focused_window.class@ == str_or_empty(get_key(json, "class"@))
                } else {
                    r is None
                },
            },
    {
        match parse_json_bytes(reply) {
            Some(json) => {
                if pair_readable_value(json.get_key("at")) && pair_readable_value(json.get_key("size")) {
                    Some(HyprlandImpl::new(&json))
                } else {
                    None
                }
            },
            None => None,
        }
    }
}

impl WindowSystem for HyprlandImpl {
    fn window_system_name(&self) -> (r: &str)
        ensures
            r@ == "Hyprland"@,
    {
        "Hyprland"
    }

    fn focused_window_extents(&self) -> (r: (i32, i32, i32, i32))
        ensures
            r == (
                self.focused_window.at.0,
                self.focused_window.at.1,
                self.focused_window.size.0,
                self.focused_window.size.1,
            ),
    {
        (
            self.focused_window.at.0,
            self.focused_window.at.1,
            self.focused_window.size.0,
            self.focused_window.size.1,
        )
    }

    fn focused_window_pid(&self) -> (r: u32)
        ensures
            r == self.focused_window.pid,
    {
        self.focused_window.pid
    }

    fn focused_application_name(&self) -> (r: &str)
        ensures
            r@ == self.focused_window.class@,
    {
        self.focused_window.class.as_str()
    }

    fn window_system_type(&self) -> (r: WindowSystemType)
        ensures
            r == WindowSystemType::Wayland,
    {
        WindowSystemType::Wayland
    }
}

// ---------------------------------------------------------------------------
// KDE Plasma
// ---------------------------------------------------------------------------

/// The active window as the KWin script reports it.
#[derive(Debug)]
pub struct PlasmashellWindow {
    pub extents: (i32, i32, i32, i32),
    pub pid: u32,
    pub name: String,
}

/// The window system of a KDE Plasma session.
#[derive(Debug)]
pub struct PlasmashellImpl {
    pub active_window: PlasmashellWindow,
}

/// Element `i` of an array read as an integer, `0` when absent.
pub open spec fn extent_at(v: Option<JsonValue>, i: int) -> i32 {
    match as_array(v) {
        Some(items) => if 0 <= i < items.len() {
            int_or_zero(Some(items[i])) as i32
        } else {
            0
        },
        None => 0,
    }
}

fn extent_from(v: Option<&JsonValue>, i: usize) -> (r: i32)
    ensures
        r == extent_at(opt(v), i as int),
{
    match value_as_array(v) {
        Some(items) => if i < items.len() {
            int_or_zero_of(Some(&items[i])) as i32
        } else {
            0
        },
        None => 0,
    }
}

impl PlasmashellImpl {
    /// Reads the active window out of the KWin script's journal output,
    /// parsed as JSON (an empty object when it did not parse).
    pub fn new(data: &JsonValue) -> (r: PlasmashellImpl)
        ensures
            r.active_window.extents == (
                extent_at(get_key(*data, "extents"@), 0),
                extent_at(get_key(*data, "extents"@), 1),
                extent_at(get_key(*data, "extents"@), 2),
                extent_at(get_key(*data, "extents"@), 3),
            ),
            r.active_window.pid == uint_or_zero(get_key(*data, "pid"@)) as u32,
            r.active_window.name@ == str_or_empty(get_key(*data, "name"@)),
    {
        let extents = data.get_key("extents");
        PlasmashellImpl {
            active_window: PlasmashellWindow {
                extents: (
                    extent_from(extents, 0),
                    extent_from(extents, 1),
                    extent_from(extents, 2),
                    extent_from(extents, 3),
                ),
                pid: uint_or_zero_of(data.get_key("pid")) as u32,
                name: str_or_empty_of(data.get_key("name")),
            },
        }
    }
}

impl PlasmashellImpl {
    /// Reads the active window out of the KWin script's journal output: its
    /// JSON document, or an object without members where it is not JSON.
    pub fn from_journal(text: &str) -> (r: PlasmashellImpl)
        ensures
            r.active_window.extents == (
                extent_at(member_of(json_of(text@), "extents"@), 0),
                extent_at(member_of(json_of(text@), "extents"@), 1),
                extent_at(member_of(json_of(text@), "extents"@), 2),
                extent_at(member_of(json_of(text@), "extents"@), 3),
            ),
            r.active_window.pid == uint_or_zero(member_of(json_of(text@), "pid"@)) as u32,
            r.active_window.name@ == str_or_empty(member_of(json_of(text@), "name"@)),
    {
        match parse_json(text) {
            Some(data) => PlasmashellImpl::new(&data),
            None => {
                let empty = JsonValue::Object(Vec::new());
                assert(get_key(empty, "extents"@) is None);
                PlasmashellImpl::new(&empty)
            },
        }
    }
}

impl WindowSystem for PlasmashellImpl {
    fn window_system_name(&self) -> (r: &str)
        ensures
            r@ == "plasmashell"@,
    {
        "plasmashell"
    }

    fn focused_window_extents(&self) -> (r: (i32, i32, i32, i32))
        ensures
            r == self.active_window.extents,
    {
        self.active_window.extents
    }

    fn focused_window_pid(&self) -> (r: u32)
        ensures
            r == self.active_window.pid,
    {
        self.active_window.pid
    }

    fn focused_application_name(&self) -> (r: &str)
        ensures
            r@ == self.active_window.name@,
    {
        self.active_window.name.as_str()
    }

    fn window_system_type(&self) -> (r: WindowSystemType)
        ensures
            r == WindowSystemType::Wayland,
    {
        WindowSystemType::Wayland
    }
}

// ---------------------------------------------------------------------------
// GNOME
// ---------------------------------------------------------------------------

/// The focused window on GNOME (no source of it is wired up yet: all zero).
#[derive(Debug)]
pub struct GnomeWindowInfo {
    pub x: i32,
    pub y: i32,
    pub width: i32,
    pub height: i32,
    pub pid: u32,
    pub name: String,
    pub monitor: i32,
}

/// The window system of a GNOME session.
#[derive(Debug)]
pub struct GnomeImpl {
    pub window_info: GnomeWindowInfo,
}

impl GnomeImpl {
    /// A GNOME window system with an all-zero focused window.
    pub fn new() -> (r: GnomeImpl)
        ensures
            r.window_info.x == 0 && r.window_info.y == 0,
            r.window_info.width == 0 && r.window_info.height == 0,
            r.window_info.pid == 0 && r.window_info.monitor == 0,
            r.window_info.name@.len() == 0,
    {
        GnomeImpl { window_info: Self::get_focused_window_info() }
    }

    /// The focused window's details: all zero and empty.
    pub fn get_focused_window_info() -> (r: GnomeWindowInfo)
        ensures
            r.x == 0 && r.y == 0 && r.width == 0 && r.height == 0,
            r.pid == 0 && r.monitor == 0,
            r.name@.len() == 0,
    {
        GnomeWindowInfo { x: 0, y: 0, width: 0, height: 0, pid: 0, name: String::new(), monitor: 0 }
    }
}

impl WindowSystem for GnomeImpl {
    fn window_system_name(&self) -> (r: &str)
        ensures
            r@ == "gnome"@,
    {
        "gnome"
    }

    fn focused_window_extents(&self) -> (r: (i32, i32, i32, i32))
        ensures
            r == (
                self.window_info.x,
                self.window_info.y,
                self.window_info.width,
                self.window_info.height,
            ),
    {
        (self.window_info.x, self.window_info.y, self.window_info.width, self.window_info.height)
    }

    fn focused_window_pid(&self) -> (r: u32)
        ensures
            r == self.window_info.pid,
    {
        self.window_info.pid
    }

    fn focused_application_name(&self) -> (r: &str)
        ensures
            r@ == self.window_info.name@,
    {
        self.window_info.name.as_str()
    }

    fn window_system_type(&self) -> (r: WindowSystemType)
        ensures
            r == WindowSystemType::Wayland,
    {
        WindowSystemType::Wayland
    }
}

// ---------------------------------------------------------------------------
// X11
// ---------------------------------------------------------------------------

/// The window whose geometry is reported on X11: the last (topmost) child
/// of the root window, `0` when there is none.
pub fn topmost_window(children: &[u32]) -> (r: u32)
    ensures
        r == if children@.len() == 0 {
            0u32
        } else {
            children@.last()
        },
{
    if children.len() == 0 {
        0
    } else {
        children[children.len() - 1]
    }
}

/// Extents of the X11 focused window: zero when there is no window,
/// otherwise its geometry widened to `i32`.
pub fn x11_extents(window: u32, geometry: (i16, i16, u16, u16)) -> (r: (i32, i32, i32, i32))
    ensures
        r == if window == 0 {
            (0i32, 0i32, 0i32, 0i32)
        } else {
            (geometry.0 as i32, geometry.1 as i32, geometry.2 as i32, geometry.3 as i32)
        },
{
    if window == 0 {
        (0, 0, 0, 0)
    } else {
        (geometry.0 as i32, geometry.1 as i32, geometry.2 as i32, geometry.3 as i32)
    }
}

/// The node the sway search finds is focused, and a focused root is found
/// itself.
pub proof fn found_node_is_focused(v: JsonValue)
    ensures
        find_focused(v) matches Some(x) ==> node_is_focused(x),
        node_is_focused(v) ==> find_focused(v) == Some(v),
    decreases v, 1nat,
{
    if !node_is_focused(v) {
        match v {
            JsonValue::Object(entries) => {
                let nodes = children_under(entries@, "nodes"@);
                let floating = children_under(entries@, "floating_nodes"@);
                lemma_children_smaller(v, "nodes"@);
                lemma_children_smaller(v, "floating_nodes"@);
                if nodes.len() > 0 {
                    found_in_list_is_focused(nodes);
                }
                if floating.len() > 0 {
                    found_in_list_is_focused(floating);
                }
            },
            _ => {},
        }
    }
}

proof fn found_in_list_is_focused(items: Seq<JsonValue>)
    ensures
        find_first(items) matches Some(x) ==> node_is_focused(x),
    decreases items, 0nat,
{
    if items.len() > 0 {
        found_node_is_focused(items[0]);
        found_in_list_is_focused(items.drop_first());
    }
}

} // verus!
