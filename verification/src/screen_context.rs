//! Focused-window text for biasing: the accessibility-tree walk (which
//! roles are chrome, which are content, the node and depth budget, the
//! depth-first order, how fragments are gathered and joined), the capture
//! records, and the event announcing a capture. The accessibility calls
//! live with the application, which reads each node the walk asks for.

use vstd::prelude::*;
use vstd::string::StrSliceExecFns;
use crate::proper_nouns::{extract_candidates, spec_extract};
use crate::text::{chars_of, join_sep, str_eq, strs, trim_whitespace, trim_ws};

verus! {

/// Characters a focused element's own value needs to be used as the context
/// on its own.
pub const MIN_USEFUL_LEN: usize = 20;

/// Budget of the accessibility walk, in milliseconds.
pub const AX_BUDGET_MS: u64 = 300;

/// Budget of the text-recognition path, in milliseconds.
pub const OCR_BUDGET_MS: u64 = 500;

/// Deepest level of the tree the walk visits.
pub const MAX_DEPTH: u32 = 8;

/// Most nodes the walk visits.
pub const MAX_NODES: u32 = 500;

/// Most proper-noun candidates announced for a capture.
pub const MAX_ANNOUNCED_CANDIDATES: usize = 50;

/// Where captured text came from.
#[derive(Debug, Clone, Copy, PartialEq, Eq, Structural)]
pub enum CaptureSource {
    Ax,
    Ocr,
}

/// Text captured from the focused window, with the app it came from.
#[derive(Debug, Clone)]
pub struct ContextCapture {
    pub text: String,
    pub source: CaptureSource,
    pub bundle_id: Option<String>,
    pub app_name: Option<String>,
    pub latency_ms: u64,
}

/// The announcement of a capture: the candidates and metadata, never the
/// raw text.
#[derive(Debug, Clone)]
pub struct ContextCapturedEvent {
    pub candidates: Vec<String>,
    pub source: CaptureSource,
    pub bundle_id: Option<String>,
    pub app_name: Option<String>,
    pub latency_ms: u64,
    /// Length in characters of the captured text.
    pub raw_text_len: usize,
}

/// Roles that are pure chrome: never collected from or descended into.
pub open spec fn is_chrome_role_spec(role: Seq<char>) -> bool {
    role == "AXButton"@ || role == "AXMenuButton"@ || role == "AXPopUpButton"@ || role == "AXCheckBox"@
        || role == "AXRadioButton"@ || role == "AXToolbar"@ || role == "AXMenuBar"@ || role == "AXMenuBarItem"@
        || role == "AXMenu"@ || role == "AXMenuItem"@ || role == "AXTab"@ || role == "AXTabGroup"@
        || role == "AXScrollBar"@ || role == "AXSplitter"@ || role == "AXIncrementor"@ || role == "AXImage"@
        || role == "AXBusyIndicator"@ || role == "AXProgressIndicator"@ || role == "AXDisclosureTriangle"@
}

/// Whether an element of `role` is chrome.
pub fn is_chrome_role(role: &str) -> (r: bool)
    ensures
        r == is_chrome_role_spec(role@),
{
    str_eq(role, "AXButton") || str_eq(role, "AXMenuButton") || str_eq(role, "AXPopUpButton") || str_eq(role, "AXCheckBox")
        || str_eq(role, "AXRadioButton") || str_eq(role, "AXToolbar") || str_eq(role, "AXMenuBar") || str_eq(role, "AXMenuBarItem")
        || str_eq(role, "AXMenu") || str_eq(role, "AXMenuItem") || str_eq(role, "AXTab") || str_eq(role, "AXTabGroup")
        || str_eq(role, "AXScrollBar") || str_eq(role, "AXSplitter") || str_eq(role, "AXIncrementor") || str_eq(role, "AXImage")
        || str_eq(role, "AXBusyIndicator") || str_eq(role, "AXProgressIndicator") || str_eq(role, "AXDisclosureTriangle")
}

/// Roles of content containers, which scope the walk to document content.
pub open spec fn is_content_container_spec(role: Seq<char>) -> bool {
    role == "AXWebArea"@ || role == "AXTextArea"@ || role == "AXScrollArea"@ || role == "AXTable"@
        || role == "AXOutline"@ || role == "AXList"@ || role == "AXSheet"@
}

/// Whether an element of `role` is a content container.
pub fn is_content_container_role(role: &str) -> (r: bool)
    ensures
        r == is_content_container_spec(role@),
{
    str_eq(role, "AXWebArea") || str_eq(role, "AXTextArea") || str_eq(role, "AXScrollArea") || str_eq(role, "AXTable")
        || str_eq(role, "AXOutline") || str_eq(role, "AXList") || str_eq(role, "AXSheet")
}

/// The focused element's own value, trimmed, when it is long enough to serve
/// as the context by itself.
pub fn useful_focused_value(value: &str) -> (r: Option<String>)
    ensures
        match r {
            Some(t) => t@ == trim_ws(value@) && trim_ws(value@).len() >= MIN_USEFUL_LEN,
            None => trim_ws(value@).len() < MIN_USEFUL_LEN,
        },
{
    let t = trim_whitespace(value);
    if chars_of(t).len() >= MIN_USEFUL_LEN {
        Some(t.to_string())
    } else {
        None
    }
}

/// Progress of one walk: nodes visited and the text fragments gathered.
pub struct TraversalState {
    pub nodes_visited: u32,
    pub fragments: Vec<String>,
}

impl TraversalState {
    /// A walk that has visited nothing.
    pub fn new() -> (s: Self)
        ensures
            s.nodes_visited == 0,
            s.fragments@.len() == 0,
    {
        TraversalState { nodes_visited: 0, fragments: Vec::new() }
    }

    /// Enter a node at `depth`: refused once the node budget is spent or past
    /// the depth limit; otherwise the node is counted.
    pub fn enter(&mut self, depth: u32) -> (go: bool)
        ensures
            go == (old(self).nodes_visited < MAX_NODES && depth <= MAX_DEPTH),
            go ==> final(self).nodes_visited == old(self).nodes_visited + 1,
            !go ==> final(self).nodes_visited == old(self).nodes_visited,
            final(self).fragments == old(self).fragments,
    {
        if self.nodes_visited >= MAX_NODES || depth > MAX_DEPTH {
            return false;
        }
        self.nodes_visited = self.nodes_visited + 1;
        true
    }

    /// Whether the node budget is spent.
    pub fn exhausted(&self) -> (r: bool)
        ensures
            r == (self.nodes_visited >= MAX_NODES),
    {
        self.nodes_visited >= MAX_NODES
    }

    /// Gather one attribute value: trimmed, kept when not empty.
    pub fn collect(&mut self, value: &str)
        ensures
            final(self).nodes_visited == old(self).nodes_visited,
            strs(final(self).fragments@) == (if trim_ws(value@).len() > 0 {
                strs(old(self).fragments@).push(trim_ws(value@))
            } else {
                strs(old(self).fragments@)
            }),
    {
        let t = trim_whitespace(value);
        if !t.is_empty() {
            let ghost before = strs(self.fragments@);
            self.fragments.push(t.to_string());
            assert(strs(self.fragments@) =~= before.push(t@));
        }
    }

    /// The gathered text: fragments joined by " \n".
    pub fn joined(&self) -> (r: String)
        ensures
            r@ == join_sep(strs(self.fragments@), " \n"@),
    {
        crate::text::join_strings(self.fragments.as_slice(), " \n")
    }
}

/// Whether the focused-window walk is still needed after the element and
/// container strategies: the text gathered so far is too short.
pub fn needs_window_fallback(text: &str) -> (r: bool)
    ensures
        r == (text@.len() < MIN_USEFUL_LEN),
{
    chars_of(text).len() < MIN_USEFUL_LEN
}

/// A capture of `text` from `source`, or none when the text is blank.
pub fn make_capture(text: String, source: CaptureSource, bundle_id: Option<String>, app_name: Option<String>, latency_ms: u64) -> (r: Option<ContextCapture>)
    ensures
        match r {
            Some(c) => trim_ws(text@).len() > 0 && c.text == text && c.source == source
                && c.bundle_id == bundle_id && c.app_name == app_name && c.latency_ms == latency_ms,
            None => trim_ws(text@).len() == 0,
        },
{
    if trim_whitespace(text.as_str()).is_empty() {
        return None;
    }
    Some(ContextCapture { text, source, bundle_id, app_name, latency_ms })
}

/// The event announcing `capture`: its proper-noun candidates (at most
/// fifty), its metadata, and the length of its text in characters.
pub fn captured_event(capture: &ContextCapture) -> (e: ContextCapturedEvent)
    ensures
        strs(e.candidates@) == spec_extract(capture.text@, MAX_ANNOUNCED_CANDIDATES as nat),
        e.source == capture.source,
        e.bundle_id == capture.bundle_id,
        e.app_name == capture.app_name,
        e.latency_ms == capture.latency_ms,
        e.raw_text_len == capture.text@.len(),
{
    let candidates = extract_candidates(capture.text.as_str(), MAX_ANNOUNCED_CANDIDATES);
    let raw_text_len = chars_of(capture.text.as_str()).len();
    ContextCapturedEvent {
        candidates,
        source: capture.source,
        bundle_id: capture.bundle_id.clone(),
        app_name: capture.app_name.clone(),
        latency_ms: capture.latency_ms,
        raw_text_len,
    }
}

/// The next node of a walk with pending `stack` (the top is the last entry)
/// after `visited` nodes: none once the stack is empty or the node budget
/// is spent (the walk is then over); entries past the depth limit are
/// passed over without counting. Returns the node, the stack left, and the
/// count.
pub open spec fn spec_next_node(stack: Seq<(u64, u32)>, visited: u32) -> (Option<(u64, u32)>, Seq<(u64, u32)>, u32)
    decreases stack.len(),
{
    if stack.len() == 0 {
        (None, stack, visited)
    } else if visited >= MAX_NODES {
        (None, Seq::empty(), visited)
    } else if stack.last().1 > MAX_DEPTH {
        spec_next_node(stack.drop_last(), visited)
    } else {
        (Some(stack.last()), stack.drop_last(), (visited + 1) as u32)
    }
}

/// `children` as stack entries one level below `depth`, the first child on
/// top (so children are visited in order).
pub open spec fn child_entries(children: Seq<u64>, depth: u32) -> Seq<(u64, u32)> {
    children.reverse().map_values(|c: u64| (c, (depth + 1) as u32))
}

/// A depth-first walk of an accessibility subtree, node by node: the
/// application reads each node the walk asks for (its role, the content
/// attributes, and its children as handles) and hands it back. Chrome is
/// neither collected nor descended into; the walk stops at the node budget
/// and skips nodes past the depth limit.
pub struct ContentWalk {
    pub stack: Vec<(u64, u32)>,
    pub state: TraversalState,
}

impl ContentWalk {
    /// A walk from node `root` at depth zero.
    pub fn start(root: u64) -> (w: Self)
        ensures
            w.stack@ == seq![(root, 0u32)],
            w.state.nodes_visited == 0,
            w.state.fragments@.len() == 0,
    {
        let mut stack: Vec<(u64, u32)> = Vec::new();
        stack.push((root, 0));
        ContentWalk { stack, state: TraversalState::new() }
    }

    /// The next node to read and its depth, counted against the budget; none
    /// when the walk is over.
    pub fn next_node(&mut self) -> (r: Option<(u64, u32)>)
        ensures
            (r, final(self).stack@, final(self).state.nodes_visited)
                == spec_next_node(old(self).stack@, old(self).state.nodes_visited),
            final(self).state.fragments == old(self).state.fragments,
    {
        loop
            invariant
                spec_next_node(self.stack@, self.state.nodes_visited)
                    == spec_next_node(old(self).stack@, old(self).state.nodes_visited),
                self.state.fragments == old(self).state.fragments,
            decreases self.stack@.len(),
        {
            if self.stack.len() == 0 {
                return None;
            }
            if self.state.exhausted() {
                self.stack.clear();
                return None;
            }
            let ghost before = self.stack@;
            let top = match self.stack.pop() {
                Some(t) => t,
                None => return None,
            };
            assert(top == before.last() && self.stack@ == before.drop_last());
            if self.state.enter(top.1) {
                return Some(top);
            }
        }
    }

    /// Hand back node read at `depth` (as returned by `next_node`): its
    /// role, its content attribute values, and its children. A chrome node
    /// adds nothing; any other adds its nonblank trimmed values and queues
    /// its children.
    pub fn visit(&mut self, role: Option<&str>, values: &[String], children: &[u64], depth: u32)
        requires
            depth <= MAX_DEPTH,
        ensures
            final(self).state.nodes_visited == old(self).state.nodes_visited,
            (match role { Some(r) => is_chrome_role_spec(r@), None => false }) ==> {
                &&& final(self).stack@ == old(self).stack@
                &&& strs(final(self).state.fragments@) == strs(old(self).state.fragments@)
            },
            !(match role { Some(r) => is_chrome_role_spec(r@), None => false }) ==> {
                &&& final(self).stack@ == old(self).stack@ + child_entries(children@, depth)
                &&& strs(final(self).state.fragments@) == strs(old(self).state.fragments@) + kept_values(strs(values@))
            },
    {
        let chrome = match role {
            Some(r) => is_chrome_role(r),
            None => false,
        };
        if chrome {
            return;
        }
        let ghost frags0 = strs(self.state.fragments@);
        let mut i: usize = 0;
        while i < values.len()
            invariant
                i <= values@.len(),
                self.stack@ == old(self).stack@,
                self.state.nodes_visited == old(self).state.nodes_visited,
                strs(self.state.fragments@) == frags0 + kept_values(strs(values@).take(i as int)),
            decreases values@.len() - i,
        {
            self.state.collect(values[i].as_str());
            proof {
                let t = strs(values@).take(i + 1);
                assert(t.drop_last() =~= strs(values@).take(i as int));
                assert(t.last() == values@[i as int]@);
            }
            i = i + 1;
        }
        assert(strs(values@).take(values@.len() as int) =~= strs(values@));
        let ghost stack0 = self.stack@;
        let mut k: usize = children.len();
        while k > 0
            invariant
                k <= children@.len(),
                depth <= MAX_DEPTH,
                self.stack@ == stack0 + child_entries(children@.skip(k as int), depth),
                self.state.nodes_visited == old(self).state.nodes_visited,
                strs(self.state.fragments@) == frags0 + kept_values(strs(values@)),
            decreases k,
        {
            k = k - 1;
            self.stack.push((children[k], depth + 1));
            proof {
                let tail = children@.skip(k as int);
                assert(tail.reverse() =~= children@.skip(k + 1).reverse().push(children@[k as int]));
            }
            assert(self.stack@ =~= stack0 + child_entries(children@.skip(k as int), depth));
        }
        assert(children@.skip(0) =~= children@);
    }
}

/// The nonblank values, trimmed.
pub open spec fn kept_values(values: Seq<Seq<char>>) -> Seq<Seq<char>>
    decreases values.len(),
{
    if values.len() == 0 {
        Seq::empty()
    } else {
        let rest = kept_values(values.drop_last());
        let t = trim_ws(values.last());
        if t.len() > 0 { rest.push(t) } else { rest }
    }
}

/// A walk never reads more nodes than the budget: once it is spent, the
/// next request ends the walk and empties the queue.
pub proof fn law_walk_respects_node_budget(stack: Seq<(u64, u32)>, visited: u32)
    requires
        visited >= MAX_NODES,
    ensures
        spec_next_node(stack, visited).0 is None,
        spec_next_node(stack, visited).1.len() == 0,
{
}

/// Every node a walk hands out lies within the depth limit, and handing it
/// out counts it once.
pub proof fn law_walk_depth_and_count(stack: Seq<(u64, u32)>, visited: u32)
    requires
        visited < MAX_NODES,
    ensures
        spec_next_node(stack, visited).0 matches Some(n) ==> n.1 <= MAX_DEPTH
            && spec_next_node(stack, visited).2 == visited + 1,
        spec_next_node(stack, visited).0 is None ==> spec_next_node(stack, visited).2 == visited,
    decreases stack.len(),
{
    if stack.len() > 0 && stack.last().1 > MAX_DEPTH {
        law_walk_depth_and_count(stack.drop_last(), visited);
    }
}

} // verus!
